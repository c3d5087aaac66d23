//! The worker's settings, read from environment variables.

use std::num::ParseIntError;
use vstd::prelude::*;
use crate::text::{
    decimal, digits, law_cutting_takes_the_end_only, lemma_digits, same_text, trim_slashes,
    without_last,
};

verus! {

/// The error of a failed integer parse in std.
#[verifier::external_type_specification]
#[verifier::external_body]
pub struct ExParseIntError(ParseIntError);

// ---------------------------------------------------------------------------
// Numbers
// ---------------------------------------------------------------------------

/// The number that a sequence of digits stands for.
pub open spec fn digits_value(t: Seq<char>) -> nat
    decreases t.len(),
{
    if t.len() == 0 {
        0
    } else {
        (digits_value(t.drop_last()) * 10 + (t.last() as int - 48)) as nat
    }
}

/// The number that `t` stands for, if it is an optional plus sign followed by one or
/// more digits and nothing else.
pub open spec fn unsigned_value(t: Seq<char>) -> Option<nat> {
    let d = if t.len() > 0 && t[0] == '+' {
        t.skip(1)
    } else {
        t
    };
    if d.len() > 0 && forall|i: int| 0 <= i < d.len() ==> '0' <= #[trigger] d[i] <= '9' {
        Some(digits_value(d))
    } else {
        None
    }
}

/// The number that `t` stands for, if it is at most `max`.
pub open spec fn number_up_to(t: Seq<char>, max: nat) -> Option<nat> {
    match unsigned_value(t) {
        Some(n) if n <= max => Some(n),
        _ => None,
    }
}

/// `str::parse::<u16>` accepts an optional plus sign followed by digits only, and
/// returns their value when it fits. Which parse error a rejected text gives is left
/// unsaid.
#[verifier::external_body]
fn parse_u16(text: &str) -> (result: Result<u16, ParseIntError>)
    ensures
        match result {
            Ok(n) => number_up_to(text@, u16::MAX as nat) == Some(n as nat),
            Err(_) => number_up_to(text@, u16::MAX as nat) is None,
        },
{
    text.parse::<u16>()
}

/// `str::parse::<u64>` accepts an optional plus sign followed by digits only, and
/// returns their value when it fits. Which parse error a rejected text gives is left
/// unsaid.
#[verifier::external_body]
fn parse_u64(text: &str) -> (result: Result<u64, ParseIntError>)
    ensures
        match result {
            Ok(n) => number_up_to(text@, u64::MAX as nat) == Some(n as nat),
            Err(_) => number_up_to(text@, u64::MAX as nat) is None,
        },
{
    text.parse::<u64>()
}

// ---------------------------------------------------------------------------
// Environment
// ---------------------------------------------------------------------------

/// The environment variables that are set.
pub struct Environment {
    vars: Vec<(String, String)>,
}

/// What a list of assignments leaves set: the last one of a variable counts.
pub closed spec fn assigned(vars: Seq<(String, String)>) -> Map<Seq<char>, Seq<char>>
    decreases vars.len(),
{
    if vars.len() == 0 {
        Map::empty()
    } else {
        assigned(vars.drop_last()).insert(vars.last().0@, vars.last().1@)
    }
}

impl View for Environment {
    type V = Map<Seq<char>, Seq<char>>;

    closed spec fn view(&self) -> Map<Seq<char>, Seq<char>> {
        assigned(self.vars@)
    }
}

/// The value of a variable, or `default` where it is not set.
pub open spec fn setting(
    env: Map<Seq<char>,
    Seq<char>>,
    key: Seq<char>,
    default: Seq<char>,
) -> Seq<char> {
    if env.contains_key(key) {
        env[key]
    } else {
        default
    }
}

impl Environment {
    /// An environment in which no variable is set.
    pub fn new() -> (env: Environment)
        ensures
            env@ == Map::<Seq<char>, Seq<char>>::empty(),
    {
        Environment { vars: Vec::new() }
    }

    /// Sets a variable.
    pub fn set(&mut self, key: String, value: String)
        ensures
            final(self)@ == old(self)@.insert(key@, value@),
    {
        let ghost before = self.vars@;
        self.vars.push((key, value));
        assert(self.vars@.drop_last() =~= before);
    }
}

/// The value of a variable, or `default` where it is not set.
pub fn env_or(env: &Environment, key: &str, default: &str) -> (value: String)
    ensures
        value@ == setting(env@, key@, default@),
{
    let mut i: usize = env.vars.len();
    assert(env.vars@.take(i as int) =~= env.vars@);
    while i > 0
        invariant
            i <= env.vars@.len(),
            env@.contains_key(key@) == assigned(env.vars@.take(i as int)).contains_key(key@),
            env@.contains_key(key@) ==> env@[key@] == assigned(env.vars@.take(i as int))[key@],
        decreases i,
    {
        i -= 1;
        assert(env.vars@.take(i + 1).drop_last() =~= env.vars@.take(i as int));
        if same_text(env.vars[i].0.as_str(), key) {
            return env.vars[i].1.clone();
        }
    }
    default.to_owned()
}

// ---------------------------------------------------------------------------
// Settings
// ---------------------------------------------------------------------------

/// The settings of the worker.
#[derive(Debug)]
pub struct Config {
    pub workspace_dir: String,
    pub container_port: u16,
    pub port_start: u16,
    pub port_end: u16,
    pub caddy_admin_url: String,
    pub caddy_server: String,
    pub caddy_upstream_host: String,
    pub base_domain: String,
    pub public_scheme: String,
}

pub struct ConfigView {
    pub workspace_dir: Seq<char>,
    pub container_port: u16,
    pub port_start: u16,
    pub port_end: u16,
    pub caddy_admin_url: Seq<char>,
    pub caddy_server: Seq<char>,
    pub caddy_upstream_host: Seq<char>,
    pub base_domain: Seq<char>,
    pub public_scheme: Seq<char>,
}

impl View for Config {
    type V = ConfigView;

    open spec fn view(&self) -> ConfigView {
        ConfigView {
            workspace_dir: self.workspace_dir@,
            container_port: self.container_port,
            port_start: self.port_start,
            port_end: self.port_end,
            caddy_admin_url: self.caddy_admin_url@,
            caddy_server: self.caddy_server@,
            caddy_upstream_host: self.caddy_upstream_host@,
            base_domain: self.base_domain@,
            public_scheme: self.public_scheme@,
        }
    }
}

impl Clone for Config {
    fn clone(&self) -> (copy: Config)
        ensures
            copy@ == self@,
    {
        Config {
            workspace_dir: self.workspace_dir.clone(),
            container_port: self.container_port,
            port_start: self.port_start,
            port_end: self.port_end,
            caddy_admin_url: self.caddy_admin_url.clone(),
            caddy_server: self.caddy_server.clone(),
            caddy_upstream_host: self.caddy_upstream_host.clone(),
            base_domain: self.base_domain.clone(),
            public_scheme: self.public_scheme.clone(),
        }
    }
}

/// Which setting does not hold a number that fits, and why.
#[derive(Debug)]
pub enum ConfigError {
    ContainerPort(ParseIntError),
    PortStart(ParseIntError),
    PortEnd(ParseIntError),
}

/// The port that a variable holds, if it holds one.
pub open spec fn port_setting(
    env: Map<Seq<char>, Seq<char>>,
    key: Seq<char>,
    default: Seq<char>,
) -> Option<nat> {
    number_up_to(setting(env, key, default), u16::MAX as nat)
}

pub open spec fn container_port_setting(env: Map<Seq<char>, Seq<char>>) -> Option<nat> {
    port_setting(env, "CONTAINER_PORT"@, "3000"@)
}

pub open spec fn port_start_setting(env: Map<Seq<char>, Seq<char>>) -> Option<nat> {
    port_setting(env, "PORT_START"@, "3001"@)
}

pub open spec fn port_end_setting(env: Map<Seq<char>, Seq<char>>) -> Option<nat> {
    port_setting(env, "PORT_END"@, "4000"@)
}

/// The settings that an environment gives, where its ports are numbers.
pub open spec fn settings(env: Map<Seq<char>, Seq<char>>) -> ConfigView {
    ConfigView {
        workspace_dir: setting(env, "WORKSPACE_DIR"@, "/tmp/deploynest"@),
        container_port: container_port_setting(env)->0 as u16,
        port_start: port_start_setting(env)->0 as u16,
        port_end: port_end_setting(env)->0 as u16,
        caddy_admin_url: without_last(
            setting(env, "CADDY_ADMIN_URL"@, "http://127.0.0.1:2019"@),
            |c: char| c == '/',
        ),
        caddy_server: setting(env, "CADDY_SERVER"@, "srv0"@),
        caddy_upstream_host: setting(env, "CADDY_UPSTREAM_HOST"@, "host.docker.internal"@),
        base_domain: setting(env, "BASE_DOMAIN"@, "localhost"@),
        public_scheme: setting(env, "PUBLIC_SCHEME"@, "http"@),
    }
}

/// What comes of reading the settings: the settings, or the first that does not hold a number
/// that fits.
pub enum Reading {
    Accepted(ConfigView),
    ContainerPort,
    PortStart,
    PortEnd,
}

pub open spec fn reading(env: Map<Seq<char>, Seq<char>>) -> Reading {
    if container_port_setting(env) is None {
        Reading::ContainerPort
    } else if port_start_setting(env) is None {
        Reading::PortStart
    } else if port_end_setting(env) is None {
        Reading::PortEnd
    } else {
        Reading::Accepted(settings(env))
    }
}

impl Config {
    /// Reads the settings from an environment.
    pub fn from_env(env: &Environment) -> (result: Result<Config, ConfigError>)
        ensures
            match result {
                Ok(config) => container_port_setting(env@) is Some && port_start_setting(env@)
                    is Some && port_end_setting(env@) is Some && config@ == settings(env@),
                Err(ConfigError::ContainerPort(_)) => container_port_setting(env@) is None,
                Err(ConfigError::PortStart(_)) => container_port_setting(env@) is Some
                    && port_start_setting(env@) is None,
                Err(ConfigError::PortEnd(_)) => container_port_setting(env@) is Some
                    && port_start_setting(env@) is Some && port_end_setting(env@) is None,
            },
            match result {
                Ok(config) => reading(env@) == Reading::Accepted(config@),
                Err(ConfigError::ContainerPort(_)) => reading(env@) is ContainerPort,
                Err(ConfigError::PortStart(_)) => reading(env@) is PortStart,
                Err(ConfigError::PortEnd(_)) => reading(env@) is PortEnd,
            },
    {
        let container_port: u16 = match parse_u16(env_or(env, "CONTAINER_PORT", "3000").as_str()) {
            Ok(port) => port,
            Err(error) => return Err(ConfigError::ContainerPort(error)),
        };
        let port_start: u16 = match parse_u16(env_or(env, "PORT_START", "3001").as_str()) {
            Ok(port) => port,
            Err(error) => return Err(ConfigError::PortStart(error)),
        };
        let port_end: u16 = match parse_u16(env_or(env, "PORT_END", "4000").as_str()) {
            Ok(port) => port,
            Err(error) => return Err(ConfigError::PortEnd(error)),
        };
        Ok(
            Config {
                workspace_dir: env_or(env, "WORKSPACE_DIR", "/tmp/deploynest"),
                container_port,
                port_start,
                port_end,
                caddy_admin_url: trim_slashes(
                    env_or(env, "CADDY_ADMIN_URL", "http://127.0.0.1:2019").as_str(),
                ),
                caddy_server: env_or(env, "CADDY_SERVER", "srv0"),
                caddy_upstream_host: env_or(env, "CADDY_UPSTREAM_HOST", "host.docker.internal"),
                base_domain: env_or(env, "BASE_DOMAIN", "localhost"),
                public_scheme: env_or(env, "PUBLIC_SCHEME", "http"),
            },
        )
    }
}

/// The seconds to wait between two looks at the job queue, if that setting is a
/// number.
pub open spec fn poll_setting(env: Map<Seq<char>, Seq<char>>) -> Option<nat> {
    number_up_to(setting(env, "POLL_INTERVAL_SECONDS"@, "5"@), u64::MAX as nat)
}

/// Reads how many seconds to wait between two looks at the job queue.
pub fn poll_interval(env: &Environment) -> (result: Result<u64, ParseIntError>)
    ensures
        match result {
            Ok(seconds) => poll_setting(env@) == Some(seconds as nat),
            Err(_) => poll_setting(env@) is None,
        },
{
    parse_u64(env_or(env, "POLL_INTERVAL_SECONDS", "5").as_str())
}

// ---------------------------------------------------------------------------
// Laws
// ---------------------------------------------------------------------------

proof fn lemma_four_digits(t: Seq<char>)
    requires
        t.len() == 4,
        forall|i: int| 0 <= i < 4 ==> '0' <= #[trigger] t[i] <= '9',
    ensures
        unsigned_value(t) == Some(
            ((t[0] as int - 48) * 1000 + (t[1] as int - 48) * 100 + (t[2] as int - 48) * 10 + (
            t[3] as int - 48)) as nat,
        ),
{
    reveal_with_fuel(digits_value, 5);
    assert('0' <= t[0]);
}

/// Where none of the numeric variables is set the settings are accepted, with the
/// default ports and the default interval.
pub proof fn law_defaults_are_accepted(env: Map<Seq<char>, Seq<char>>)
    requires
        !env.contains_key("CONTAINER_PORT"@),
        !env.contains_key("PORT_START"@),
        !env.contains_key("PORT_END"@),
        !env.contains_key("POLL_INTERVAL_SECONDS"@),
    ensures
        container_port_setting(env) == Some(3000nat),
        port_start_setting(env) == Some(3001nat),
        port_end_setting(env) == Some(4000nat),
        poll_setting(env) == Some(5nat),
{
    reveal_strlit("3000");
    reveal_strlit("3001");
    reveal_strlit("4000");
    reveal_strlit("5");
    lemma_four_digits("3000"@);
    lemma_four_digits("3001"@);
    lemma_four_digits("4000"@);
    reveal_with_fuel(digits_value, 2);
    assert(digits_value("5"@) == 5);
}

proof fn lemma_no_slash_left(t: Seq<char>)
    ensures
        ({
            let rest = without_last(t, |c: char| c == '/');
            rest.len() > 0 ==> rest.last() != '/'
        }),
    decreases t.len(),
{
    if t.len() > 0 && t.last() == '/' {
        lemma_no_slash_left(t.drop_last());
    }
}

/// The proxy's address never ends in a slash, so that a path can be appended to it.
pub proof fn law_admin_url_ends_without_slash(env: Map<Seq<char>, Seq<char>>)
    ensures
        settings(env).caddy_admin_url.len() > 0 ==> settings(env).caddy_admin_url.last() != '/',
{
    lemma_no_slash_left(setting(env, "CADDY_ADMIN_URL"@, "http://127.0.0.1:2019"@));
}

proof fn lemma_digits_read_back(n: nat)
    ensures
        digits_value(digits(n)) == n,
        n > 0 ==> digits(n)[0] != '0',
    decreases n,
{
    lemma_digits(n / 10);
    if n < 10 {
        reveal_with_fuel(digits_value, 2);
        assert(digits(n).drop_last() =~= seq![]);
    } else {
        lemma_digits_read_back(n / 10);
        assert(digits(n).drop_last() =~= digits(n / 10));
    }
}

/// A number reads back from its text, which has no zeros in front; that of a negative number
/// is a minus sign and the text of its amount.
pub proof fn law_numbers_read_back(i: int)
    ensures
        i >= 0 ==> unsigned_value(decimal(i)) == Some(i as nat),
        i > 0 ==> decimal(i)[0] != '0',
        decimal(0) == seq!['0'],
        i < 0 ==> decimal(i) == seq!['-'] + decimal(-i),
{
    if i >= 0 {
        lemma_digits(i as nat);
        lemma_digits_read_back(i as nat);
    }
}

/// A value is that of a variable if it is set, and the default if not.
pub open spec fn follows(
    env: Map<Seq<char>, Seq<char>>,
    key: Seq<char>,
    default: Seq<char>,
    value: Seq<char>,
) -> bool {
    &&& env.contains_key(key) ==> value == env[key]
    &&& !env.contains_key(key) ==> value == default
}

/// Every setting is what its variable says, and what the worker is documented to use where the
/// variable is not set.
pub proof fn law_settings_follow_the_environment(env: Map<Seq<char>, Seq<char>>)
    ensures
        ({
            let s = settings(env);
            &&& follows(env, "WORKSPACE_DIR"@, "/tmp/deploynest"@, s.workspace_dir)
            &&& follows(env, "CADDY_SERVER"@, "srv0"@, s.caddy_server)
            &&& follows(env, "CADDY_UPSTREAM_HOST"@, "host.docker.internal"@, s.caddy_upstream_host)
            &&& follows(env, "BASE_DOMAIN"@, "localhost"@, s.base_domain)
            &&& follows(env, "PUBLIC_SCHEME"@, "http"@, s.public_scheme)
            &&& exists|url: Seq<char>| #[trigger]
                follows(env, "CADDY_ADMIN_URL"@, "http://127.0.0.1:2019"@, url)
                    && s.caddy_admin_url.is_prefix_of(url) && forall|i: int|
                    s.caddy_admin_url.len() <= i < url.len() ==> #[trigger] url[i] == '/'
        }),
{
    let url = setting(env, "CADDY_ADMIN_URL"@, "http://127.0.0.1:2019"@);
    law_cutting_takes_the_end_only(url, |c: char| c == '/');
    assert(follows(env, "CADDY_ADMIN_URL"@, "http://127.0.0.1:2019"@, url));
}

/// The ports and the interval that a variable holds are those that are used: a number that fits
/// reads back from its text as it is, and a text that holds no such number is refused.
pub proof fn law_numbers_follow_the_environment(env: Map<Seq<char>, Seq<char>>, n: nat)
    ensures
        ({
            let told = |key: Seq<char>| env.contains_key(key) && env[key] == decimal(n as int);
            &&& told("CONTAINER_PORT"@) && n <= 65535 ==> container_port_setting(env) == Some(n)
            &&& told("PORT_START"@) && n <= 65535 ==> port_start_setting(env) == Some(n)
            &&& told("PORT_END"@) && n <= 65535 ==> port_end_setting(env) == Some(n)
            &&& told("CONTAINER_PORT"@) && n > 65535 ==> container_port_setting(env) is None
            &&& told("PORT_START"@) && n > 65535 ==> port_start_setting(env) is None
            &&& told("PORT_END"@) && n > 65535 ==> port_end_setting(env) is None
            &&& told("POLL_INTERVAL_SECONDS"@) && n <= u64::MAX ==> poll_setting(env) == Some(n)
            &&& told("POLL_INTERVAL_SECONDS"@) && n > u64::MAX ==> poll_setting(env) is None
        }),
        container_port_setting(env) matches Some(p) ==> settings(env).container_port == p,
        port_start_setting(env) matches Some(p) ==> settings(env).port_start == p,
        port_end_setting(env) matches Some(p) ==> settings(env).port_end == p,
{
    law_numbers_read_back(n as int);
}

/// Settings are accepted exactly where the three ports are numbers that fit, whatever they are,
/// and nothing else is asked of them. A refusal names the first variable, in the order of
/// container, start and end, that does not hold such a number.
pub proof fn law_ports_are_all_that_is_checked(env: Map<Seq<char>, Seq<char>>)
    ensures
        reading(env) is Accepted <==> fits(env, "CONTAINER_PORT"@) && fits(env, "PORT_START"@)
            && fits(env, "PORT_END"@),
        reading(env) is ContainerPort <==> !fits(env, "CONTAINER_PORT"@),
        reading(env) is PortStart <==> fits(env, "CONTAINER_PORT"@) && !fits(env, "PORT_START"@),
        reading(env) is PortEnd <==> fits(env, "CONTAINER_PORT"@) && fits(env, "PORT_START"@)
            && !fits(env, "PORT_END"@),
        reading(env) matches Reading::Accepted(config) ==> config == settings(env),
{
    reveal_strlit("3000");
    reveal_strlit("3001");
    reveal_strlit("4000");
    lemma_four_digits("3000"@);
    lemma_four_digits("3001"@);
    lemma_four_digits("4000"@);
}

/// A variable is not set, or it holds a port.
pub open spec fn fits(env: Map<Seq<char>, Seq<char>>, key: Seq<char>) -> bool {
    env.contains_key(key) ==> (unsigned_value(env[key]) matches Some(n) && n <= 65535)
}

} // verus!
