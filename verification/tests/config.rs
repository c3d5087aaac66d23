use deploynest_worker::config::{env_or, poll_interval, Config, ConfigError, Environment};

fn environment(vars: &[(&str, &str)]) -> Environment {
    let mut env = Environment::new();
    for (key, value) in vars {
        env.set(key.to_string(), value.to_string());
    }
    env
}

#[test]
fn unset_variables_have_defaults() {
    let config = Config::from_env(&Environment::new()).unwrap();
    assert_eq!(config.workspace_dir, "/tmp/deploynest");
    assert_eq!(config.container_port, 3000);
    assert_eq!(config.port_start, 3001);
    assert_eq!(config.port_end, 4000);
    assert_eq!(config.caddy_admin_url, "http://127.0.0.1:2019");
    assert_eq!(config.caddy_server, "srv0");
    assert_eq!(config.caddy_upstream_host, "host.docker.internal");
    assert_eq!(config.base_domain, "localhost");
    assert_eq!(config.public_scheme, "http");
    assert_eq!(poll_interval(&Environment::new()), Ok(5));
}

#[test]
fn set_variables_are_used() {
    let env = environment(&[
        ("WORKSPACE_DIR", "/srv/work"),
        ("CONTAINER_PORT", "8080"),
        ("PORT_START", "+1"),
        ("PORT_END", "0065535"),
        ("CADDY_ADMIN_URL", "http://caddy:2019///"),
        ("CADDY_SERVER", "main"),
        ("CADDY_UPSTREAM_HOST", "10.0.0.1"),
        ("BASE_DOMAIN", "example.com"),
        ("PUBLIC_SCHEME", "https"),
        ("POLL_INTERVAL_SECONDS", "18446744073709551615"),
    ]);
    let config = Config::from_env(&env).unwrap();
    assert_eq!(config.workspace_dir, "/srv/work");
    assert_eq!(config.container_port, 8080);
    assert_eq!(config.port_start, 1);
    assert_eq!(config.port_end, 65535);
    assert_eq!(config.caddy_admin_url, "http://caddy:2019");
    assert_eq!(config.caddy_server, "main");
    assert_eq!(config.caddy_upstream_host, "10.0.0.1");
    assert_eq!(config.base_domain, "example.com");
    assert_eq!(config.public_scheme, "https");
    assert_eq!(poll_interval(&env), Ok(u64::MAX));
}

#[test]
fn bad_container_port_is_refused_first() {
    for text in ["", "+", "-1", " 80", "80 ", "65536", "8_0", "x"] {
        let env = environment(&[("CONTAINER_PORT", text), ("PORT_START", "x"), ("PORT_END", "x")]);
        assert!(matches!(Config::from_env(&env), Err(ConfigError::ContainerPort(_))));
    }
}

#[test]
fn bad_port_start_is_refused_next() {
    let env = environment(&[("PORT_START", "70000"), ("PORT_END", "x")]);
    assert!(matches!(Config::from_env(&env), Err(ConfigError::PortStart(_))));
}

#[test]
fn bad_port_end_is_refused_last() {
    let env = environment(&[("PORT_END", "4000.0")]);
    assert!(matches!(Config::from_env(&env), Err(ConfigError::PortEnd(_))));
}

#[test]
fn bad_poll_interval_is_refused() {
    for text in ["", "five", "-5", "18446744073709551616"] {
        assert!(poll_interval(&environment(&[("POLL_INTERVAL_SECONDS", text)])).is_err());
    }
}

#[test]
fn the_last_assignment_counts() {
    let env = environment(&[("A", "1"), ("B", "2"), ("A", "3"), ("C", "")]);
    assert_eq!(env_or(&env, "A", "0"), "3");
    assert_eq!(env_or(&env, "B", "0"), "2");
    assert_eq!(env_or(&env, "C", "0"), "");
    assert_eq!(env_or(&env, "D", "0"), "0");
}

#[test]
fn a_copy_has_the_same_settings() {
    let config = Config::from_env(&environment(&[("BASE_DOMAIN", "x.org")])).unwrap();
    assert_eq!(format!("{:?}", config.clone()), format!("{config:?}"));
}
