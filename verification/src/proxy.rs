//! The routes of the Caddy proxy in front of the containers.

use vstd::prelude::*;
use crate::naming::{law_project_keys_are_distinct, route_id, route_key};
use crate::text::{decimal, law_decimal_is_injective, lemma_decimal, u16_text};

verus! {

// ---------------------------------------------------------------------------
// JSON text
// ---------------------------------------------------------------------------

/// A hexadecimal digit, in lower case.
pub open spec fn hex(d: int) -> char {
    if d < 10 {
        (48 + d) as char
    } else {
        (87 + d) as char
    }
}

/// A character as it stands in a JSON string.
pub open spec fn json_char(c: char) -> Seq<char> {
    let n = c as int;
    if c == '"' || c == '\\' {
        seq!['\\', c]
    } else if n == 0x08 {
        seq!['\\', 'b']
    } else if n == 0x09 {
        seq!['\\', 't']
    } else if n == 0x0a {
        seq!['\\', 'n']
    } else if n == 0x0c {
        seq!['\\', 'f']
    } else if n == 0x0d {
        seq!['\\', 'r']
    } else if n < 0x20 {
        seq!['\\', 'u', '0', '0', hex(n / 16), hex(n % 16)]
    } else {
        seq![c]
    }
}

/// A text as it stands between the quotes of a JSON string.
pub open spec fn json_escaped(t: Seq<char>) -> Seq<char>
    decreases t.len(),
{
    if t.len() == 0 {
        seq![]
    } else {
        json_char(t[0]) + json_escaped(t.skip(1))
    }
}

/// A text as a JSON string.
pub open spec fn json_quoted(t: Seq<char>) -> Seq<char> {
    seq!['"'] + json_escaped(t) + seq!['"']
}

/// `serde_json::Value::from` makes a string value of the text, and the value's
/// `Display` writes it in compact form: between double quotes, with quotes,
/// backslashes and control characters escaped and every other character as it is.
#[verifier::external_body]
pub(crate) fn json_string(text: &str) -> (json: String)
    ensures
        json@ == json_quoted(text@),
{
    serde_json::Value::from(text).to_string()
}

// ---------------------------------------------------------------------------
// Routes
// ---------------------------------------------------------------------------

/// A route that hands every request for a host to one upstream address, as JSON with
/// the keys of each object in order.
pub open spec fn route_document(id: Seq<char>, hostname: Seq<char>, dial: Seq<char>) -> Seq<char> {
    "{\"@id\":"@ + json_quoted(id)
        + ",\"handle\":[{\"handler\":\"reverse_proxy\",\"upstreams\":[{\"dial\":"@ + json_quoted(dial)
        + "}]}],\"match\":[{\"host\":["@ + json_quoted(hostname) + "]}],\"terminal\":true}"@
}

/// The address that the proxy reaches a container at.
pub open spec fn upstream(host: Seq<char>, port: int) -> Seq<char> {
    host + ":"@ + decimal(port)
}

/// The route of a project.
pub open spec fn project_route(
    project_id: int,
    hostname: Seq<char>,
    upstream_host: Seq<char>,
    port: int,
) -> Seq<char> {
    route_document(route_key(project_id), hostname, upstream(upstream_host, port))
}

/// Where the route of a project is found and replaced.
pub open spec fn route_location(admin_url: Seq<char>, project_id: int) -> Seq<char> {
    admin_url + "/id/"@ + route_key(project_id)
}

/// Where a new route is inserted, before all others.
pub open spec fn insert_location(admin_url: Seq<char>, server: Seq<char>) -> Seq<char> {
    admin_url + "/config/apps/http/servers/"@ + server + "/routes/0"@
}

/// The route of a project, as JSON.
pub fn route_body(project_id: i32, hostname: &str, upstream_host: &str, port: u16) -> (body: String)
    ensures
        body@ == project_route(project_id as int, hostname@, upstream_host@, port as int),
{
    let dial = upstream_host.to_owned().concat(":").concat(u16_text(port).as_str());
    "{\"@id\":".to_owned().concat(json_string(route_id(project_id).as_str()).as_str()).concat(
        ",\"handle\":[{\"handler\":\"reverse_proxy\",\"upstreams\":[{\"dial\":",
    ).concat(json_string(dial.as_str()).as_str()).concat("}]}],\"match\":[{\"host\":[").concat(
        json_string(hostname).as_str(),
    ).concat("]}],\"terminal\":true}")
}

/// Where the route of a project is found and replaced.
pub fn route_url(admin_url: &str, project_id: i32) -> (url: String)
    ensures
        url@ == route_location(admin_url@, project_id as int),
{
    admin_url.to_owned().concat("/id/").concat(route_id(project_id).as_str())
}

/// Where a new route is inserted.
pub fn insert_url(admin_url: &str, server: &str) -> (url: String)
    ensures
        url@ == insert_location(admin_url@, server@),
{
    admin_url.to_owned().concat("/config/apps/http/servers/").concat(server).concat("/routes/0")
}

// ---------------------------------------------------------------------------
// Replies
// ---------------------------------------------------------------------------

/// An HTTP status that reports success.
pub open spec fn is_success(status: u16) -> bool {
    200 <= status < 300
}

/// Whether an HTTP status reports success.
pub fn succeeded(status: u16) -> (result: bool)
    ensures
        result == is_success(status),
{
    200 <= status && status < 300
}

// ---------------------------------------------------------------------------
// Laws
// ---------------------------------------------------------------------------

/// The escapes of two characters never begin alike unless the characters are the
/// same, and none begins with a quote.
proof fn lemma_json_char(a: char, b: char, x: Seq<char>, y: Seq<char>)
    ensures
        json_char(a).len() > 0,
        json_char(a)[0] != '"',
        json_char(a) + x == json_char(b) + y ==> a == b && x == y,
{
    if json_char(a) + x == json_char(b) + y {
        let (l, r) = (json_char(a) + x, json_char(b) + y);
        let (ca, cb) = (json_char(a), json_char(b));
        assert(l[0] == r[0]);
        assert(l[0] == ca[0] && r[0] == cb[0]);
        if ca.len() > 1 {
            assert(l[1] == ca[1] && r[1] == cb[1]);
        }
        if ca.len() > 2 {
            assert(l[4] == ca[4] && r[4] == cb[4]);
            assert(l[5] == ca[5] && r[5] == cb[5]);
        }
        assert(a == b);
        assert(l.skip(ca.len() as int) =~= x);
        assert(r.skip(ca.len() as int) =~= y);
    }
}

proof fn lemma_json_escaped(s: Seq<char>, t: Seq<char>, x: Seq<char>, y: Seq<char>)
    requires
        json_escaped(s) + seq!['"'] + x == json_escaped(t) + seq!['"'] + y,
    ensures
        s == t,
        x == y,
    decreases s.len(),
{
    let l = json_escaped(s) + seq!['"'] + x;
    let r = json_escaped(t) + seq!['"'] + y;
    if s.len() == 0 && t.len() == 0 {
        assert(l.skip(1) =~= x);
        assert(r.skip(1) =~= y);
        assert(s =~= t);
    } else if s.len() == 0 {
        lemma_json_char(t[0], t[0], seq![], seq![]);
        assert(l[0] == '"');
        assert(r[0] == json_char(t[0])[0]);
    } else if t.len() == 0 {
        lemma_json_char(s[0], s[0], seq![], seq![]);
        assert(r[0] == '"');
        assert(l[0] == json_char(s[0])[0]);
    } else {
        let ls = json_escaped(s.skip(1)) + seq!['"'] + x;
        let rs = json_escaped(t.skip(1)) + seq!['"'] + y;
        assert(l =~= json_char(s[0]) + ls);
        assert(r =~= json_char(t[0]) + rs);
        lemma_json_char(s[0], t[0], ls, rs);
        lemma_json_escaped(s.skip(1), t.skip(1), x, y);
        assert(s =~= seq![s[0]] + s.skip(1));
        assert(t =~= seq![t[0]] + t.skip(1));
    }
}

proof fn lemma_after_quoted(
    before: Seq<char>,
    s: Seq<char>,
    t: Seq<char>,
    x: Seq<char>,
    y: Seq<char>,
)
    requires
        before + json_quoted(s) + x == before + json_quoted(t) + y,
    ensures
        s == t,
        x == y,
{
    let l = json_escaped(s) + seq!['"'] + x;
    let r = json_escaped(t) + seq!['"'] + y;
    assert((before + json_quoted(s) + x).skip(before.len() as int + 1) =~= l);
    assert((before + json_quoted(t) + y).skip(before.len() as int + 1) =~= r);
    lemma_json_escaped(s, t, x, y);
}

/// A route document tells its identifier, host and upstream apart: no text in one of
/// them can pass for anything else in the document.
pub proof fn law_route_documents_are_distinct(
    id: Seq<char>,
    hostname: Seq<char>,
    dial: Seq<char>,
    id2: Seq<char>,
    hostname2: Seq<char>,
    dial2: Seq<char>,
)
    requires
        route_document(id, hostname, dial) == route_document(id2, hostname2, dial2),
    ensures
        id == id2,
        hostname == hostname2,
        dial == dial2,
{
    let a = "{\"@id\":"@;
    let b = ",\"handle\":[{\"handler\":\"reverse_proxy\",\"upstreams\":[{\"dial\":"@;
    let c = "}]}],\"match\":[{\"host\":["@;
    let d = "]}],\"terminal\":true}"@;
    let x = b + json_quoted(dial) + c + json_quoted(hostname) + d;
    let y = b + json_quoted(dial2) + c + json_quoted(hostname2) + d;
    assert(route_document(id, hostname, dial) =~= a + json_quoted(id) + x);
    assert(route_document(id2, hostname2, dial2) =~= a + json_quoted(id2) + y);
    lemma_after_quoted(a, id, id2, x, y);
    let x2 = c + json_quoted(hostname) + d;
    let y2 = c + json_quoted(hostname2) + d;
    assert(x =~= b + json_quoted(dial) + x2);
    assert(y =~= b + json_quoted(dial2) + y2);
    lemma_after_quoted(b, dial, dial2, x2, y2);
    lemma_after_quoted(c, hostname, hostname2, d, d);
}

/// A new route goes to the server that is named, of the proxy at the given address, before all
/// other routes: the server's name is what stands between `/servers/` and `/routes/0`.
pub proof fn law_insertions_go_to_the_server(
    admin_url: Seq<char>,
    server: Seq<char>,
    server2: Seq<char>,
)
    ensures
        ({
            let url = insert_location(admin_url, server);
            let start = admin_url + "/config/apps/http/servers/"@;
            let end = "/routes/0"@;
            &&& start.is_prefix_of(url)
            &&& end.is_suffix_of(url)
            &&& url.subrange(start.len() as int, url.len() - end.len()) == server
        }),
        insert_location(admin_url, server) == insert_location(admin_url, server2) ==> server
            == server2,
{
    let (url, url2) = (insert_location(admin_url, server), insert_location(admin_url, server2));
    let start = admin_url + "/config/apps/http/servers/"@;
    let end = "/routes/0"@;
    assert(url.subrange(0, start.len() as int) =~= start);
    assert(url.subrange(url.len() - end.len(), url.len() as int) =~= end);
    assert(url.subrange(start.len() as int, url.len() - end.len()) =~= server);
    assert(url2.subrange(start.len() as int, url2.len() - end.len()) =~= server2);
}

/// A route is found and replaced at the proxy's address, by the identifier that its document
/// carries. No two projects share such an address.
pub proof fn law_routes_are_found_by_their_identifier(
    admin_url: Seq<char>,
    project_id: int,
    project_id2: int,
)
    ensures
        (admin_url + "/id/"@).is_prefix_of(route_location(admin_url, project_id)),
        route_location(admin_url, project_id).skip(admin_url.len() as int + 4) == route_key(
            project_id,
        ),
        route_location(admin_url, project_id) == route_location(admin_url, project_id2)
            ==> project_id == project_id2,
{
    reveal_strlit("/id/");
    let (url, url2) = (
        route_location(admin_url, project_id),
        route_location(admin_url, project_id2),
    );
    let n = admin_url.len() as int + 4;
    assert(url.subrange(0, n) =~= admin_url + "/id/"@);
    assert(url.skip(n) =~= route_key(project_id));
    assert(url2.skip(n) =~= route_key(project_id2));
    law_project_keys_are_distinct(project_id, project_id2);
}

/// An upstream address is the host, a colon and the port, and tells both.
pub proof fn law_upstreams_tell_host_and_port(
    host: Seq<char>,
    port: int,
    host2: Seq<char>,
    port2: int,
)
    requires
        port >= 0,
        port2 >= 0,
    ensures
        (host + ":"@).is_prefix_of(upstream(host, port)),
        upstream(host, port).skip(host.len() as int + 1) == decimal(port),
        upstream(host, port) == upstream(host2, port2) ==> host == host2 && port == port2,
{
    reveal_strlit(":");
    let (a, b) = (upstream(host, port), upstream(host2, port2));
    let (m, n) = (host.len() as int, host2.len() as int);
    assert(a.subrange(0, m + 1) =~= host + ":"@);
    assert(a.skip(m + 1) =~= decimal(port));
    assert(b.skip(n + 1) =~= decimal(port2));
    if a == b {
        lemma_decimal(port);
        lemma_decimal(port2);
        assert(a[m] == ':' && b[n] == ':');
        if m < n {
            assert(a[n] == decimal(port)[n - m - 1]);
        } else if n < m {
            assert(b[m] == decimal(port2)[m - n - 1]);
        }
        assert(a.take(m) =~= host);
        assert(b.take(n) =~= host2);
        law_decimal_is_injective(port, port2);
    }
}

/// The route of a project tells its project, its host, and the host and port that it hands
/// requests to: change one of them and the document changes.
pub proof fn law_project_routes_are_distinct(
    project_id: int,
    hostname: Seq<char>,
    upstream_host: Seq<char>,
    port: int,
    project_id2: int,
    hostname2: Seq<char>,
    upstream_host2: Seq<char>,
    port2: int,
)
    requires
        port >= 0,
        port2 >= 0,
        project_route(project_id, hostname, upstream_host, port) == project_route(
            project_id2,
            hostname2,
            upstream_host2,
            port2,
        ),
    ensures
        project_id == project_id2,
        hostname == hostname2,
        upstream_host == upstream_host2,
        port == port2,
{
    law_route_documents_are_distinct(
        route_key(project_id),
        hostname,
        upstream(upstream_host, port),
        route_key(project_id2),
        hostname2,
        upstream(upstream_host2, port2),
    );
    law_project_keys_are_distinct(project_id, project_id2);
    law_upstreams_tell_host_and_port(upstream_host, port, upstream_host2, port2);
}

/// In a route document the identifier, the host that is matched and the address that is dialled
/// each stand, as a JSON string, behind the key that the proxy reads them by.
pub proof fn law_route_documents_hold_their_parts(
    id: Seq<char>,
    hostname: Seq<char>,
    dial: Seq<char>,
)
    ensures
        holds_after(route_document(id, hostname, dial), "\"@id\":"@, json_quoted(id)),
        holds_after(
            route_document(id, hostname, dial),
            "\"match\":[{\"host\":["@,
            json_quoted(hostname),
        ),
        holds_after(
            route_document(id, hostname, dial),
            "\"handler\":\"reverse_proxy\",\"upstreams\":[{\"dial\":"@,
            json_quoted(dial),
        ),
        "\"terminal\":true}"@.is_suffix_of(route_document(id, hostname, dial)),
{
    let t = route_document(id, hostname, dial);
    let a = "{\"@id\":"@;
    let b = ",\"handle\":[{\"handler\":\"reverse_proxy\",\"upstreams\":[{\"dial\":"@;
    let c = "}]}],\"match\":[{\"host\":["@;
    let d = "]}],\"terminal\":true}"@;
    let (k1, k2, k3, k4) = (
        "\"@id\":"@,
        "\"handler\":\"reverse_proxy\",\"upstreams\":[{\"dial\":"@,
        "\"match\":[{\"host\":["@,
        "\"terminal\":true}"@,
    );
    reveal_strlit("{\"@id\":");
    reveal_strlit(",\"handle\":[{\"handler\":\"reverse_proxy\",\"upstreams\":[{\"dial\":");
    reveal_strlit("}]}],\"match\":[{\"host\":[");
    reveal_strlit("]}],\"terminal\":true}");
    reveal_strlit("\"@id\":");
    reveal_strlit("\"handler\":\"reverse_proxy\",\"upstreams\":[{\"dial\":");
    reveal_strlit("\"match\":[{\"host\":[");
    reveal_strlit("\"terminal\":true}");
    let (qi, qd, qh) = (json_quoted(id), json_quoted(dial), json_quoted(hostname));
    let i1 = a.len() - k1.len();
    let i2 = a.len() + qi.len() + b.len() - k2.len();
    let i3 = a.len() + qi.len() + b.len() + qd.len() + c.len() - k3.len();
    assert(t.subrange(i1, i1 + k1.len() + qi.len()) =~= k1 + qi);
    assert(t.subrange(i2, i2 + k2.len() + qd.len()) =~= k2 + qd);
    assert(t.subrange(i3, i3 + k3.len() + qh.len()) =~= k3 + qh);
    assert(t.subrange(t.len() - k4.len(), t.len() as int) =~= k4);
}

/// Somewhere in the text stands the key, and the value right behind it.
pub open spec fn holds_after(text: Seq<char>, key: Seq<char>, value: Seq<char>) -> bool {
    exists|i: int|
        0 <= i && i + key.len() + value.len() <= text.len() && #[trigger] text.subrange(
            i,
            i + key.len() + value.len(),
        ) == key + value
}

/// Success is reported by the statuses from 200 on, up to 299.
pub proof fn law_success_is_two_hundred(status: u16)
    ensures
        is_success(status) <==> status / 100 == 2,
{
}

} // verus!
