use deploynest_worker::proxy::{insert_url, route_body, route_url, succeeded};
use serde_json::Value;

fn object(fields: Vec<(&str, Value)>) -> Value {
    let mut map = serde_json::Map::new();
    for (key, value) in fields {
        map.insert(key.to_string(), value);
    }
    Value::Object(map)
}

fn route(id: &str, host: &str, dial: &str) -> Value {
    object(vec![
        ("@id", Value::from(id)),
        ("match", Value::from(vec![object(vec![("host", Value::from(vec![host]))])])),
        (
            "handle",
            Value::from(vec![object(vec![
                ("handler", Value::from("reverse_proxy")),
                ("upstreams", Value::from(vec![object(vec![("dial", Value::from(dial))])])),
            ])]),
        ),
        ("terminal", Value::from(true)),
    ])
}

#[test]
fn route_is_the_expected_document() {
    assert_eq!(
        route_body(4, "shop-4.localhost", "host.docker.internal", 3005),
        "{\"@id\":\"deploynest_project_4\",\"handle\":[{\"handler\":\"reverse_proxy\",\"upstreams\":[{\"dial\":\"host.docker.internal:3005\"}]}],\"match\":[{\"host\":[\"shop-4.localhost\"]}],\"terminal\":true}"
    );
}

#[test]
fn route_holds_any_text() {
    let controls: String = (0..0x20u32).filter_map(char::from_u32).collect();
    for host in ["plain", "a\"b", "back\\slash", "\u{e9}\u{1f600}\u{7f}/", controls.as_str()] {
        let body = route_body(-1, host, host, 80);
        let expected = route("deploynest_project_-1", host, &format!("{host}:80"));
        assert_eq!(serde_json::from_str::<Value>(&body).unwrap(), expected);
        assert_eq!(body, expected.to_string());
    }
}

#[test]
fn different_routes_have_different_documents() {
    assert_ne!(route_body(1, "a", "b\",\"x", 1), route_body(1, "a\",\"x", "b", 1));
    assert_ne!(route_body(1, "a", "b", 1), route_body(2, "a", "b", 1));
}

#[test]
fn proxy_addresses() {
    assert_eq!(route_url("http://c:2019", 4), "http://c:2019/id/deploynest_project_4");
    assert_eq!(
        insert_url("http://c:2019", "srv0"),
        "http://c:2019/config/apps/http/servers/srv0/routes/0"
    );
}

#[test]
fn success_is_any_status_of_two_hundred() {
    for status in 0..=999u16 {
        assert_eq!(succeeded(status), status / 100 == 2);
    }
}
