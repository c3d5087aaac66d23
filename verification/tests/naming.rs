use deploynest_worker::naming::{
    container_name, hostname, image, port_mapping, project_label, public_url, route_id, volume_name,
    workspace,
};

#[test]
fn names_follow_their_patterns() {
    assert_eq!(workspace("/tmp/deploynest", 12), "/tmp/deploynest/deployment-12");
    assert_eq!(workspace("/srv/", 3), "/srv/deployment-3");
    assert_eq!(image(4, 12), "deploynest-project-4:12");
    assert_eq!(container_name(4, 12), "deploynest-4-12");
    assert_eq!(project_label(4), "deploynest.project_id=4");
    assert_eq!(port_mapping(3001, 3000), "3001:3000");
    assert_eq!(hostname("My Cool_App!", 4, "localhost"), "my-cool-app-4.localhost");
    assert_eq!(public_url("http", "a-1.localhost"), "http://a-1.localhost");
    assert_eq!(route_id(4), "deploynest_project_4");
    assert_eq!(volume_name("db-4"), "db-4-data");
}

#[test]
fn no_two_deployments_share_a_name() {
    let ids = [-12, -2, -1, 0, 1, 2, 11, 12, 21, 112, 121];
    let mut containers: Vec<String> = Vec::new();
    let mut images: Vec<String> = Vec::new();
    for p in ids {
        for d in ids {
            containers.push(container_name(p, d));
            images.push(image(p, d));
        }
    }
    for list in [&mut containers, &mut images] {
        let count = list.len();
        list.sort();
        list.dedup();
        assert_eq!(list.len(), count);
    }
}

#[test]
fn no_two_projects_share_a_host_label_or_route() {
    let hosts = [
        hostname("a", 12, "h"),
        hostname("a 1", 2, "h"),
        hostname("a-1", -2, "h"),
        hostname("a", -12, "h"),
        hostname("a 12", 1, "h"),
    ];
    for (i, a) in hosts.iter().enumerate() {
        for b in &hosts[i + 1..] {
            assert_ne!(a, b);
        }
    }
    assert_ne!(project_label(1), project_label(11));
    assert_ne!(route_id(1), route_id(11));
}

#[test]
fn workspaces_do_not_overlap() {
    let one = workspace("/w", 1);
    let twelve = workspace("/w", 12);
    assert_ne!(one, twelve);
    assert!(!twelve.starts_with(&format!("{one}/")));
}

#[test]
fn host_label_is_safe() {
    let host = hostname("  -- 100% Caf\u{e9} --", 7, "example.com");
    assert_eq!(host, "100-caf-7.example.com");
}
