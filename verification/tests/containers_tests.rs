use dockpot::containers::{
    build_registry_url, describe_container, format_port, inspect_ports, inspect_response,
    mount_info, network_info, parse_image_tag, parse_u16, port_info, strip_name, traefik_url,
    truncate_id, ContainerInspectResponse, ContainerNetworkInfo, MountInfo, PortBinding, PortInfo,
};

fn labels(ps: &[(&str, &str)]) -> Vec<(String, String)> {
    ps.iter().map(|(k, v)| (k.to_string(), v.to_string())).collect()
}

#[test]
fn test_build_registry_url_hub_official() {
    let url = build_registry_url("nginx");
    assert_eq!(url, "https://hub.docker.com/_/nginx/tags");
}

#[test]
fn test_build_registry_url_hub_user_repo() {
    let url = build_registry_url("library/nginx");
    assert!(url.contains("hub.docker.com"));
}

#[test]
fn test_build_registry_url_with_tag() {
    let url = build_registry_url("nginx:latest");
    assert!(url.contains("hub.docker.com"));
}

#[test]
fn test_build_registry_url_ghcr() {
    let url = build_registry_url("ghcr.io/owner/repo");
    assert_eq!(url, "https://ghcr.io");
}

#[test]
fn test_build_registry_url_docker_io() {
    let url = build_registry_url("docker.io/library/nginx");
    assert!(!url.is_empty());
}

#[test]
fn test_build_registry_url_sha256() {
    let url = build_registry_url("sha256:abcdef1234567890");
    assert_eq!(url, "https://hub.docker.com");
}

#[test]
fn test_build_registry_url_custom_registry() {
    let url = build_registry_url("registry.example.com/my/image");
    assert_eq!(url, "https://registry.example.com");
}

#[test]
fn test_mount_info_readonly() {
    let mount = MountInfo {
        source: "/backup".into(),
        destination: "/backup".into(),
        mode: "ro".into(),
        rw: false,
    };
    assert!(!mount.rw);
}

#[test]
fn test_container_network_info_empty_ip() {
    let net = ContainerNetworkInfo {
        name: "none".into(),
        ip_address: String::new(),
        gateway: String::new(),
    };
    assert_eq!(net.ip_address, "");
}

#[test]
fn test_container_inspect_response_no_health() {
    let resp = ContainerInspectResponse {
        id: "x".into(),
        name: "x".into(),
        image: "alpine".into(),
        created: String::new(),
        state: "exited".into(),
        status: "exited".into(),
        ports: vec![],
        mounts: vec![],
        env: vec![],
        networks: vec![],
        labels: Vec::new(),
        restart_policy: String::new(),
        health: None,
    };
    assert!(resp.health.is_none());
}

#[test]
fn test_strip_name_slash() {
    assert_eq!(strip_name("/test_container"), "test_container");
}

#[test]
fn test_strip_name_multi_slash() {
    assert_eq!(strip_name("///test"), "test");
}

#[test]
fn test_strip_name_no_slash() {
    assert_eq!(strip_name("plain_name"), "plain_name");
}

#[test]
fn test_strip_name_empty() {
    assert_eq!(strip_name(""), "");
}

#[test]
fn test_parse_image_tag_with_tag() {
    let (name, tag) = parse_image_tag("nginx:1.25");
    assert_eq!(name, "nginx");
    assert_eq!(tag, "1.25");
}

#[test]
fn test_parse_image_tag_no_tag() {
    let (name, tag) = parse_image_tag("nginx");
    assert_eq!(name, "nginx");
    assert_eq!(tag, "latest");
}

#[test]
fn test_parse_image_tag_with_digest() {
    let (name, tag) = parse_image_tag("nginx@sha256:abc123");
    assert_eq!(name, "nginx");
    assert_eq!(tag, "");
}

#[test]
fn test_parse_image_tag_registry_path() {
    let (name, tag) = parse_image_tag("ghcr.io/owner/repo:latest");
    assert_eq!(name, "ghcr.io/owner/repo");
    assert_eq!(tag, "latest");
}

#[test]
fn test_remove_old_image_empty_does_nothing() {
    // The empty-id path returns at once; nothing to observe without a daemon.
}

#[test]
fn test_traefik_label_parsing_http() {
    let l = labels(&[("traefik.http.routers.app.rule", "Host(`app.example.com`)")]);
    assert_eq!(traefik_url(&l), Some("http://app.example.com".to_string()));
}

#[test]
fn test_traefik_label_parsing_https() {
    let l = labels(&[
        ("traefik.http.routers.app.rule", "Host(`secure.example.com`)"),
        ("traefik.http.routers.app.tls", "true"),
    ]);
    assert_eq!(traefik_url(&l), Some("https://secure.example.com".to_string()));
}

#[test]
fn test_traefik_label_no_match() {
    let l: Vec<(String, String)> = Vec::new();
    assert!(traefik_url(&l).is_none());
}

#[test]
fn test_size_conversion() {
    let size_mb = ((1_048_576f64 / 1_048_576.0) * 100.0).round() / 100.0;
    assert_eq!(size_mb, 1.0);
    let size_mb = ((0f64 / 1_048_576.0) * 100.0).round() / 100.0;
    assert_eq!(size_mb, 0.0);
    let size_mb = ((524_288f64 / 1_048_576.0) * 100.0).round() / 100.0;
    assert_eq!(size_mb, 0.5);
}

#[test]
fn test_id_truncation_12_chars() {
    let truncated = truncate_id("abcdef1234567890abcdef1234567890");
    assert_eq!(truncated.len(), 12);
    assert_eq!(truncated, "abcdef123456");
}

#[test]
fn test_id_truncation_short() {
    assert_eq!(truncate_id("abc"), "abc");
}

#[test]
fn test_id_truncation_empty() {
    assert_eq!(truncate_id(""), "");
}

#[test]
fn image_tag_round_trip() {
    for raw in ["nginx:1.25", "ghcr.io/owner/repo:latest", "localhost:5000/app:v1"] {
        let (n, t) = parse_image_tag(raw);
        assert_eq!(format!("{}:{}", n, t), raw);
    }
}

#[test]
fn traefik_tls_other_router_ignored() {
    let l = labels(&[
        ("traefik.http.routers.app.rule", "Host(`a.example.com`)"),
        ("traefik.http.routers.other.tls", "true"),
    ]);
    assert_eq!(traefik_url(&l), Some("http://a.example.com".to_string()));
}

#[test]
fn ports_format_and_parse() {
    assert_eq!(format_port(None, Some(8080), 80), Some("0.0.0.0:8080:80".to_string()));
    assert_eq!(format_port(Some("127.0.0.1".into()), Some(53), 53), Some("127.0.0.1:53:53".to_string()));
    assert_eq!(format_port(None, None, 80), None);
    let c: Vec<char> = "65535".chars().collect();
    assert_eq!(parse_u16(&c), Some(65535));
    let c: Vec<char> = "65536".chars().collect();
    assert_eq!(parse_u16(&c), None);
    let c: Vec<char> = "+80".chars().collect();
    assert_eq!(parse_u16(&c), Some(80));
}

#[test]
fn inspect_port_keys() {
    let p = port_info("80/tcp", Some("8080".into())).unwrap();
    assert_eq!((p.private_port, p.public_port, p.port_type.as_str()), (80, Some(8080), "tcp"));
    let p = port_info("53", None).unwrap();
    assert_eq!((p.private_port, p.public_port, p.port_type.as_str()), (53, None, "tcp"));
    assert!(port_info("x/udp", None).is_none());
    let ports = inspect_ports(&vec![
        ("443/tcp".to_string(), Some("8443".to_string())),
        ("bad".to_string(), None),
        ("53/udp".to_string(), Some("nope".to_string())),
    ]);
    assert_eq!(ports.len(), 2);
    assert_eq!(ports[1].port_type, "udp");
    assert_eq!(ports[1].public_port, None);
    let _: &PortInfo = &ports[0];
}

#[test]
fn inspect_response_defaults() {
    let m = mount_info(Some("/a".into()), None, None, None);
    assert_eq!((m.source.as_str(), m.destination.as_str(), m.mode.as_str(), m.rw), ("/a", "", "", false));
    let n = network_info("bridge".into(), Some("172.17.0.2".into()), None);
    assert_eq!(n.gateway, "");
    let r = inspect_response(
        Some("id1".into()),
        Some("/web".into()),
        None,
        None,
        Some("running".into()),
        vec![],
        vec![m],
        None,
        vec![n],
        None,
        Some("always".into()),
        None,
    );
    assert_eq!(r.name, "web");
    assert_eq!(r.state, "running");
    assert_eq!(r.status, "running");
    assert_eq!(r.image, "");
    assert_eq!(r.restart_policy, "always");
    assert!(r.env.is_empty() && r.labels.is_empty());
}

#[test]
fn container_card() {
    let f = describe_container(
        Some("0123456789abcdef".into()),
        Some(vec!["/web".into()]),
        Some("nginx:1.25".into()),
        None,
        Some("running".into()),
        Some(labels(&[("com.docker.compose.project", "site")])),
        Some(vec![
            PortBinding { ip: None, public_port: Some(8080), private_port: 80 },
            PortBinding { ip: None, public_port: None, private_port: 443 },
        ]),
    );
    assert_eq!(f.id, "0123456789ab");
    assert_eq!(f.name, "web");
    assert_eq!(f.image, "nginx");
    assert_eq!(f.image_tag, "1.25");
    assert_eq!(f.status, "unknown");
    assert_eq!(f.state, "running");
    assert_eq!(f.compose_project, Some("site".to_string()));
    assert_eq!(f.ports, vec!["0.0.0.0:8080:80".to_string()]);
    assert_eq!(f.registry_url, "https://hub.docker.com/_/nginx:1.25/tags");
    assert!(f.traefik_url.is_none());
}
