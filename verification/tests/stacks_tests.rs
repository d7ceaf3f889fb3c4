use dockpot::models::{merge_update, plan_create, CreateStackRequest, DashboardStatus, Stack, StackRow, UpdateStackRequest};
use dockpot::stacks::{
    action_report_of, compose_args, compose_file, compose_from_container, find_project,
    is_managed, new_status, standalone_containers, ComposeProject, CreateFromContainerRequest,
    HostBinding, ImportStackRequest, InspectFacts, MountFacts, StackAction,
};
use dockpot::stacks::{compose_from_inspect, inspect_facts, validate_compose_text};
use dockpot::records::config_items;

fn stack(name: &str, status: &str) -> Stack {
    Stack {
        id: format!("id-{}", name),
        name: name.into(),
        description: None,
        compose: "services: {}".into(),
        status: status.into(),
        path: format!("/app/stacks/{}", name),
        created_at: "t0".into(),
        updated_at: "t0".into(),
    }
}

#[test]
fn dashboard_counts() {
    let s = vec![stack("a", "running"), stack("b", "stopped"), stack("c", "running"), stack("d", "error")];
    let d = DashboardStatus::from_stacks(&s);
    assert_eq!((d.total_stacks, d.running_stacks, d.stopped_stacks), (4, 2, 1));
    assert!(d.running_stacks + d.stopped_stacks <= d.total_stacks);
}

#[test]
fn stack_from_row() {
    let row = StackRow {
        id: "1".into(),
        name: "n".into(),
        description: Some("d".into()),
        compose: "c".into(),
        status: "stopped".into(),
        path: "/p".into(),
        created_at: "a".into(),
        updated_at: "b".into(),
    };
    let s: Stack = Stack::from(row);
    assert_eq!((s.id.as_str(), s.name.as_str(), s.path.as_str(), s.updated_at.as_str()), ("1", "n", "/p", "b"));
    assert_eq!(s.description, Some("d".to_string()));
}

#[test]
fn create_and_update_requests() {
    let r = CreateStackRequest { name: "  ".into(), description: None, compose: None };
    assert_eq!(plan_create(&r), Err("Name is required".to_string()));
    let r = CreateStackRequest { name: "web".into(), description: None, compose: None };
    assert_eq!(plan_create(&r), Ok("version: \"3\"".to_string()));
    let r = CreateStackRequest { name: "web".into(), description: None, compose: Some("x".into()) };
    assert_eq!(plan_create(&r), Ok("x".to_string()));
    let existing = stack("web", "running");
    let u = UpdateStackRequest { name: None, description: Some("new".into()), compose: None };
    let (n, d, c) = merge_update(&existing, &u);
    assert_eq!((n.as_str(), d, c.as_str()), ("web", Some("new".to_string()), "services: {}"));
}

#[test]
fn stack_names_from_requests() {
    let r = CreateFromContainerRequest { container_name: "  web ".into() };
    assert_eq!(r.stack_name(), Ok("web".to_string()));
    let r = CreateFromContainerRequest { container_name: " ".into() };
    assert_eq!(r.stack_name(), Err("container_name is required".to_string()));
    let r = ImportStackRequest { name: "".into() };
    assert_eq!(r.stack_name(), Err("Name is required".to_string()));
}

#[test]
fn compose_of_a_standalone_container() {
    let f = InspectFacts {
        image: Some("nginx:alpine".into()),
        port_bindings: Some(vec![
            (
                "80/tcp".to_string(),
                Some(vec![HostBinding { host_ip: Some(String::new()), host_port: Some("8080".into()) }]),
            ),
            (
                "53/udp".to_string(),
                Some(vec![HostBinding { host_ip: Some("127.0.0.1".into()), host_port: Some("53".into()) }]),
            ),
            ("9000/tcp".to_string(), None),
        ]),
        exposed_ports: Some(vec!["80/tcp".into()]),
        mounts: Some(vec![
            MountFacts { source: Some("/srv/www".into()), destination: Some("/usr/share/nginx/html".into()), mode: None },
            MountFacts { source: Some(String::new()), destination: Some("/x".into()), mode: Some("ro".into()) },
        ]),
        env: Some(vec![Some("A=1".into()), None, Some("PATH=/bin".into())]),
    };
    let y = compose_from_container("web", &f);
    assert_eq!(
        y,
        "services:\n  web:\n    image: nginx:alpine\n    ports:\n      - \"8080:80\"\n      - \"127.0.0.1:53:53\"\n    volumes:\n      - \"/srv/www:/usr/share/nginx/html:rw\"\n    environment:\n      - A=1\n      - PATH=/bin\n    restart: unless-stopped\n"
    );
}

#[test]
fn compose_of_a_bare_container() {
    let f = InspectFacts {
        image: None,
        port_bindings: None,
        exposed_ports: Some(vec!["8080/tcp".into()]),
        mounts: None,
        env: None,
    };
    assert_eq!(
        compose_from_container("c", &f),
        "services:\n  c:\n    image: unknown\n    ports:\n      - \"8080/tcp\"\n    restart: unless-stopped\n"
    );
}

#[test]
fn discovery_helpers() {
    assert!(is_managed("/app/stacks/123/compose.yaml"));
    assert!(!is_managed("/home/u/site/compose.yaml"));
    let ps = vec![
        ComposeProject { name: "a".into(), status: "running(1)".into(), config_files: "/x".into() },
        ComposeProject { name: "b".into(), status: "exited(1)".into(), config_files: "/y".into() },
    ];
    assert_eq!(find_project(&ps, "b"), Some(1));
    assert_eq!(find_project(&ps, "c"), None);
    let out = "abc\tnginx\tweb\tUp 2 hours\t0.0.0.0:80->80/tcp\tmaintainer=x\n\
               def\tredis\tcache\tUp\t\tcom.docker.compose.project=site,x=y\n\
               short\tline\n";
    let cs = standalone_containers(out);
    assert_eq!(cs.len(), 1);
    assert_eq!(
        (cs[0].container_id.as_str(), cs[0].image.as_str(), cs[0].name.as_str(), cs[0].status.as_str(), cs[0].ports.as_str()),
        ("abc", "nginx", "web", "Up 2 hours", "0.0.0.0:80->80/tcp")
    );
}

#[test]
fn stack_actions() {
    assert_eq!(compose_file("/app/stacks/1"), "/app/stacks/1/compose.yaml");
    assert_eq!(compose_args(&StackAction::Start, "/p/compose.yaml"), vec!["compose", "-f", "/p/compose.yaml", "up", "-d"]);
    assert_eq!(compose_args(&StackAction::Stop, "f"), vec!["compose", "-f", "f", "down"]);
    assert_eq!(compose_args(&StackAction::Restart, "f"), vec!["compose", "-f", "f", "restart"]);
    assert_eq!(compose_args(&StackAction::Pull, "f"), vec!["compose", "-f", "f", "pull"]);
    assert_eq!(new_status(&StackAction::Start), Some("running".to_string()));
    assert_eq!(new_status(&StackAction::Stop), Some("stopped".to_string()));
    assert_eq!(new_status(&StackAction::Restart), Some("running".to_string()));
    assert_eq!(new_status(&StackAction::Pull), None);
    let (log, title, body) = action_report_of(&StackAction::Start, "web").unwrap();
    assert_eq!(log, "✅ Stack 'web' started\n");
    assert_eq!(title, "✅ web started");
    assert_eq!(body, "Stack 'web' has been deployed successfully.");
    let (log, title, body) = action_report_of(&StackAction::Stop, "web").unwrap();
    assert_eq!(log, "⏹️  Stack 'web' stopped\n");
    assert_eq!(title, "⏹️ web stopped");
    assert_eq!(body, "Stack 'web' has been stopped.");
    assert!(action_report_of(&StackAction::Pull, "web").is_none());
}

const INSPECT: &str = r#"[{"Config":{"Image":"nginx:alpine","Env":["A=1",5,"PATH=/bin"],"ExposedPorts":{"80/tcp":{}}},"HostConfig":{"PortBindings":{"53/udp":[{"HostIp":"127.0.0.1","HostPort":"53"}],"80/tcp":[{"HostIp":"","HostPort":"8080"}]}},"Mounts":[{"Source":"/srv/www","Destination":"/usr/share/nginx/html","Mode":""},{"Source":"/data","Destination":"/data"},{"Destination":"/anon"}]}]"#;

#[test]
fn compose_from_inspect_output() {
    let y = compose_from_inspect("web", INSPECT).unwrap();
    assert_eq!(
        y,
        "services:\n  web:\n    image: nginx:alpine\n    ports:\n      - \"127.0.0.1:53:53\"\n      - \"8080:80\"\n    volumes:\n      - \"/srv/www:/usr/share/nginx/html:\"\n      - \"/data:/data:rw\"\n    environment:\n      - A=1\n      - PATH=/bin\n    restart: unless-stopped\n"
    );
}

#[test]
fn inspect_facts_fields() {
    let f = inspect_facts(INSPECT);
    assert_eq!(f.image.as_deref(), Some("nginx:alpine"));
    let pb = f.port_bindings.unwrap();
    assert_eq!(pb.len(), 2);
    assert_eq!(pb[0].0, "53/udp");
    let b = pb[0].1.as_ref().unwrap();
    assert_eq!((b[0].host_ip.as_deref(), b[0].host_port.as_deref()), (Some("127.0.0.1"), Some("53")));
    assert_eq!(f.exposed_ports.unwrap(), vec!["80/tcp".to_string()]);
    assert_eq!(f.mounts.as_ref().unwrap().len(), 3);
    assert_eq!(f.mounts.as_ref().unwrap()[2].source, None);
    assert_eq!(f.env.unwrap(), vec![Some("A=1".to_string()), None, Some("PATH=/bin".to_string())]);
}

#[test]
fn inspect_output_that_is_not_an_array() {
    let f = inspect_facts(r#"{"0":{"Config":{"Image":"x"}}}"#);
    assert!(f.image.is_none() && f.port_bindings.is_none() && f.mounts.is_none() && f.env.is_none());
    assert_eq!(
        compose_from_inspect("c", "[]").unwrap(),
        "services:\n  c:\n    image: unknown\n    restart: unless-stopped\n"
    );
    let exposed = r#"[{"Config":{"Image":"redis","ExposedPorts":{"6379/tcp":{}}},"HostConfig":{"PortBindings":null}}]"#;
    assert_eq!(
        compose_from_inspect("r", exposed).unwrap(),
        "services:\n  r:\n    image: redis\n    ports:\n      - \"6379/tcp\"\n    restart: unless-stopped\n"
    );
}

#[test]
fn inspect_output_that_is_not_json() {
    let e = compose_from_inspect("c", "not json").unwrap_err();
    assert!(e.starts_with("Failed to parse inspect: "), "{}", e);
    assert!(e.len() > "Failed to parse inspect: ".len());
}

#[test]
fn compose_validation() {
    assert_eq!(validate_compose_text("services:\n  a:\n    image: nginx\n"), (true, None));
    let (ok, err) = validate_compose_text("services: [a, b\n");
    assert!(!ok);
    assert!(!err.unwrap().is_empty());
}

#[test]
fn config_listing_lines() {
    let out = "{\"ID\":\"abc\",\"Name\":\"cfg\",\"CreatedAt\":\"t1\",\"UpdatedAt\":\"t2\"}\n\nnot json\r\n{\"ID\":\"def\",\"Name\":5}\n";
    let items = config_items(out);
    assert_eq!(items.len(), 2);
    assert_eq!(
        (items[0].id.as_str(), items[0].name.as_str(), items[0].created_at.as_str(), items[0].updated_at.as_str()),
        ("abc", "cfg", "t1", "t2")
    );
    assert_eq!(
        (items[1].id.as_str(), items[1].name.as_str(), items[1].created_at.as_str(), items[1].updated_at.as_str()),
        ("def", "", "", "")
    );
    assert!(config_items("").is_empty());
}
