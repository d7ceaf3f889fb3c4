use dockpot::convert::{compose_from_words, docker_run_to_compose, parse_memory_mb, ComposeService};

fn words(ws: &[&str]) -> Vec<String> {
    ws.iter().map(|w| w.to_string()).collect()
}

#[test]
fn test_basic_run() {
    let result =
        docker_run_to_compose("docker run -d --name myapp -p 8080:80 nginx:alpine", "myapp").unwrap();
    assert!(result.contains("image: nginx:alpine"));
    assert!(result.contains("container_name: myapp"));
    assert!(result.contains("ports:"));
    assert!(result.contains("- 8080:80"));
}

#[test]
fn test_with_volumes_env() {
    let result = docker_run_to_compose(
        "docker run -d -v /data:/data -e DB_HOST=localhost -e DB_PORT=5432 postgres:15",
        "db",
    )
    .unwrap();
    assert!(result.contains("image: postgres:15"));
    assert!(result.contains("- /data:/data"));
    assert!(result.contains("DB_HOST: localhost"));
    assert!(result.contains("DB_PORT: 5432"));
}

#[test]
fn test_with_restart_network() {
    let result = docker_run_to_compose(
        "docker run -d --name api --restart unless-stopped --network mynet --cpus 2 -m 512m myapp:latest",
        "api",
    )
    .unwrap();
    assert!(result.contains("restart: unless-stopped"));
    assert!(result.contains("networks:"));
    assert!(result.contains("cpus: 2"));
    assert!(result.contains("mem_limit: 512m"));
}

#[test]
fn test_invalid_no_image() {
    let result = docker_run_to_compose("docker run -d", "test");
    assert!(result.is_err());
}

#[test]
fn test_memory_parsing() {
    assert_eq!(parse_memory_mb("1g").unwrap(), 1024);
    assert_eq!(parse_memory_mb("512m").unwrap(), 512);
    assert_eq!(parse_memory_mb("128974848").unwrap(), 123);
}

#[test]
fn memory_units_and_errors() {
    assert_eq!(parse_memory_mb("1.5g").unwrap(), 1536);
    assert_eq!(parse_memory_mb(" 2GB ").unwrap(), 2048);
    assert_eq!(parse_memory_mb("2048k").unwrap(), 2);
    assert_eq!(parse_memory_mb("10k").unwrap(), 1);
    assert_eq!(parse_memory_mb("10").unwrap(), 1);
    assert_eq!(parse_memory_mb("abc"), Err("Invalid memory value: abc".to_string()));
    assert_eq!(parse_memory_mb("1.2.3m"), Err("Invalid memory value: 1.2.3m".to_string()));
}

#[test]
fn exact_document_for_a_small_command() {
    let y = docker_run_to_compose("docker run --name web -p 80:80 -e A=1 nginx echo hi", "web").unwrap();
    assert_eq!(
        y,
        "services:\n  web:\n    image: nginx\n    container_name: web\n    ports:\n      - 80:80\n    environment:\n      A: 1\n    command:\n      - echo\n      - hi\n"
    );
}

#[test]
fn short_flag_cluster_is_not_the_image() {
    let y = docker_run_to_compose("docker run -it ubuntu bash", "u").unwrap();
    assert_eq!(
        y,
        "services:\n  u:\n    image: ubuntu\n    command:\n      - bash\n"
    );
    let y = docker_run_to_compose("docker run --rm -it alpine:3 sh -c ls", "a").unwrap();
    assert!(y.contains("    image: alpine:3\n"), "{}", y);
    assert!(y.contains("    command:\n      - sh\n      - -c\n      - ls\n"), "{}", y);
}

#[test]
fn conversion_errors() {
    assert_eq!(docker_run_to_compose("", "x"), Err("Empty command".to_string()));
    assert_eq!(
        docker_run_to_compose("docker ps", "x"),
        Err("Not a docker run command (missing 'run')".to_string())
    );
    assert_eq!(docker_run_to_compose("docker run", "x"), Err("No arguments after 'run'".to_string()));
    assert_eq!(
        docker_run_to_compose("docker run \"unterminated", "x"),
        Err("Failed to parse command line".to_string())
    );
    assert!(compose_from_words(&words(&["docker", "run", "--name"]), "x").is_err());
}

#[test]
fn empty_service_document() {
    let s = ComposeService::new("app");
    assert_eq!(s.to_yaml(), "services:\n  app:\n    image: \n");
}
