use dockpot::label_templates::{fill_label_template, is_yaml_file, render_labels, resolve_category, substitute_placeholders, LabelTemplate, RenderLabelRequest};
use dockpot::templates::{fill_template, find_template, render_template, RenderRequest, Template, TemplateVariable};

fn pairs(ps: &[(&str, &str)]) -> Vec<(String, String)> {
    ps.iter().map(|(k, v)| (k.to_string(), v.to_string())).collect()
}

fn value<'a>(m: &'a [(String, String)], k: &str) -> &'a str {
    m.iter().find(|(kk, _)| kk == k).map(|(_, v)| v.as_str()).unwrap()
}

#[test]
fn test_fill_template_replaces_stack_name() {
    let compose = "container_name: ${STACK_NAME}-app\n";
    let result = fill_template(compose, "myapp", &pairs(&[]));
    assert_eq!(result, "container_name: myapp-app\n");
}

#[test]
fn test_fill_template_replaces_variables() {
    let compose = "image: nginx:${NGINX_TAG}\nport: ${PORT}";
    let result = fill_template(compose, "test", &pairs(&[("NGINX_TAG", "alpine"), ("PORT", "8080")]));
    assert_eq!(result, "image: nginx:alpine\nport: 8080");
}

#[test]
fn test_fill_template_keeps_unset_vars() {
    let compose = "image: ${UNSET_VAR}";
    let result = fill_template(compose, "test", &pairs(&[]));
    assert_eq!(result, compose);
}

#[test]
fn test_fill_template_multiple_vars() {
    let compose = "image: ${IMAGE}:${TAG}\nport: ${PORT}";
    let result = fill_template(
        compose,
        "web",
        &pairs(&[("IMAGE", "nginx"), ("TAG", "latest"), ("PORT", "80")]),
    );
    assert_eq!(result, "image: nginx:latest\nport: 80");
}

#[test]
fn test_fill_label_template_replaces_service_name() {
    let labels = pairs(&[(
        "traefik.http.routers.${SERVICE_NAME}.rule",
        "Host(`${SERVICE_NAME}.example.com`)",
    )]);
    let result = fill_label_template(&labels, "myapp", &pairs(&[]));
    assert_eq!(result.len(), 1);
    assert_eq!(result[0].0, "traefik.http.routers.myapp.rule");
    assert_eq!(result[0].1, "Host(`myapp.example.com`)");
}

#[test]
fn test_fill_label_template_replaces_vars() {
    let labels = pairs(&[("traefik.http.routers.${SERVICE_NAME}.rule", "Host(`${DOMAIN}`)")]);
    let result = fill_label_template(&labels, "api", &pairs(&[("DOMAIN", "app.example.com")]));
    assert_eq!(result.len(), 1);
    assert_eq!(result[0].1, "Host(`app.example.com`)");
}

#[test]
fn test_fill_label_template_replaces_vars_in_key() {
    let labels = pairs(&[("traefik.http.routers.${SERVICE_NAME}.middlewares", "${MIDDLEWARE_NAME}@file")]);
    let result = fill_label_template(&labels, "web", &pairs(&[("MIDDLEWARE_NAME", "auth")]));
    let expected_key = "traefik.http.routers.web.middlewares";
    assert!(result.iter().any(|(k, _)| k == expected_key));
    assert_eq!(value(&result, expected_key), "auth@file");
}

#[test]
fn test_fill_label_template_keeps_unset_vars() {
    let labels = pairs(&[("label.${SERVICE_NAME}.path", "/${UNSET_VAR}/path")]);
    let result = fill_label_template(&labels, "svc", &pairs(&[]));
    assert_eq!(result.len(), 1);
    assert_eq!(result[0].0, "label.svc.path");
    assert_eq!(result[0].1, "/${UNSET_VAR}/path");
}

#[test]
fn test_fill_label_template_multiple_vars() {
    let labels = pairs(&[(
        "traefik.http.routers.${SERVICE_NAME}.rule",
        "Host(`${DOMAIN}`) && PathPrefix(`/${PREFIX}`)",
    )]);
    let result = fill_label_template(&labels, "gateway", &pairs(&[("DOMAIN", "example.com"), ("PREFIX", "api")]));
    assert_eq!(value(&result, "traefik.http.routers.gateway.rule"), "Host(`example.com`) && PathPrefix(`/api`)");
}

#[test]
fn filled_labels_keep_keys_unique() {
    let labels = pairs(&[("a.${SERVICE_NAME}", "1"), ("a.${X}", "2"), ("b", "3")]);
    let result = fill_label_template(&labels, "s", &pairs(&[("X", "s")]));
    assert_eq!(result, pairs(&[("a.s", "2"), ("b", "3")]));
}

#[test]
fn template_without_placeholders_is_unchanged() {
    let compose = "services:\n  web:\n    image: nginx\n";
    assert_eq!(fill_template(compose, "x", &pairs(&[("A", "b")])), compose);
}

#[test]
fn substitution_order_follows_the_variables() {
    assert_eq!(substitute_placeholders("${A}", "s", &pairs(&[("A", "${B}"), ("B", "z")])), "z");
    assert_eq!(substitute_placeholders("${SERVICE_NAME}", "${A}", &pairs(&[("A", "q")])), "q");
}

fn template(name: &str, compose: &str) -> Template {
    Template {
        name: name.into(),
        description: String::new(),
        category: "web".into(),
        compose: compose.into(),
        variables: vec![TemplateVariable {
            name: "PORT".into(),
            description: String::new(),
            default: "80".into(),
            required: false,
        }],
    }
}

#[test]
fn rendering_templates() {
    let ts = vec![template("nginx", "name: ${STACK_NAME}:${PORT}"), template("nginx", "second")];
    assert_eq!(find_template(&ts, "nginx"), Some(0));
    assert_eq!(find_template(&ts, "redis"), None);
    let req = RenderRequest {
        template: "nginx".into(),
        stack_name: "site".into(),
        variables: Some(pairs(&[("PORT", "8080")])),
    };
    assert_eq!(render_template(&ts, &req), Ok("name: site:8080".to_string()));
    let req = RenderRequest { template: "nginx".into(), stack_name: "site".into(), variables: None };
    assert_eq!(render_template(&ts, &req), Ok("name: site:${PORT}".to_string()));
    let req = RenderRequest { template: "redis".into(), stack_name: "s".into(), variables: None };
    assert_eq!(render_template(&ts, &req), Err("Template 'redis' not found".to_string()));
}

#[test]
fn rendering_label_templates() {
    let ts = vec![LabelTemplate {
        name: "traefik".into(),
        description: String::new(),
        category: "traefik".into(),
        labels: pairs(&[("traefik.http.routers.${SERVICE_NAME}.rule", "Host(`${DOMAIN}`)")]),
        variables: vec![],
    }];
    let req = RenderLabelRequest {
        template: "traefik".into(),
        service_name: "web".into(),
        variables: Some(pairs(&[("DOMAIN", "w.example.com")])),
    };
    assert_eq!(
        render_labels(&ts, &req),
        Ok(pairs(&[("traefik.http.routers.web.rule", "Host(`w.example.com`)")]))
    );
    let req = RenderLabelRequest { template: "caddy".into(), service_name: "w".into(), variables: None };
    assert_eq!(render_labels(&ts, &req), Err("Label template 'caddy' not found".to_string()));
}

#[test]
fn categories_and_files() {
    assert_eq!(resolve_category("db".into(), Some("other".into())), "db");
    assert_eq!(resolve_category(String::new(), Some("caddy".into())), "caddy");
    assert_eq!(resolve_category(String::new(), None), "");
    assert!(is_yaml_file("/t/labels/traefik.yaml"));
    assert!(is_yaml_file("a.yml"));
    assert!(!is_yaml_file("a.json"));
    assert!(!is_yaml_file(".yaml"));
    assert!(is_yaml_file("..yaml"));
    assert!(is_yaml_file("a.b.yaml"));
    assert!(!is_yaml_file("c.YAML"));
    assert!(!is_yaml_file("yaml"));
    assert!(!is_yaml_file("a.yaml.bak"));
}
