use dockpot::notifier::{check_new_notifier, delivery_result, plan_delivery, Delivery};

fn settings(ps: &[(&str, Option<&str>)]) -> Vec<(String, Option<String>)> {
    ps.iter().map(|(k, v)| (k.to_string(), v.map(|s| s.to_string()))).collect()
}

#[test]
fn telegram_delivery() {
    let d = plan_delivery("telegram", &settings(&[("bot_token", Some("T")), ("chat_id", Some("42"))]), "Hi", "there").unwrap();
    match d {
        Delivery::Telegram { url, chat_id, text } => {
            assert_eq!(url, "https://api.telegram.org/botT/sendMessage");
            assert_eq!(chat_id, "42");
            assert_eq!(text, "*Hi*\nthere");
        }
        _ => panic!("expected telegram"),
    }
    assert_eq!(
        plan_delivery("telegram", &settings(&[("chat_id", Some("42"))]), "a", "b").err(),
        Some("Missing bot_token".to_string())
    );
    assert_eq!(
        plan_delivery("telegram", &settings(&[("bot_token", Some("T")), ("chat_id", None)]), "a", "b").err(),
        Some("Missing chat_id".to_string())
    );
}

#[test]
fn ntfy_delivery() {
    let d = plan_delivery("ntfy", &settings(&[("topic", Some("alerts"))]), "T", "M").unwrap();
    match d {
        Delivery::Ntfy { url, title, message, authorization } => {
            assert_eq!(url, "https://ntfy.sh/alerts");
            assert_eq!((title.as_str(), message.as_str()), ("T", "M"));
            assert_eq!(authorization, None);
        }
        _ => panic!("expected ntfy"),
    }
    let d = plan_delivery(
        "ntfy",
        &settings(&[("topic", Some("t")), ("server_url", Some("https://n.example.com//")), ("token", Some("tk"))]),
        "T",
        "M",
    )
    .unwrap();
    match d {
        Delivery::Ntfy { url, authorization, .. } => {
            assert_eq!(url, "https://n.example.com/t");
            assert_eq!(authorization, Some("Bearer tk".to_string()));
        }
        _ => panic!("expected ntfy"),
    }
    assert_eq!(plan_delivery("ntfy", &settings(&[]), "a", "b").err(), Some("Missing topic".to_string()));
}

#[test]
fn webhook_and_unknown() {
    match plan_delivery("webhook", &settings(&[("url", Some("https://h/x"))]), "T", "M").unwrap() {
        Delivery::Webhook { url, title, message } => {
            assert_eq!((url.as_str(), title.as_str(), message.as_str()), ("https://h/x", "T", "M"))
        }
        _ => panic!("expected webhook"),
    }
    assert_eq!(plan_delivery("webhook", &settings(&[]), "a", "b").err(), Some("Missing url".to_string()));
    assert_eq!(plan_delivery("email", &settings(&[]), "a", "b").err(), Some("Unknown notifier type: email".to_string()));
}

#[test]
fn delivery_outcomes() {
    let d = plan_delivery("webhook", &settings(&[("url", Some("u"))]), "T", "M").unwrap();
    assert_eq!(delivery_result(&d, Some(200), ""), Ok(()));
    assert_eq!(delivery_result(&d, Some(404), "nope"), Err("Webhook API error: nope".to_string()));
    assert_eq!(delivery_result(&d, None, "refused"), Err("Webhook HTTP error: refused".to_string()));
    let t = plan_delivery("telegram", &settings(&[("bot_token", Some("a")), ("chat_id", Some("b"))]), "", "").unwrap();
    assert_eq!(delivery_result(&t, Some(500), "x"), Err("Telegram API error: x".to_string()));
    let n = plan_delivery("ntfy", &settings(&[("topic", Some("a"))]), "", "").unwrap();
    assert_eq!(delivery_result(&n, None, "x"), Err("ntfy HTTP error: x".to_string()));
}

#[test]
fn new_notifier_needs_name_and_type() {
    assert_eq!(check_new_notifier("ops", "ntfy"), Ok(()));
    assert_eq!(check_new_notifier(" ", "ntfy"), Err("Name and type are required".to_string()));
    assert_eq!(check_new_notifier("ops", ""), Err("Name and type are required".to_string()));
}
