//! Notifications: which request each kind of notifier sends.
use vstd::prelude::*;

use crate::convert::opt_view;
use crate::text::{chars_of, eq_str, push_str, string_of, trim_end_matches, trim_end_matches_chars};

verus! {

/// A notifier's settings: each key with its value when that is a string.
pub open spec fn settings_view(config: Seq<(String, Option<String>)>) -> Seq<
    (Seq<char>, Option<Seq<char>>),
> {
    config.map_values(|p: (String, Option<String>)| (p.0@, opt_view(p.1)))
}

/// The string value of the first setting named `key`.
pub open spec fn setting(config: Seq<(Seq<char>, Option<Seq<char>>)>, key: Seq<char>) -> Option<
    Seq<char>,
>
    decreases config.len(),
{
    if config.len() == 0 {
        None
    } else if config[0].0 == key {
        config[0].1
    } else {
        setting(config.drop_first(), key)
    }
}

/// Looks a string setting up.
fn setting_of(config: &Vec<(String, Option<String>)>, key: &str) -> (r: Option<String>)
    ensures
        opt_view(r) == setting(settings_view(config@), key@),
{
    let ghost cv = settings_view(config@);
    let mut j: usize = 0;
    proof {
        assert(cv.skip(0) =~= cv);
    }
    while j < config.len()
        invariant
            j <= config@.len(),
            cv == settings_view(config@),
            setting(cv, key@) == setting(cv.skip(j as int), key@),
        decreases config@.len() - j,
    {
        proof {
            assert(cv.skip(j as int)[0] == cv[j as int]);
            assert(cv.skip(j as int).drop_first() =~= cv.skip(j + 1));
        }
        let kc = chars_of(config[j].0.as_str());
        if eq_str(kc.as_slice(), key) {
            return config[j].1.clone();
        }
        j = j + 1;
    }
    proof {
        assert(cv.skip(j as int) =~= Seq::<(Seq<char>, Option<Seq<char>>)>::empty());
    }
    None
}

/// The request that delivers a notification.
pub enum Delivery {
    /// A JSON message `{chat_id, text, parse_mode: "Markdown"}` posted to the
    /// bot API.
    Telegram { url: String, chat_id: String, text: String },
    /// The message posted as plain text, with a `Title` header and, when a
    /// token is set, an `Authorization` header.
    Ntfy { url: String, title: String, message: String, authorization: Option<String> },
    /// A JSON message `{title, message}` posted to the URL.
    Webhook { url: String, title: String, message: String },
}

/// The view of a delivery: its kind (0 Telegram, 1 ntfy, 2 webhook), URL,
/// the two texts it carries and the authorization header.
pub open spec fn delivery_view(d: Delivery) -> (nat, Seq<char>, Seq<char>, Seq<char>, Option<
    Seq<char>,
>) {
    match d {
        Delivery::Telegram { url, chat_id, text } => (0, url@, chat_id@, text@, None),
        Delivery::Ntfy { url, title, message, authorization } => (
            1,
            url@,
            title@,
            message@,
            opt_view(authorization),
        ),
        Delivery::Webhook { url, title, message } => (2, url@, title@, message@, None),
    }
}

/// The request a notifier of the given kind sends, or why it cannot: a
/// Telegram bot needs `bot_token` and `chat_id`, ntfy needs `topic` (its
/// server defaults to `https://ntfy.sh`), a webhook needs `url`.
pub open spec fn delivery_plan(
    kind: Seq<char>,
    config: Seq<(Seq<char>, Option<Seq<char>>)>,
    title: Seq<char>,
    message: Seq<char>,
) -> Result<(nat, Seq<char>, Seq<char>, Seq<char>, Option<Seq<char>>), Seq<char>> {
    if kind == "telegram"@ {
        match setting(config, "bot_token"@) {
            None => Err("Missing bot_token"@),
            Some(token) => match setting(config, "chat_id"@) {
                None => Err("Missing chat_id"@),
                Some(chat) => Ok(
                    (
                        0,
                        "https://api.telegram.org/bot"@ + token + "/sendMessage"@,
                        chat,
                        "*"@ + title + "*\n"@ + message,
                        None,
                    ),
                ),
            },
        }
    } else if kind == "ntfy"@ {
        match setting(config, "topic"@) {
            None => Err("Missing topic"@),
            Some(topic) => {
                let server = match setting(config, "server_url"@) {
                    Some(s) => s,
                    None => "https://ntfy.sh"@,
                };
                Ok(
                    (
                        1,
                        trim_end_matches(server, "/"@) + "/"@ + topic,
                        title,
                        message,
                        match setting(config, "token"@) {
                            Some(t) => Some("Bearer "@ + t),
                            None => None,
                        },
                    ),
                )
            },
        }
    } else if kind == "webhook"@ {
        match setting(config, "url"@) {
            None => Err("Missing url"@),
            Some(url) => Ok((2, url, title, message, None)),
        }
    } else {
        Err("Unknown notifier type: "@ + kind)
    }
}

/// Decides the request that delivers the notification `title`/`message`
/// through a notifier of type `kind` with the given settings.
pub fn plan_delivery(
    kind: &str,
    config: &Vec<(String, Option<String>)>,
    title: &str,
    message: &str,
) -> (r: Result<Delivery, String>)
    ensures
        match delivery_plan(kind@, settings_view(config@), title@, message@) {
            Ok(v) => r matches Ok(d) && delivery_view(d) == v,
            Err(e) => r matches Err(m) && m@ == e,
        },
{
    let kc = chars_of(kind);
    if eq_str(kc.as_slice(), "telegram") {
        let token = match setting_of(config, "bot_token") {
            Some(t) => t,
            None => {
                return Err(string_of(chars_of("Missing bot_token").as_slice()));
            },
        };
        let chat = match setting_of(config, "chat_id") {
            Some(c) => c,
            None => {
                return Err(string_of(chars_of("Missing chat_id").as_slice()));
            },
        };
        let mut url = chars_of("https://api.telegram.org/bot");
        push_str(&mut url, token.as_str());
        push_str(&mut url, "/sendMessage");
        let mut text = chars_of("*");
        push_str(&mut text, title);
        push_str(&mut text, "*\n");
        push_str(&mut text, message);
        Ok(
            Delivery::Telegram {
                url: string_of(url.as_slice()),
                chat_id: chat,
                text: string_of(text.as_slice()),
            },
        )
    } else if eq_str(kc.as_slice(), "ntfy") {
        let topic = match setting_of(config, "topic") {
            Some(t) => t,
            None => {
                return Err(string_of(chars_of("Missing topic").as_slice()));
            },
        };
        let server = match setting_of(config, "server_url") {
            Some(s) => s,
            None => string_of(chars_of("https://ntfy.sh").as_slice()),
        };
        let slash = chars_of("/");
        let mut url = trim_end_matches_chars(chars_of(server.as_str()).as_slice(), slash.as_slice());
        push_str(&mut url, "/");
        push_str(&mut url, topic.as_str());
        let authorization = match setting_of(config, "token") {
            Some(t) => {
                let mut a = chars_of("Bearer ");
                push_str(&mut a, t.as_str());
                Some(string_of(a.as_slice()))
            },
            None => None,
        };
        Ok(
            Delivery::Ntfy {
                url: string_of(url.as_slice()),
                title: string_of(chars_of(title).as_slice()),
                message: string_of(chars_of(message).as_slice()),
                authorization,
            },
        )
    } else if eq_str(kc.as_slice(), "webhook") {
        let url = match setting_of(config, "url") {
            Some(u) => u,
            None => {
                return Err(string_of(chars_of("Missing url").as_slice()));
            },
        };
        Ok(
            Delivery::Webhook {
                url,
                title: string_of(chars_of(title).as_slice()),
                message: string_of(chars_of(message).as_slice()),
            },
        )
    } else {
        let mut e = chars_of("Unknown notifier type: ");
        push_str(&mut e, kind);
        Err(string_of(e.as_slice()))
    }
}

/// The name a delivery's errors carry.
pub open spec fn channel_name(d: Delivery) -> Seq<char> {
    match d {
        Delivery::Telegram { .. } => "Telegram"@,
        Delivery::Ntfy { .. } => "ntfy"@,
        Delivery::Webhook { .. } => "Webhook"@,
    }
}

/// The outcome of a delivery: a transport failure is an HTTP error, a
/// non-2xx answer an API error quoting the answer's text.
pub open spec fn delivery_outcome(
    d: Delivery,
    status: Option<u16>,
    detail: Seq<char>,
) -> Result<(), Seq<char>> {
    match status {
        None => Err(channel_name(d) + " HTTP error: "@ + detail),
        Some(s) => if 200 <= s <= 299 {
            Ok(())
        } else {
            Err(channel_name(d) + " API error: "@ + detail)
        },
    }
}

/// Judges a delivery: `status` is the HTTP status of the answer, or
/// `None` when the request failed, and `detail` the failure or the
/// answer's text.
pub fn delivery_result(d: &Delivery, status: Option<u16>, detail: &str) -> (r: Result<(), String>)
    ensures
        match delivery_outcome(*d, status, detail@) {
            Ok(_) => r is Ok,
            Err(e) => r matches Err(m) && m@ == e,
        },
{
    let mut out = match d {
        Delivery::Telegram { .. } => chars_of("Telegram"),
        Delivery::Ntfy { .. } => chars_of("ntfy"),
        Delivery::Webhook { .. } => chars_of("Webhook"),
    };
    match status {
        None => {
            push_str(&mut out, " HTTP error: ");
            push_str(&mut out, detail);
            Err(string_of(out.as_slice()))
        },
        Some(s) => {
            if 200 <= s && s <= 299 {
                Ok(())
            } else {
                push_str(&mut out, " API error: ");
                push_str(&mut out, detail);
                Err(string_of(out.as_slice()))
            }
        },
    }
}

/// A new notifier needs a name and a type, neither of them blank.
pub fn check_new_notifier(name: &str, kind: &str) -> (r: Result<(), String>)
    ensures
        match r {
            Ok(_) => crate::text::trim(name@).len() > 0 && crate::text::trim(kind@).len() > 0,
            Err(m) => m@ == "Name and type are required"@ && (crate::text::trim(name@).len() == 0
                || crate::text::trim(kind@).len() == 0),
        },
{
    let n = crate::text::trim_chars(chars_of(name).as_slice());
    let k = crate::text::trim_chars(chars_of(kind).as_slice());
    if n.len() == 0 || k.len() == 0 {
        Err(string_of(chars_of("Name and type are required").as_slice()))
    } else {
        Ok(())
    }
}

/// Trimming a non-empty pattern from the end leaves a text that does not
/// end with it.
pub proof fn lemma_trimmed_end(s: Seq<char>, p: Seq<char>)
    requires
        p.len() > 0,
    ensures
        !p.is_suffix_of(trim_end_matches(s, p)),
    decreases s.len(),
{
    if p.is_suffix_of(s) {
        lemma_trimmed_end(s.take(s.len() - p.len()), p);
    }
}

/// An ntfy message goes to the topic right under the server: whatever
/// slashes end the server URL, exactly one separates it from the topic.
pub proof fn law_ntfy_single_slash(
    config: Seq<(Seq<char>, Option<Seq<char>>)>,
    title: Seq<char>,
    message: Seq<char>,
)
    requires
        setting(config, "topic"@) is Some,
    ensures
        delivery_plan("ntfy"@, config, title, message) matches Ok(v) && exists|server: Seq<char>|
            !"/"@.is_suffix_of(server) && #[trigger] (server + "/"@ + setting(
                config,
                "topic"@,
            )->0) == v.1,
{
    reveal_strlit("ntfy");
    reveal_strlit("telegram");
    reveal_strlit("/");
    let server = match setting(config, "server_url"@) {
        Some(x) => x,
        None => "https://ntfy.sh"@,
    };
    let trimmed = trim_end_matches(server, "/"@);
    lemma_trimmed_end(server, "/"@);
    assert("ntfy"@ != "telegram"@) by {
        assert("ntfy"@.len() != "telegram"@.len());
    }
    assert(!"/"@.is_suffix_of(trimmed) && (trimmed + "/"@ + setting(config, "topic"@)->0)
        == delivery_plan("ntfy"@, config, title, message)->Ok_0.1);
}

/// How a delivery is judged, for every channel, status and answer text:
/// every 2xx status (200 to 299) means the notification was delivered; any
/// other status is an API error that names the channel (`Telegram`, `ntfy`
/// or `Webhook`) and quotes the answer; no status at all is an HTTP error.
pub proof fn law_delivery_judged_by_status_class(d: Delivery, status: u16, detail: Seq<char>)
    ensures
        200 <= status && status <= 299 ==> delivery_outcome(d, Some(status), detail) is Ok,
        !(200 <= status && status <= 299) ==> delivery_outcome(d, Some(status), detail) == Err::<
            (),
            Seq<char>,
        >(channel_name(d) + " API error: "@ + detail),
        delivery_outcome(d, None, detail) == Err::<(), Seq<char>>(
            channel_name(d) + " HTTP error: "@ + detail,
        ),
        d is Telegram ==> channel_name(d) == "Telegram"@,
        d is Ntfy ==> channel_name(d) == "ntfy"@,
        d is Webhook ==> channel_name(d) == "Webhook"@,
{
}

} // verus!
