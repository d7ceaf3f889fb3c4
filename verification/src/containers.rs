//! What the dashboard shows of a container: names, images, ports, links.
use vstd::prelude::*;

use crate::convert::{opt_view, owned, pairs_view, strings_view};
use crate::text::{
    chars_eq, chars_of, decimal, decimal_chars, eq_str, ends_with_str, first_pos,
    push_chars, push_str, rsplit_once, rsplit_once_char,
    slice_chars, split_once, split_once_char, starts_with, starts_with_str, string_of,
    trim_start_matches, trim_start_matches_chars,
};

verus! {

/// The label that names a container's compose project.
pub open spec fn compose_project_label() -> Seq<char> {
    "com.docker.compose.project"@
}

/// Details of one container, as the inspect endpoint returns them.
pub struct ContainerInspectResponse {
    pub id: String,
    pub name: String,
    pub image: String,
    pub created: String,
    pub state: String,
    pub status: String,
    pub ports: Vec<PortInfo>,
    pub mounts: Vec<MountInfo>,
    pub env: Vec<String>,
    pub networks: Vec<ContainerNetworkInfo>,
    pub labels: Vec<(String, String)>,
    pub restart_policy: String,
    pub health: Option<String>,
}

/// A published or exposed port.
pub struct PortInfo {
    pub private_port: u16,
    pub public_port: Option<u16>,
    pub port_type: String,
}

/// A mount of a container.
pub struct MountInfo {
    pub source: String,
    pub destination: String,
    pub mode: String,
    pub rw: bool,
}

/// A network a container is attached to.
pub struct ContainerNetworkInfo {
    pub name: String,
    pub ip_address: String,
    pub gateway: String,
}

// ───── Names and images ─────

/// A container name without the leading slashes Docker reports.
pub open spec fn stripped_name(n: Seq<char>) -> Seq<char> {
    trim_start_matches(n, "/"@)
}

/// Strips the leading slashes of a container name.
pub fn strip_name(n: &str) -> (r: String)
    ensures
        r@ == stripped_name(n@),
{
    let c = chars_of(n);
    let s = chars_of("/");
    let t = trim_start_matches_chars(c.as_slice(), s.as_slice());
    string_of(t.as_slice())
}

/// Image name and tag of an image reference: a digest reference has an
/// empty tag, a reference without `:` has tag `latest`, and otherwise the
/// tag is what follows the last `:`.
pub open spec fn image_tag(raw: Seq<char>) -> (Seq<char>, Seq<char>) {
    match split_once(raw, '@') {
        Some((name, _)) => (name, Seq::empty()),
        None => match rsplit_once(raw, ':') {
            Some((name, tag)) => (name, tag),
            None => (raw, "latest"@),
        },
    }
}

/// Splits an image reference into name and tag.
pub fn parse_image_tag(raw: &str) -> (r: (String, String))
    ensures
        (r.0@, r.1@) == image_tag(raw@),
{
    let c = chars_of(raw);
    match split_once_char(c.as_slice(), '@') {
        Some((name, _)) => (string_of(name.as_slice()), String::new()),
        None => match rsplit_once_char(c.as_slice(), ':') {
            Some((name, tag)) => (string_of(name.as_slice()), string_of(tag.as_slice())),
            None => (owned(raw), owned("latest")),
        },
    }
}

/// The registry page of an image reference.
pub open spec fn registry_url(image: Seq<char>) -> Seq<char> {
    if image.contains('/') {
        let first = split_once(image, '/').unwrap().0;
        if "docker.io/"@.is_prefix_of(image) || !image.contains('.') {
            if first.contains('.') {
                "https://"@ + first
            } else {
                let repo = trim_start_matches(image, "docker.io/"@);
                if repo.contains('/') {
                    "https://hub.docker.com/r/"@ + repo
                } else {
                    "https://hub.docker.com/_/"@ + repo + "/tags"@
                }
            }
        } else if image.contains('.') {
            "https://"@ + first
        } else {
            "https://hub.docker.com/r/"@ + image + "/tags"@
        }
    } else if "sha256:"@.is_prefix_of(image) {
        "https://hub.docker.com"@
    } else {
        "https://hub.docker.com/_/"@ + image + "/tags"@
    }
}

/// Concatenates string slices and character runs into a `String`.
fn join3(a: &str, b: &[char], c: &str) -> (r: String)
    ensures
        r@ == a@ + b@ + c@,
{
    let mut v = chars_of(a);
    push_chars(&mut v, b);
    push_str(&mut v, c);
    string_of(v.as_slice())
}

/// Concatenates a string slice and a character run into a `String`.
fn join2(a: &str, b: &[char]) -> (r: String)
    ensures
        r@ == a@ + b@,
{
    let mut v = chars_of(a);
    push_chars(&mut v, b);
    string_of(v.as_slice())
}

/// Builds the registry page URL of an image reference.
pub fn build_registry_url(image: &str) -> (r: String)
    ensures
        r@ == registry_url(image@),
{
    let c = chars_of(image);
    match split_once_char(c.as_slice(), '/') {
        Some((first, _)) => {
            proof {
                assert(image@.contains('/'));
                assert(split_once(image@, '/').unwrap().0 == first@);
            }
            let has_dot = crate::text::contains_char(c.as_slice(), '.');
            assert(has_dot == image@.contains('.'));
            if starts_with_str(c.as_slice(), "docker.io/") || !has_dot {
                if crate::text::contains_char(first.as_slice(), '.') {
                    join2("https://", first.as_slice())
                } else {
                    let prefix = chars_of("docker.io/");
                    let repo = trim_start_matches_chars(c.as_slice(), prefix.as_slice());
                    if crate::text::contains_char(repo.as_slice(), '/') {
                        join2("https://hub.docker.com/r/", repo.as_slice())
                    } else {
                        join3("https://hub.docker.com/_/", repo.as_slice(), "/tags")
                    }
                }
            } else if has_dot {
                join2("https://", first.as_slice())
            } else {
                join3("https://hub.docker.com/r/", c.as_slice(), "/tags")
            }
        },
        None => {
            if starts_with_str(c.as_slice(), "sha256:") {
                owned("https://hub.docker.com")
            } else {
                join3("https://hub.docker.com/_/", c.as_slice(), "/tags")
            }
        },
    }
}

/// The first twelve characters of an id.
pub open spec fn short_id(id: Seq<char>) -> Seq<char> {
    if id.len() <= 12 {
        id
    } else {
        id.take(12)
    }
}

/// Truncates a container id to its first twelve characters.
pub fn truncate_id(id: &str) -> (r: String)
    ensures
        r@ == short_id(id@),
{
    let c = chars_of(id);
    let n = if c.len() <= 12 {
        c.len()
    } else {
        12
    };
    let t = slice_chars(c.as_slice(), 0, n);
    string_of(t.as_slice())
}

// ───── Traefik links ─────

/// A router rule label: its key ends with `.rule` and its value starts
/// with `Host(`.
pub open spec fn is_host_rule(k: Seq<char>, v: Seq<char>) -> bool {
    ".rule"@.is_suffix_of(k) && "Host("@.is_prefix_of(v)
}

/// The host of a `Host(\`name\`)` rule: what follows the leading
/// ``Host(` ``s up to the next backquote.
pub open spec fn rule_host(v: Seq<char>) -> Seq<char> {
    let t = trim_start_matches(v, "Host(`"@);
    match split_once(t, '`') {
        Some((h, _)) => h,
        None => t,
    }
}

/// Some label whose key starts with `router` has the value `true`.
pub open spec fn router_has_tls(labels: Seq<(Seq<char>, Seq<char>)>, router: Seq<char>) -> bool {
    exists|i: int|
        0 <= i < labels.len() && router.is_prefix_of(#[trigger] labels[i].0) && labels[i].1
            == "true"@
}

/// The link of the first host rule among `labels`, with `https` when any
/// label of the same router prefix is `true`.
pub open spec fn traefik_link(
    labels: Seq<(Seq<char>, Seq<char>)>,
    all: Seq<(Seq<char>, Seq<char>)>,
) -> Option<Seq<char>>
    decreases labels.len(),
{
    if labels.len() == 0 {
        None
    } else if is_host_rule(labels[0].0, labels[0].1) {
        let k = labels[0].0;
        let router = k.take(k.len() - 5);
        let proto = if router_has_tls(all, router) {
            "https"@
        } else {
            "http"@
        };
        Some(proto + "://"@ + rule_host(labels[0].1))
    } else {
        traefik_link(labels.drop_first(), all)
    }
}

/// Does any label under `router` have the value `true`.
fn router_tls(labels: &Vec<(String, String)>, router: &[char]) -> (r: bool)
    ensures
        r == router_has_tls(pairs_view(labels@), router@),
{
    let ghost lv = pairs_view(labels@);
    let mut j: usize = 0;
    while j < labels.len()
        invariant
            j <= labels@.len(),
            lv == pairs_view(labels@),
            forall|i: int|
                0 <= i < j ==> !(router@.is_prefix_of(#[trigger] lv[i].0) && lv[i].1 == "true"@),
        decreases labels@.len() - j,
    {
        let k = chars_of(labels[j].0.as_str());
        let v = chars_of(labels[j].1.as_str());
        proof {
            assert(lv[j as int] == (labels@[j as int].0@, labels@[j as int].1@));
        }
        if starts_with(k.as_slice(), router) && eq_str(v.as_slice(), "true") {
            proof {
                assert(router@.is_prefix_of(lv[j as int].0) && lv[j as int].1 == "true"@);
            }
            return true;
        }
        j = j + 1;
    }
    false
}

/// The Traefik link of a container's labels, if a router rule names a host.
pub fn traefik_url(labels: &Vec<(String, String)>) -> (r: Option<String>)
    ensures
        opt_view(r) == traefik_link(pairs_view(labels@), pairs_view(labels@)),
{
    let ghost lv = pairs_view(labels@);
    let mut j: usize = 0;
    assert(lv.skip(0) =~= lv);
    while j < labels.len()
        invariant
            j <= labels@.len(),
            lv == pairs_view(labels@),
            traefik_link(lv, lv) == traefik_link(lv.skip(j as int), lv),
        decreases labels@.len() - j,
    {
        let k = chars_of(labels[j].0.as_str());
        let v = chars_of(labels[j].1.as_str());
        proof {
            assert(lv[j as int] == (labels@[j as int].0@, labels@[j as int].1@));
            assert(lv.skip(j as int)[0] == lv[j as int]);
            assert(lv.skip(j as int).drop_first() =~= lv.skip(j + 1));
        }
        if ends_with_str(k.as_slice(), ".rule") && starts_with_str(v.as_slice(), "Host(") {
            proof {
                reveal_strlit(".rule");
            }
            let router = slice_chars(k.as_slice(), 0, k.len() - 5);
            let tls = router_tls(labels, router.as_slice());
            let hp = chars_of("Host(`");
            let t = trim_start_matches_chars(v.as_slice(), hp.as_slice());
            let host = match split_once_char(t.as_slice(), '`') {
                Some((h, _)) => h,
                None => t,
            };
            let mut u = if tls {
                chars_of("https")
            } else {
                chars_of("http")
            };
            push_str(&mut u, "://");
            push_chars(&mut u, host.as_slice());
            return Some(string_of(u.as_slice()));
        }
        j = j + 1;
    }
    None
}

// ───── Ports ─────

/// The string without one leading `+`.
pub open spec fn sign_stripped(s: Seq<char>) -> Seq<char> {
    if s.len() > 0 && s[0] == '+' {
        s.drop_first()
    } else {
        s
    }
}

/// Every character is an ASCII digit.
pub open spec fn all_digits(ds: Seq<char>) -> bool {
    forall|i: int| 0 <= i < ds.len() ==> '0' <= #[trigger] ds[i] <= '9'
}

/// `u16::from_str`: an optional `+`, then one or more ASCII digits whose
/// value is below 65536.
pub open spec fn parse_u16_spec(s: Seq<char>) -> Option<u16> {
    let ds = sign_stripped(s);
    if ds.len() > 0 && all_digits(ds) && crate::convert::digits_value(ds) < 65536 {
        Some(crate::convert::digits_value(ds) as u16)
    } else {
        None
    }
}

/// Parses a port number the way `str::parse::<u16>` does.
pub fn parse_u16(s: &[char]) -> (r: Option<u16>)
    ensures
        r == parse_u16_spec(s@),
{
    let start: usize = if s.len() > 0 && s[0] == '+' {
        1
    } else {
        0
    };
    let ghost ds = s@.skip(start as int);
    assert(ds == sign_stripped(s@));
    if start == s.len() {
        return None;
    }
    let mut v: u32 = 0;
    let mut j: usize = start;
    assert(ds.take(0) =~= Seq::<char>::empty());
    while j < s.len()
        invariant
            start <= j <= s@.len(),
            ds == s@.skip(start as int),
            ds == sign_stripped(s@),
            forall|i: int| 0 <= i < j - start ==> '0' <= #[trigger] ds[i] <= '9',
            v as nat == crate::convert::digits_value(ds.take(j - start)),
            v < 65536,
        decreases s@.len() - j,
    {
        let c = s[j];
        if !('0' <= c && c <= '9') {
            proof {
                assert(ds[j - start] == c);
                assert(!all_digits(ds));
            }
            return None;
        }
        proof {
            assert(ds.take(j + 1 - start).drop_last() =~= ds.take(j - start));
            assert(ds.take(j + 1 - start).last() == c);
            assert(ds[j - start] == c);
        }
        let w = v * 10 + (c as u32 - '0' as u32);
        if w >= 65536 {
            proof {
                if all_digits(ds) {
                    lemma_digits_prefix_bound(ds, (j + 1 - start) as int);
                }
            }
            return None;
        }
        v = w;
        j = j + 1;
    }
    assert(ds.take(j - start) =~= ds);
    Some(v as u16)
}

/// The value of a digit string is at least the value of any prefix.
pub proof fn lemma_digits_prefix_bound(ds: Seq<char>, k: int)
    requires
        0 <= k <= ds.len(),
        forall|i: int| 0 <= i < ds.len() ==> '0' <= #[trigger] ds[i] <= '9',
    ensures
        crate::convert::digits_value(ds) >= crate::convert::digits_value(ds.take(k)),
    decreases ds.len(),
{
    if k < ds.len() {
        assert(ds.drop_last().take(k) =~= ds.take(k));
        lemma_digits_prefix_bound(ds.drop_last(), k);
        assert(forall|i: int| 0 <= i < ds.drop_last().len() ==> ds.drop_last()[i] == ds[i]);
    } else {
        assert(ds.take(k) =~= ds);
    }
}

/// The `"ip:public:private"` text of a port binding; unpublished ports
/// have none, and a missing address is `0.0.0.0`.
pub open spec fn port_text(ip: Option<Seq<char>>, public: Option<u16>, private: u16) -> Option<
    Seq<char>,
> {
    match public {
        Some(p) => Some(
            match ip {
                Some(a) => a,
                None => "0.0.0.0"@,
            } + ":"@ + decimal(p as nat) + ":"@ + decimal(private as nat),
        ),
        None => None,
    }
}

/// Formats a port binding as `"ip:public:private"`.
pub fn format_port(ip: Option<String>, public: Option<u16>, private: u16) -> (r: Option<String>)
    ensures
        opt_view(r) == port_text(opt_view(ip), public, private),
{
    match public {
        Some(p) => {
            let mut v = match ip {
                Some(a) => chars_of(a.as_str()),
                None => chars_of("0.0.0.0"),
            };
            push_str(&mut v, ":");
            let pd = decimal_chars(p as u64);
            push_chars(&mut v, pd.as_slice());
            push_str(&mut v, ":");
            let qd = decimal_chars(private as u64);
            push_chars(&mut v, qd.as_slice());
            Some(string_of(v.as_slice()))
        },
        None => None,
    }
}

/// The port of an inspect port key such as `80/tcp`: the number before the
/// first `/`, the protocol after it (`tcp` when absent), and the first
/// binding's host port when it parses.
pub open spec fn port_info_spec(key: Seq<char>, host_port: Option<Seq<char>>) -> Option<
    (u16, Option<u16>, Seq<char>),
> {
    let parts = crate::text::split_char(key, '/');
    match parse_u16_spec(parts[0]) {
        Some(private) => Some(
            (
                private,
                match host_port {
                    Some(h) => parse_u16_spec(h),
                    None => None,
                },
                if parts.len() > 1 {
                    parts[1]
                } else {
                    "tcp"@
                },
            ),
        ),
        None => None,
    }
}

/// The `PortInfo` of an inspect port key and its first binding's host port.
pub fn port_info(key: &str, host_port: Option<String>) -> (r: Option<PortInfo>)
    ensures
        match r {
            Some(p) => port_info_spec(key@, opt_view(host_port)) == Some(
                (p.private_port, p.public_port, p.port_type@),
            ),
            None => (port_info_spec(key@, opt_view(host_port)) is None),
        },
{
    let kc = chars_of(key);
    let parts = crate::text::split_chars(kc.as_slice(), '/');
    proof {
        let pv = parts@.map_values(|v: Vec<char>| v@);
        assert(pv.len() >= 1) by {
            lemma_split_nonempty(kc@, '/');
        }
        assert(pv[0] == parts@[0]@);
    }
    match parse_u16(parts[0].as_slice()) {
        Some(private) => {
            let public = match host_port {
                Some(h) => {
                    let hc = chars_of(h.as_str());
                    parse_u16(hc.as_slice())
                },
                None => None,
            };
            let proto = if parts.len() > 1 {
                proof {
                    assert(parts@.map_values(|v: Vec<char>| v@)[1] == parts@[1]@);
                }
                string_of(parts[1].as_slice())
            } else {
                owned("tcp")
            };
            Some(PortInfo { private_port: private, public_port: public, port_type: proto })
        },
        None => None,
    }
}

/// The view of a `PortInfo`.
pub open spec fn port_info_view(p: PortInfo) -> (u16, Option<u16>, Seq<char>) {
    (p.private_port, p.public_port, p.port_type@)
}

/// The ports of an inspected container: each port key with its first
/// binding's host port, the keys whose port does not parse left out.
pub open spec fn port_infos(entries: Seq<(String, Option<String>)>) -> Seq<
    (u16, Option<u16>, Seq<char>),
>
    decreases entries.len(),
{
    if entries.len() == 0 {
        Seq::empty()
    } else {
        port_infos(entries.drop_last()) + match port_info_spec(
            entries.last().0@,
            opt_view(entries.last().1),
        ) {
            Some(p) => seq![p],
            None => Seq::empty(),
        }
    }
}

/// The `PortInfo`s of an inspected container's port table, given as each
/// port key with its first binding's host port.
pub fn inspect_ports(entries: &Vec<(String, Option<String>)>) -> (r: Vec<PortInfo>)
    ensures
        r@.map_values(|p: PortInfo| port_info_view(p)) == port_infos(entries@),
{
    let mut out: Vec<PortInfo> = Vec::new();
    let mut i: usize = 0;
    proof {
        assert(entries@.take(0) =~= Seq::<(String, Option<String>)>::empty());
        assert(out@.map_values(|p: PortInfo| port_info_view(p)) =~= Seq::<
            (u16, Option<u16>, Seq<char>),
        >::empty());
    }
    while i < entries.len()
        invariant
            i <= entries@.len(),
            out@.map_values(|p: PortInfo| port_info_view(p)) == port_infos(
                entries@.take(i as int),
            ),
        decreases entries@.len() - i,
    {
        proof {
            assert(entries@.take(i + 1).drop_last() =~= entries@.take(i as int));
            assert(entries@.take(i + 1).last() == entries@[i as int]);
        }
        let ghost before = out@.map_values(|p: PortInfo| port_info_view(p));
        match port_info(entries[i].0.as_str(), entries[i].1.clone()) {
            Some(p) => {
                out.push(p);
                proof {
                    assert(out@.map_values(|p: PortInfo| port_info_view(p)) =~= before.push(
                        port_info_view(p),
                    ));
                }
            },
            None => {
                proof {
                    assert(before =~= before + Seq::<(u16, Option<u16>, Seq<char>)>::empty());
                }
            },
        }
        i = i + 1;
    }
    proof {
        assert(entries@.take(i as int) =~= entries@);
    }
    out
}

/// A mount as the inspect endpoint reports it, missing texts empty and a
/// missing write flag false.
pub fn mount_info(
    source: Option<String>,
    destination: Option<String>,
    mode: Option<String>,
    rw: Option<bool>,
) -> (r: MountInfo)
    ensures
        r.source@ == or_default(opt_view(source), Seq::empty()),
        r.destination@ == or_default(opt_view(destination), Seq::empty()),
        r.mode@ == or_default(opt_view(mode), Seq::empty()),
        r.rw == (rw == Some(true)),
{
    MountInfo {
        source: text_or_empty(source),
        destination: text_or_empty(destination),
        mode: text_or_empty(mode),
        rw: match rw {
            Some(b) => b,
            None => false,
        },
    }
}

/// A network as the inspect endpoint reports it, missing addresses empty.
pub fn network_info(name: String, ip_address: Option<String>, gateway: Option<String>) -> (r:
    ContainerNetworkInfo)
    ensures
        r.name == name,
        r.ip_address@ == or_default(opt_view(ip_address), Seq::empty()),
        r.gateway@ == or_default(opt_view(gateway), Seq::empty()),
{
    ContainerNetworkInfo {
        name,
        ip_address: text_or_empty(ip_address),
        gateway: text_or_empty(gateway),
    }
}

fn text_or_empty(o: Option<String>) -> (r: String)
    ensures
        r@ == or_default(opt_view(o), Seq::empty()),
{
    match o {
        Some(s) => s,
        None => {
            let e = String::new();
            proof {
                assert(e@ =~= Seq::<char>::empty());
            }
            e
        },
    }
}

/// The details the inspect endpoint answers with: the reported fields with
/// empty defaults, the name without its slashes, and the container's state
/// as both state and status.
pub fn inspect_response(
    id: Option<String>,
    name: Option<String>,
    image: Option<String>,
    created: Option<String>,
    state: Option<String>,
    ports: Vec<PortInfo>,
    mounts: Vec<MountInfo>,
    env: Option<Vec<String>>,
    networks: Vec<ContainerNetworkInfo>,
    labels: Option<Vec<(String, String)>>,
    restart_policy: Option<String>,
    health: Option<String>,
) -> (r: ContainerInspectResponse)
    ensures
        r.id@ == or_default(opt_view(id), Seq::empty()),
        r.name@ == stripped_name(or_default(opt_view(name), Seq::empty())),
        r.image@ == or_default(opt_view(image), Seq::empty()),
        r.created@ == or_default(opt_view(created), Seq::empty()),
        r.state@ == or_default(opt_view(state), Seq::empty()),
        r.status@ == r.state@,
        r.ports == ports,
        r.mounts == mounts,
        r.env@ == (match env {
            Some(e) => e@,
            None => Seq::empty(),
        }),
        r.networks == networks,
        r.labels@ == (match labels {
            Some(l) => l@,
            None => Seq::empty(),
        }),
        r.restart_policy@ == or_default(opt_view(restart_policy), Seq::empty()),
        r.health == health,
{
    let st = text_or_empty(state);
    let n = text_or_empty(name);
    ContainerInspectResponse {
        id: text_or_empty(id),
        name: strip_name(n.as_str()),
        image: text_or_empty(image),
        created: text_or_empty(created),
        state: st.clone(),
        status: st,
        ports,
        mounts,
        env: match env {
            Some(e) => e,
            None => Vec::new(),
        },
        networks,
        labels: match labels {
            Some(l) => l,
            None => Vec::new(),
        },
        restart_policy: text_or_empty(restart_policy),
        health,
    }
}

/// Splitting always yields at least one piece.
pub proof fn lemma_split_nonempty(s: Seq<char>, c: char)
    ensures
        crate::text::split_char(s, c).len() >= 1,
    decreases s.len(),
{
    let i = first_pos(s, c);
    if s.contains(c) && 0 <= i < s.len() {
        lemma_split_nonempty(s.skip(i + 1), c);
    }
}

// ───── Container cards ─────

/// What the dashboard lists for one container, apart from its size.
pub struct ContainerFacts {
    pub id: String,
    pub name: String,
    pub image: String,
    pub image_tag: String,
    pub status: String,
    pub state: String,
    pub has_update: bool,
    pub updating: bool,
    pub compose_project: Option<String>,
    pub ports: Vec<String>,
    pub traefik_url: Option<String>,
    pub registry_url: String,
    pub last_check: Option<String>,
    pub next_check: Option<String>,
    pub last_remote_digest: String,
}

/// A port as the container list reports it: address, public port,
/// private port.
pub struct PortBinding {
    pub ip: Option<String>,
    pub public_port: Option<u16>,
    pub private_port: u16,
}

/// The value of the first pair with key `k`.
pub open spec fn lookup(m: Seq<(Seq<char>, Seq<char>)>, k: Seq<char>) -> Option<Seq<char>>
    decreases m.len(),
{
    if m.len() == 0 {
        None
    } else if m[0].0 == k {
        Some(m[0].1)
    } else {
        lookup(m.drop_first(), k)
    }
}

/// Looks a key up in a key/value list.
pub fn lookup_pair(m: &Vec<(String, String)>, k: &str) -> (r: Option<String>)
    ensures
        opt_view(r) == lookup(pairs_view(m@), k@),
{
    let ghost mv = pairs_view(m@);
    let kc = chars_of(k);
    let mut j: usize = 0;
    assert(mv.skip(0) =~= mv);
    while j < m.len()
        invariant
            j <= m@.len(),
            mv == pairs_view(m@),
            kc@ == k@,
            lookup(mv, k@) == lookup(mv.skip(j as int), k@),
        decreases m@.len() - j,
    {
        let c = chars_of(m[j].0.as_str());
        proof {
            assert(mv[j as int] == (m@[j as int].0@, m@[j as int].1@));
            assert(mv.skip(j as int)[0] == mv[j as int]);
            assert(mv.skip(j as int).drop_first() =~= mv.skip(j + 1));
        }
        if chars_eq(c.as_slice(), kc.as_slice()) {
            return Some(m[j].1.clone());
        }
        j = j + 1;
    }
    None
}

/// The published ports of a container as `"ip:public:private"` texts.
pub open spec fn port_texts(ports: Seq<(Option<Seq<char>>, Option<u16>, u16)>) -> Seq<Seq<char>>
    decreases ports.len(),
{
    if ports.len() == 0 {
        Seq::empty()
    } else {
        let rest = port_texts(ports.drop_last());
        match port_text(ports.last().0, ports.last().1, ports.last().2) {
            Some(t) => rest.push(t),
            None => rest,
        }
    }
}

/// View of a port binding.
pub open spec fn binding_view(p: PortBinding) -> (Option<Seq<char>>, Option<u16>, u16) {
    (opt_view(p.ip), p.public_port, p.private_port)
}

/// Formats the published ports of a container.
pub fn format_ports(ports: &Vec<PortBinding>) -> (r: Vec<String>)
    ensures
        strings_view(r@) == port_texts(ports@.map_values(|p: PortBinding| binding_view(p))),
{
    let ghost pv = ports@.map_values(|p: PortBinding| binding_view(p));
    let mut out: Vec<String> = Vec::new();
    let mut j: usize = 0;
    assert(pv.take(0) =~= Seq::<(Option<Seq<char>>, Option<u16>, u16)>::empty());
    assert(strings_view(out@) =~= Seq::<Seq<char>>::empty());
    while j < ports.len()
        invariant
            j <= ports@.len(),
            pv == ports@.map_values(|p: PortBinding| binding_view(p)),
            strings_view(out@) == port_texts(pv.take(j as int)),
        decreases ports@.len() - j,
    {
        let p = &ports[j];
        let ip = match &p.ip {
            Some(a) => Some(a.clone()),
            None => None,
        };
        let t = format_port(ip, p.public_port, p.private_port);
        proof {
            assert(pv.take(j + 1).drop_last() =~= pv.take(j as int));
            assert(pv.take(j + 1).last() == binding_view(ports@[j as int]));
        }
        match t {
            Some(s) => {
                proof {
                    assert(strings_view(out@.push(s)) =~= strings_view(out@).push(s@));
                }
                out.push(s);
            },
            None => {},
        }
        j = j + 1;
    }
    assert(pv.take(j as int) =~= pv);
    out
}

/// The text of an optional field, or `default`.
pub open spec fn or_default(o: Option<Seq<char>>, default: Seq<char>) -> Seq<char> {
    match o {
        Some(s) => s,
        None => default,
    }
}

/// The name the container list shows: the first reported name without its
/// slashes, or empty.
pub open spec fn shown_name(names: Option<Seq<Seq<char>>>) -> Seq<char> {
    match names {
        Some(ns) => if ns.len() > 0 {
            stripped_name(ns[0])
        } else {
            Seq::empty()
        },
        None => Seq::empty(),
    }
}

/// Everything the dashboard lists of a container, apart from its size, from
/// what the container list reports of it.
pub fn describe_container(
    id: Option<String>,
    names: Option<Vec<String>>,
    image: Option<String>,
    status: Option<String>,
    state: Option<String>,
    labels: Option<Vec<(String, String)>>,
    ports: Option<Vec<PortBinding>>,
) -> (r: ContainerFacts)
    ensures
        r.id@ == short_id(or_default(opt_view(id), Seq::empty())),
        r.name@ == shown_name(
            match names {
                Some(ns) => Some(strings_view(ns@)),
                None => None,
            },
        ),
        (r.image@, r.image_tag@) == image_tag(or_default(opt_view(image), "unknown"@)),
        r.registry_url@ == registry_url(or_default(opt_view(image), "unknown"@)),
        r.status@ == or_default(opt_view(status), "unknown"@),
        r.state@ == or_default(opt_view(state), "unknown"@),
        !r.has_update && !r.updating,
        r.last_check is None && r.next_check is None && r.last_remote_digest@.len() == 0,
        opt_view(r.compose_project) == match labels {
            Some(ls) => lookup(pairs_view(ls@), compose_project_label()),
            None => None,
        },
        opt_view(r.traefik_url) == match labels {
            Some(ls) => traefik_link(pairs_view(ls@), pairs_view(ls@)),
            None => None,
        },
        strings_view(r.ports@) == match ports {
            Some(ps) => port_texts(ps@.map_values(|p: PortBinding| binding_view(p))),
            None => Seq::empty(),
        },
{
    let name = match &names {
        Some(ns) => if ns.len() > 0 {
            proof {
                assert(strings_view(ns@)[0] == ns@[0]@);
            }
            strip_name(ns[0].as_str())
        } else {
            String::new()
        },
        None => String::new(),
    };
    let raw = match &image {
        Some(i) => i.clone(),
        None => owned("unknown"),
    };
    let (img, tag) = parse_image_tag(raw.as_str());
    let port_list = match &ports {
        Some(ps) => format_ports(ps),
        None => {
            let v: Vec<String> = Vec::new();
            proof {
                assert(strings_view(v@) =~= Seq::<Seq<char>>::empty());
            }
            v
        },
    };
    let (project, link) = match &labels {
        Some(ls) => (lookup_pair(ls, "com.docker.compose.project"), traefik_url(ls)),
        None => (None, None),
    };
    let id_text = match &id {
        Some(i) => i.clone(),
        None => String::new(),
    };
    ContainerFacts {
        id: truncate_id(id_text.as_str()),
        name,
        image: img,
        image_tag: tag,
        status: match status {
            Some(s) => s,
            None => owned("unknown"),
        },
        state: match state {
            Some(s) => s,
            None => owned("unknown"),
        },
        has_update: false,
        updating: false,
        compose_project: project,
        ports: port_list,
        traefik_url: link,
        registry_url: build_registry_url(raw.as_str()),
        last_check: None,
        next_check: None,
        last_remote_digest: String::new(),
    }
}

// ───── Laws ─────

/// Splitting an image reference that has no digest and a `:` gives back
/// the reference when name and tag are joined with `:`.
pub proof fn law_image_tag_roundtrip(raw: Seq<char>)
    requires
        !raw.contains('@'),
        raw.contains(':'),
    ensures
        image_tag(raw).0 + ":"@ + image_tag(raw).1 == raw,
{
    crate::text::lemma_last_pos(raw, ':');
    let i = crate::text::last_pos(raw, ':');
    reveal_strlit(":");
    assert(raw.take(i) + ":"@ + raw.skip(i + 1) =~= raw);
}

/// `k` slashes.
pub open spec fn slashes(k: nat) -> Seq<char> {
    Seq::new(k, |_i: int| '/')
}

/// A stripped container name never starts with `/`, and the given name
/// is the stripped one after some slashes.
pub proof fn law_strip_name(n: Seq<char>)
    ensures
        !(stripped_name(n).len() > 0 && stripped_name(n)[0] == '/'),
        exists|k: nat| n == #[trigger] slashes(k) + stripped_name(n),
    decreases n.len(),
{
    reveal_strlit("/");
    if "/"@.is_prefix_of(n) {
        law_strip_name(n.skip(1));
        let k = choose|k: nat| n.skip(1) == #[trigger] slashes(k) + stripped_name(n.skip(1));
        assert(n.subrange(0, 1) =~= "/"@);
        assert("/"@[0] == '/');
        assert(n[0] == n.subrange(0, 1)[0]);
        assert(n[0] == '/');
        assert(stripped_name(n) == stripped_name(n.skip(1)));
        assert(slashes(k + 1) =~= seq!['/'] + slashes(k));
        assert(n =~= seq![n[0]] + n.skip(1));
        assert(n =~= slashes(k + 1) + stripped_name(n));
    } else {
        assert(n =~= slashes(0) + n);
        if n.len() > 0 && n[0] == '/' {
            assert(n.subrange(0, 1) =~= "/"@);
        }
    }
}

/// Every registry link is an `https://` URL.
pub proof fn law_registry_url_https(image: Seq<char>)
    ensures
        "https://"@.is_prefix_of(registry_url(image)),
{
    reveal_strlit("https://");
    reveal_strlit("https://hub.docker.com/r/");
    reveal_strlit("https://hub.docker.com/_/");
    reveal_strlit("https://hub.docker.com");
    let r = registry_url(image);
    assert(r.subrange(0, 8) =~= "https://"@);
}

/// Whether a port binding is published on the host.
pub open spec fn is_published(b: (Option<Seq<char>>, Option<u16>, u16)) -> bool {
    b.1 is Some
}

/// `"<address>:<host port>:<container port>"` for a published binding,
/// the address `0.0.0.0` when none is given.
pub open spec fn published_text(b: (Option<Seq<char>>, Option<u16>, u16)) -> Seq<char> {
    (if b.0 is Some {
        b.0->0
    } else {
        "0.0.0.0"@
    }) + ":"@ + decimal(b.1->0 as nat) + ":"@ + decimal(b.2 as nat)
}

/// The listed ports of a container are exactly its published bindings, one
/// text each, in their order: unpublished bindings are left out and no
/// published one is lost or repeated.
pub proof fn law_port_texts_one_per_published(ports: Seq<(Option<Seq<char>>, Option<u16>, u16)>)
    ensures
        port_texts(ports) == ports.filter(|b: (Option<Seq<char>>, Option<u16>, u16)|
            is_published(b)).map_values(|b: (Option<Seq<char>>, Option<u16>, u16)|
            published_text(b)),
        port_texts(ports).len() == ports.filter(
            |b: (Option<Seq<char>>, Option<u16>, u16)| is_published(b),
        ).len(),
    decreases ports.len(),
{
    let pred = |b: (Option<Seq<char>>, Option<u16>, u16)| is_published(b);
    let f = |b: (Option<Seq<char>>, Option<u16>, u16)| published_text(b);
    if ports.len() == 0 {
        reveal(Seq::filter);
        assert(ports.filter(pred) =~= Seq::<(Option<Seq<char>>, Option<u16>, u16)>::empty());
        assert(ports.filter(pred).map_values(f) =~= Seq::<Seq<char>>::empty());
    } else {
        let init = ports.drop_last();
        let last = ports.last();
        law_port_texts_one_per_published(init);
        assert(ports =~= init.push(last));
        init.lemma_filter_push(last, pred);
        if is_published(last) {
            assert(init.filter(pred).push(last).map_values(f) =~= init.filter(pred).map_values(
                f,
            ).push(f(last)));
        }
    }
}

} // verus!
