//! Stack discovery, import and the compose file of a standalone container.
use vstd::prelude::*;

use crate::containers::or_default;
use crate::convert::{list_section, opt_view, push_list_section, push_string, strings_view};
use crate::json::{
    child, json_error, json_keys_at, json_len_at, json_str_at, keys_at, len_at, parse_error,
    push_child, str_at,
};
use crate::text::{
    chars_of, decimal, decimal_chars, contains_seq, contains_str, lines, lines_chars, push_str,
    split_char, split_chars, string_of, trim, trim_chars, trim_end_matches,
    trim_end_matches_chars,
};

verus! {

/// Body of the import endpoint.
pub struct ImportStackRequest {
    pub name: String,
}

/// Body of the create-from-container endpoint.
pub struct CreateFromContainerRequest {
    pub container_name: String,
}

// ───── Compose file of a standalone container ─────

/// One host binding of a published port, as `docker container inspect`
/// reports it (a field that is missing or not a string is `None`).
pub struct HostBinding {
    pub host_ip: Option<String>,
    pub host_port: Option<String>,
}

/// One mount of a container.
pub struct MountFacts {
    pub source: Option<String>,
    pub destination: Option<String>,
    pub mode: Option<String>,
}

/// What the compose file of a standalone container is made of, read from
/// `docker container inspect`: `Config.Image`, the `HostConfig.PortBindings`
/// object (each container port with its bindings, `None` where they are
/// not a list), the keys of `Config.ExposedPorts`, the `Mounts` and the
/// `Config.Env` entries (`None` for one that is not a string).
pub struct InspectFacts {
    pub image: Option<String>,
    pub port_bindings: Option<Vec<(String, Option<Vec<HostBinding>>)>>,
    pub exposed_ports: Option<Vec<String>>,
    pub mounts: Option<Vec<MountFacts>>,
    pub env: Option<Vec<Option<String>>>,
}

/// `"<text>"`.
pub open spec fn quoted(s: Seq<char>) -> Seq<char> {
    "\""@ + s + "\""@
}

/// A container port without its `/tcp` or `/udp` suffix.
pub open spec fn bare_port(p: Seq<char>) -> Seq<char> {
    trim_end_matches(trim_end_matches(p, "/tcp"@), "/udp"@)
}

/// The port item of one host binding: `"<port>:<container port>"`, with
/// `<ip>:` in front when a host IP is given.
pub open spec fn binding_item(container_port: Seq<char>, b: HostBinding) -> Seq<char> {
    let port = or_default(opt_view(b.host_port), Seq::empty());
    let ip = or_default(opt_view(b.host_ip), Seq::empty());
    if ip.len() == 0 {
        quoted(port + ":"@ + bare_port(container_port))
    } else {
        quoted(ip + ":"@ + port + ":"@ + bare_port(container_port))
    }
}

/// The port items of all bindings, port by port.
pub open spec fn published_items(pb: Seq<(String, Option<Vec<HostBinding>>)>) -> Seq<Seq<char>>
    decreases pb.len(),
{
    if pb.len() == 0 {
        Seq::empty()
    } else {
        published_items(pb.drop_last()) + match pb.last().1 {
            Some(bs) => bs@.map_values(|b: HostBinding| binding_item(pb.last().0@, b)),
            None => Seq::empty(),
        }
    }
}

/// The port items: the published bindings when the container has a
/// binding table, else its exposed ports.
pub open spec fn port_items(f: InspectFacts) -> Seq<Seq<char>> {
    match f.port_bindings {
        Some(pb) => published_items(pb@),
        None => match f.exposed_ports {
            Some(e) => e@.map_values(|s: String| quoted(s@)),
            None => Seq::empty(),
        },
    }
}

/// The volume items: `"<source>:<destination>:<mode>"` for each mount with
/// a source and a destination, the mode `rw` when none is given.
pub open spec fn volume_items(ms: Seq<MountFacts>) -> Seq<Seq<char>>
    decreases ms.len(),
{
    if ms.len() == 0 {
        Seq::empty()
    } else {
        let m = ms.last();
        let src = or_default(opt_view(m.source), Seq::empty());
        let dst = or_default(opt_view(m.destination), Seq::empty());
        let mode = or_default(opt_view(m.mode), "rw"@);
        volume_items(ms.drop_last()) + if src.len() > 0 && dst.len() > 0 {
            seq![quoted(src + ":"@ + dst + ":"@ + mode)]
        } else {
            Seq::empty()
        }
    }
}

/// The environment items: the entries that are strings.
pub open spec fn env_items(es: Seq<Option<String>>) -> Seq<Seq<char>>
    decreases es.len(),
{
    if es.len() == 0 {
        Seq::empty()
    } else {
        env_items(es.drop_last()) + match es.last() {
            Some(s) => seq![s@],
            None => Seq::empty(),
        }
    }
}

/// The compose file of a standalone container: one service named after
/// the container with its image (`unknown` when none is reported), its
/// ports, volumes and environment, restarted unless stopped.
pub open spec fn container_compose(name: Seq<char>, f: InspectFacts) -> Seq<char> {
    "services:\n  "@ + name + ":\n    image: "@ + or_default(opt_view(f.image), "unknown"@) + "\n"@
        + list_section("    ports:\n"@, port_items(f)) + list_section(
        "    volumes:\n"@,
        match f.mounts {
            Some(ms) => volume_items(ms@),
            None => Seq::empty(),
        },
    ) + list_section(
        "    environment:\n"@,
        match f.env {
            Some(es) => env_items(es@),
            None => Seq::empty(),
        },
    ) + "    restart: unless-stopped\n"@
}

/// The string of an optional string, or `default`.
fn text_or(o: &Option<String>, default: &str) -> (r: String)
    ensures
        r@ == or_default(opt_view(*o), default@),
{
    match o {
        Some(s) => s.clone(),
        None => string_of(chars_of(default).as_slice()),
    }
}

/// `"<text>"` as a string.
fn quote(cs: Vec<char>) -> (r: String)
    ensures
        r@ == quoted(cs@),
{
    let mut out = chars_of("\"");
    push_chars_vec(&mut out, cs);
    push_str(&mut out, "\"");
    string_of(out.as_slice())
}

fn push_chars_vec(dst: &mut Vec<char>, src: Vec<char>)
    ensures
        final(dst)@ == old(dst)@ + src@,
{
    crate::text::push_chars(dst, src.as_slice());
}

/// The port item of one host binding.
fn binding_text(container_port: &str, b: &HostBinding) -> (r: String)
    ensures
        r@ == binding_item(container_port@, *b),
{
    let port = text_or(&b.host_port, "");
    let ip = text_or(&b.host_ip, "");
    proof {
        reveal_strlit("");
    }
    let cp = chars_of(container_port);
    let tcp = chars_of("/tcp");
    let udp = chars_of("/udp");
    let c1 = trim_end_matches_chars(cp.as_slice(), tcp.as_slice());
    let c2 = trim_end_matches_chars(c1.as_slice(), udp.as_slice());
    let ipc = chars_of(ip.as_str());
    let mut out: Vec<char> = Vec::new();
    if ipc.len() > 0 {
        push_str(&mut out, ip.as_str());
        push_str(&mut out, ":");
    }
    push_str(&mut out, port.as_str());
    push_str(&mut out, ":");
    crate::text::push_chars(&mut out, c2.as_slice());
    proof {
        if ipc@.len() > 0 {
            assert(out@ =~= ip@ + ":"@ + port@ + ":"@ + bare_port(container_port@));
        } else {
            assert(out@ =~= port@ + ":"@ + bare_port(container_port@));
        }
        assert(port@ == or_default(opt_view(b.host_port), Seq::empty()));
        assert(ip@ == or_default(opt_view(b.host_ip), Seq::empty()));
        assert(binding_item(container_port@, *b) == quoted(out@));
    }
    quote(out)
}

/// The port items of the inspected container.
fn port_texts(f: &InspectFacts) -> (r: Vec<String>)
    ensures
        strings_view(r@) == port_items(*f),
{
    let mut out: Vec<String> = Vec::new();
    match &f.port_bindings {
        Some(pb) => {
            let mut i: usize = 0;
            proof {
                assert(pb@.take(0) =~= Seq::<(String, Option<Vec<HostBinding>>)>::empty());
                assert(strings_view(out@) =~= Seq::<Seq<char>>::empty());
            }
            while i < pb.len()
                invariant
                    i <= pb@.len(),
                    strings_view(out@) == published_items(pb@.take(i as int)),
                decreases pb@.len() - i,
            {
                proof {
                    assert(pb@.take(i + 1).drop_last() =~= pb@.take(i as int));
                    assert(pb@.take(i + 1).last() == pb@[i as int]);
                }
                let entry = &pb[i];
                match &entry.1 {
                    Some(bs) => {
                        let ghost before = strings_view(out@);
                        let mut j: usize = 0;
                        while j < bs.len()
                            invariant
                                j <= bs@.len(),
                                strings_view(out@) == before + bs@.take(j as int).map_values(
                                    |b: HostBinding| binding_item(entry.0@, b),
                                ),
                            decreases bs@.len() - j,
                        {
                            let t = binding_text(entry.0.as_str(), &bs[j]);
                            push_string(&mut out, t);
                            proof {
                                assert(bs@.take(j + 1).map_values(
                                    |b: HostBinding| binding_item(entry.0@, b),
                                ) =~= bs@.take(j as int).map_values(
                                    |b: HostBinding| binding_item(entry.0@, b),
                                ).push(binding_item(entry.0@, bs@[j as int])));
                            }
                            j = j + 1;
                        }
                        proof {
                            assert(bs@.take(j as int) =~= bs@);
                        }
                    },
                    None => {
                        proof {
                            assert(strings_view(out@) =~= strings_view(out@) + Seq::<
                                Seq<char>,
                            >::empty());
                        }
                    },
                }
                i = i + 1;
            }
            proof {
                assert(pb@.take(i as int) =~= pb@);
            }
        },
        None => match &f.exposed_ports {
            Some(e) => {
                let mut i: usize = 0;
                while i < e.len()
                    invariant
                        i <= e@.len(),
                        strings_view(out@) == e@.take(i as int).map_values(
                            |s: String| quoted(s@),
                        ),
                    decreases e@.len() - i,
                {
                    let t = quote(chars_of(e[i].as_str()));
                    push_string(&mut out, t);
                    proof {
                        assert(e@.take(i + 1).map_values(|s: String| quoted(s@)) =~= e@.take(
                            i as int,
                        ).map_values(|s: String| quoted(s@)).push(quoted(e@[i as int]@)));
                    }
                    i = i + 1;
                }
                proof {
                    assert(e@.take(i as int) =~= e@);
                }
            },
            None => {
                proof {
                    assert(strings_view(out@) =~= Seq::<Seq<char>>::empty());
                }
            },
        },
    }
    out
}

/// The volume items of the inspected container's mounts.
fn volume_texts(ms: &Vec<MountFacts>) -> (r: Vec<String>)
    ensures
        strings_view(r@) == volume_items(ms@),
{
    let mut out: Vec<String> = Vec::new();
    let mut i: usize = 0;
    proof {
        assert(ms@.take(0) =~= Seq::<MountFacts>::empty());
        assert(strings_view(out@) =~= Seq::<Seq<char>>::empty());
    }
    while i < ms.len()
        invariant
            i <= ms@.len(),
            strings_view(out@) == volume_items(ms@.take(i as int)),
        decreases ms@.len() - i,
    {
        proof {
            assert(ms@.take(i + 1).drop_last() =~= ms@.take(i as int));
            assert(ms@.take(i + 1).last() == ms@[i as int]);
        }
        let m = &ms[i];
        let src = text_or(&m.source, "");
        let dst = text_or(&m.destination, "");
        proof {
            reveal_strlit("");
        }
        let mode = text_or(&m.mode, "rw");
        let sc = chars_of(src.as_str());
        let dc = chars_of(dst.as_str());
        if sc.len() > 0 && dc.len() > 0 {
            let mut item = sc;
            push_str(&mut item, ":");
            push_str(&mut item, dst.as_str());
            push_str(&mut item, ":");
            push_str(&mut item, mode.as_str());
            let t = quote(item);
            proof {
                assert(t@ == quoted(src@ + ":"@ + dst@ + ":"@ + mode@));
                assert(volume_items(ms@.take(i + 1)) == volume_items(ms@.take(i as int)) + seq![
                    t@,
                ]);
            }
            push_string(&mut out, t);
        } else {
            proof {
                assert(strings_view(out@) =~= strings_view(out@) + Seq::<Seq<char>>::empty());
            }
        }
        i = i + 1;
    }
    proof {
        assert(ms@.take(i as int) =~= ms@);
    }
    out
}

/// The environment items of the inspected container.
fn env_texts(es: &Vec<Option<String>>) -> (r: Vec<String>)
    ensures
        strings_view(r@) == env_items(es@),
{
    let mut out: Vec<String> = Vec::new();
    let mut i: usize = 0;
    proof {
        assert(es@.take(0) =~= Seq::<Option<String>>::empty());
        assert(strings_view(out@) =~= Seq::<Seq<char>>::empty());
    }
    while i < es.len()
        invariant
            i <= es@.len(),
            strings_view(out@) == env_items(es@.take(i as int)),
        decreases es@.len() - i,
    {
        proof {
            assert(es@.take(i + 1).drop_last() =~= es@.take(i as int));
            assert(es@.take(i + 1).last() == es@[i as int]);
        }
        match &es[i] {
            Some(s) => {
                push_string(&mut out, s.clone());
            },
            None => {
                proof {
                    assert(strings_view(out@) =~= strings_view(out@) + Seq::<
                        Seq<char>,
                    >::empty());
                }
            },
        }
        i = i + 1;
    }
    proof {
        assert(es@.take(i as int) =~= es@);
    }
    out
}

/// Writes the compose file of the standalone container `name` from what
/// `docker container inspect` reported of it.
pub fn compose_from_container(name: &str, f: &InspectFacts) -> (r: String)
    ensures
        r@ == container_compose(name@, *f),
{
    let mut y = chars_of("services:\n  ");
    push_str(&mut y, name);
    push_str(&mut y, ":\n    image: ");
    let image = text_or(&f.image, "unknown");
    push_str(&mut y, image.as_str());
    push_str(&mut y, "\n");
    let ghost head = y@;
    let ports = port_texts(f);
    push_list_section(&mut y, "    ports:\n", &ports);
    let ghost a1 = y@;
    let vols = match &f.mounts {
        Some(ms) => volume_texts(ms),
        None => Vec::new(),
    };
    proof {
        if f.mounts is None {
            assert(strings_view(vols@) =~= Seq::<Seq<char>>::empty());
        }
    }
    push_list_section(&mut y, "    volumes:\n", &vols);
    let ghost a2 = y@;
    let envs = match &f.env {
        Some(es) => env_texts(es),
        None => Vec::new(),
    };
    proof {
        if f.env is None {
            assert(strings_view(envs@) =~= Seq::<Seq<char>>::empty());
        }
    }
    push_list_section(&mut y, "    environment:\n", &envs);
    push_str(&mut y, "    restart: unless-stopped\n");
    proof {
        assert(y@ =~= container_compose(name@, *f));
    }
    string_of(y.as_slice())
}

// ───── Reading `docker container inspect` ─────

/// Pointer to the image of the first inspected container.
pub open spec fn image_ptr() -> Seq<char> {
    "/0/Config/Image"@
}

/// Pointer to its published ports.
pub open spec fn bindings_ptr() -> Seq<char> {
    "/0/HostConfig/PortBindings"@
}

/// Pointer to its exposed ports.
pub open spec fn exposed_ptr() -> Seq<char> {
    "/0/Config/ExposedPorts"@
}

/// Pointer to its mounts.
pub open spec fn mounts_ptr() -> Seq<char> {
    "/0/Mounts"@
}

/// Pointer to its environment.
pub open spec fn env_ptr() -> Seq<char> {
    "/0/Config/Env"@
}

/// Pointer to the `j`-th item of the array at `base`.
pub open spec fn item_ptr(base: Seq<char>, j: int) -> Seq<char> {
    child(base, decimal(j as nat))
}

/// A host binding holds the `HostIp` and `HostPort` strings found at `p`.
pub open spec fn binding_read(out: Seq<char>, p: Seq<char>, b: HostBinding) -> bool {
    &&& opt_view(b.host_ip) == json_str_at(out, child(p, "HostIp"@))
    &&& opt_view(b.host_port) == json_str_at(out, child(p, "HostPort"@))
}

/// A list of host bindings holds, item by item, what the array at `p` holds.
pub open spec fn bindings_read(out: Seq<char>, p: Seq<char>, bs: Seq<HostBinding>) -> bool {
    &&& json_len_at(out, p) == Some(bs.len())
    &&& forall|j: int| 0 <= j < bs.len() ==> binding_read(out, item_ptr(p, j), #[trigger] bs[j])
}

/// A published port holds its key and the bindings found under it.
pub open spec fn port_read(
    out: Seq<char>,
    key: Seq<char>,
    e: (String, Option<Vec<HostBinding>>),
) -> bool {
    &&& e.0@ == key
    &&& match e.1 {
        Some(bs) => bindings_read(out, child(bindings_ptr(), key), bs@),
        None => json_len_at(out, child(bindings_ptr(), key)) is None,
    }
}

/// A mount holds the `Source`, `Destination` and `Mode` strings found at `p`.
pub open spec fn mount_read(out: Seq<char>, p: Seq<char>, m: MountFacts) -> bool {
    &&& opt_view(m.source) == json_str_at(out, child(p, "Source"@))
    &&& opt_view(m.destination) == json_str_at(out, child(p, "Destination"@))
    &&& opt_view(m.mode) == json_str_at(out, child(p, "Mode"@))
}

/// The facts hold what `docker container inspect` printed as `out` says of
/// the first container, as `serde_json` reads it: each field `None` when the
/// printed text is no JSON array or has nothing of the right kind there.
pub open spec fn facts_read(out: Seq<char>, f: InspectFacts) -> bool {
    let top = json_len_at(out, Seq::empty()) is Some;
    &&& opt_view(f.image) == (if top {
        json_str_at(out, image_ptr())
    } else {
        None
    })
    &&& match f.port_bindings {
        Some(pbs) => top && match json_keys_at(out, bindings_ptr()) {
            Some(keys) => pbs@.len() == keys.len() && forall|i: int|
                0 <= i < keys.len() ==> port_read(out, keys[i], #[trigger] pbs@[i]),
            None => false,
        },
        None => !top || json_keys_at(out, bindings_ptr()) is None,
    }
    &&& match f.exposed_ports {
        Some(ps) => top && json_keys_at(out, exposed_ptr()) == Some(strings_view(ps@)),
        None => !top || json_keys_at(out, exposed_ptr()) is None,
    }
    &&& match f.mounts {
        Some(ms) => top && json_len_at(out, mounts_ptr()) == Some(ms@.len()) && forall|j: int|
            0 <= j < ms@.len() ==> mount_read(out, item_ptr(mounts_ptr(), j), #[trigger] ms@[j]),
        None => !top || json_len_at(out, mounts_ptr()) is None,
    }
    &&& match f.env {
        Some(es) => top && json_len_at(out, env_ptr()) == Some(es@.len()) && forall|j: int|
            0 <= j < es@.len() ==> opt_view(#[trigger] es@[j]) == json_str_at(
                out,
                item_ptr(env_ptr(), j),
            ),
        None => !top || json_len_at(out, env_ptr()) is None,
    }
}

/// Mounts whose fields read alike give the same volume items.
proof fn lemma_volumes_agree(a: Seq<MountFacts>, b: Seq<MountFacts>)
    requires
        a.len() == b.len(),
        forall|j: int|
            0 <= j < a.len() ==> {
                &&& opt_view(#[trigger] a[j].source) == opt_view(b[j].source)
                &&& opt_view(a[j].destination) == opt_view(b[j].destination)
                &&& opt_view(a[j].mode) == opt_view(b[j].mode)
            },
    ensures
        volume_items(a) == volume_items(b),
    decreases a.len(),
{
    if a.len() > 0 {
        let k = a.len() - 1;
        assert(opt_view(a[k].source) == opt_view(b[k].source));
        lemma_volumes_agree(a.drop_last(), b.drop_last());
    }
}

/// Environment entries that read alike give the same items.
proof fn lemma_env_agree(a: Seq<Option<String>>, b: Seq<Option<String>>)
    requires
        a.len() == b.len(),
        forall|j: int| 0 <= j < a.len() ==> opt_view(#[trigger] a[j]) == opt_view(b[j]),
    ensures
        env_items(a) == env_items(b),
    decreases a.len(),
{
    if a.len() > 0 {
        let k = a.len() - 1;
        assert(opt_view(a[k]) == opt_view(b[k]));
        lemma_env_agree(a.drop_last(), b.drop_last());
    }
}

/// Two readings of the same published port table.
pub open spec fn ports_agree(
    a: (String, Option<Vec<HostBinding>>),
    b: (String, Option<Vec<HostBinding>>),
) -> bool {
    &&& a.0@ == b.0@
    &&& match (a.1, b.1) {
        (Some(x), Some(y)) => x@.len() == y@.len() && forall|j: int|
            0 <= j < x@.len() ==> opt_view(#[trigger] x@[j].host_ip) == opt_view(y@[j].host_ip)
                && opt_view(x@[j].host_port) == opt_view(y@[j].host_port),
        (None, None) => true,
        _ => false,
    }
}

/// Port tables that read alike give the same port items.
proof fn lemma_published_agree(
    a: Seq<(String, Option<Vec<HostBinding>>)>,
    b: Seq<(String, Option<Vec<HostBinding>>)>,
)
    requires
        a.len() == b.len(),
        forall|i: int| 0 <= i < a.len() ==> ports_agree(#[trigger] a[i], b[i]),
    ensures
        published_items(a) == published_items(b),
    decreases a.len(),
{
    if a.len() > 0 {
        let k = a.len() - 1;
        assert(ports_agree(a[k], b[k]));
        lemma_published_agree(a.drop_last(), b.drop_last());
        match (a[k].1, b[k].1) {
            (Some(x), Some(y)) => {
                assert(x@.map_values(|h: HostBinding| binding_item(a[k].0@, h)) =~= y@.map_values(
                    |h: HostBinding| binding_item(b[k].0@, h),
                )) by {
                    assert forall|j: int| 0 <= j < x@.len() implies binding_item(a[k].0@, x@[j])
                        == binding_item(b[k].0@, y@[j]) by {
                        assert(opt_view(x@[j].host_ip) == opt_view(y@[j].host_ip));
                    }
                }
            },
            _ => {},
        }
    }
}

/// What `docker container inspect` printed fixes the compose file: any two
/// readings of the same output give the same file.
pub proof fn law_inspect_fixes_compose(name: Seq<char>, out: Seq<char>, f1: InspectFacts, f2: InspectFacts)
    requires
        facts_read(out, f1),
        facts_read(out, f2),
    ensures
        container_compose(name, f1) == container_compose(name, f2),
{
    assert(port_items(f1) == port_items(f2)) by {
        match (f1.port_bindings, f2.port_bindings) {
            (Some(p1), Some(p2)) => {
                let keys = json_keys_at(out, bindings_ptr())->0;
                assert forall|i: int| 0 <= i < p1@.len() implies ports_agree(
                    #[trigger] p1@[i],
                    p2@[i],
                ) by {
                    assert(port_read(out, keys[i], p1@[i]));
                    assert(port_read(out, keys[i], p2@[i]));
                    let p = child(bindings_ptr(), keys[i]);
                    match (p1@[i].1, p2@[i].1) {
                        (Some(x), Some(y)) => {
                            assert forall|j: int| 0 <= j < x@.len() implies opt_view(
                                #[trigger] x@[j].host_ip,
                            ) == opt_view(y@[j].host_ip) && opt_view(x@[j].host_port) == opt_view(
                                y@[j].host_port,
                            ) by {
                                assert(binding_read(out, item_ptr(p, j), x@[j]));
                                assert(binding_read(out, item_ptr(p, j), y@[j]));
                            }
                        },
                        _ => {},
                    }
                }
                lemma_published_agree(p1@, p2@);
            },
            (None, None) => {
                match (f1.exposed_ports, f2.exposed_ports) {
                    (Some(e1), Some(e2)) => {
                        assert(strings_view(e1@) == strings_view(e2@));
                        assert(e1@.map_values(|s: String| quoted(s@)) =~= e2@.map_values(
                            |s: String| quoted(s@),
                        )) by {
                            assert forall|j: int| 0 <= j < e1@.len() implies e1@[j]@ == e2@[j]@ by {
                                assert(strings_view(e1@)[j] == e1@[j]@);
                                assert(strings_view(e2@)[j] == e2@[j]@);
                            }
                        }
                    },
                    _ => {},
                }
            },
            _ => {},
        }
    }
    match (f1.mounts, f2.mounts) {
        (Some(m1), Some(m2)) => {
            assert forall|j: int| 0 <= j < m1@.len() implies {
                &&& opt_view(#[trigger] m1@[j].source) == opt_view(m2@[j].source)
                &&& opt_view(m1@[j].destination) == opt_view(m2@[j].destination)
                &&& opt_view(m1@[j].mode) == opt_view(m2@[j].mode)
            } by {
                assert(mount_read(out, item_ptr(mounts_ptr(), j), m1@[j]));
                assert(mount_read(out, item_ptr(mounts_ptr(), j), m2@[j]));
            }
            lemma_volumes_agree(m1@, m2@);
        },
        _ => {},
    }
    match (f1.env, f2.env) {
        (Some(e1), Some(e2)) => {
            assert forall|j: int| 0 <= j < e1@.len() implies opt_view(#[trigger] e1@[j]) == opt_view(
                e2@[j],
            ) by {
                assert(opt_view(e1@[j]) == json_str_at(out, item_ptr(env_ptr(), j)));
                assert(opt_view(e2@[j]) == json_str_at(out, item_ptr(env_ptr(), j)));
            }
            lemma_env_agree(e1@, e2@);
        },
        _ => {},
    }
}

/// The string at the pointer `p` of the printed text.
fn read_str(out: &str, p: &Vec<char>) -> (r: Option<String>)
    ensures
        opt_view(r) == json_str_at(out@, p@),
{
    let ps = string_of(p.as_slice());
    str_at(out, ps.as_str())
}

/// The array length at the pointer `p` of the printed text.
fn read_len(out: &str, p: &Vec<char>) -> (r: Option<usize>)
    ensures
        match r {
            Some(n) => json_len_at(out@, p@) == Some(n as nat),
            None => json_len_at(out@, p@) is None,
        },
{
    let ps = string_of(p.as_slice());
    len_at(out, ps.as_str())
}

/// The object keys at the pointer `p` of the printed text.
fn read_keys(out: &str, p: &Vec<char>) -> (r: Option<Vec<String>>)
    ensures
        match r {
            Some(v) => json_keys_at(out@, p@) == Some(strings_view(v@)),
            None => json_keys_at(out@, p@) is None,
        },
{
    let ps = string_of(p.as_slice());
    keys_at(out, ps.as_str())
}

/// The pointer to the `j`-th item below `base`.
fn index_ptr(base: &Vec<char>, j: usize) -> (r: Vec<char>)
    ensures
        r@ == item_ptr(base@, j as int),
{
    let d = decimal_chars(j as u64);
    push_child(base, d.as_slice())
}

/// The pointer to the field `name` below `base`.
fn field_ptr(base: &Vec<char>, name: &str) -> (r: Vec<char>)
    ensures
        r@ == child(base@, name@),
{
    let n = chars_of(name);
    push_child(base, n.as_slice())
}

/// The `n` host bindings of the array at `p`.
fn read_bindings(out: &str, p: &Vec<char>, n: usize) -> (r: Vec<HostBinding>)
    requires
        json_len_at(out@, p@) == Some(n as nat),
    ensures
        bindings_read(out@, p@, r@),
{
    let mut bs: Vec<HostBinding> = Vec::new();
    let mut j: usize = 0;
    while j < n
        invariant
            j <= n,
            bs@.len() == j,
            forall|k: int| 0 <= k < j ==> binding_read(out@, item_ptr(p@, k), #[trigger] bs@[k]),
        decreases n - j,
    {
        let bp = index_ptr(p, j);
        let ip = field_ptr(&bp, "HostIp");
        let hp = field_ptr(&bp, "HostPort");
        let b = HostBinding { host_ip: read_str(out, &ip), host_port: read_str(out, &hp) };
        bs.push(b);
        j = j + 1;
    }
    bs
}

/// The published ports, when the first container has a `PortBindings`
/// object.
fn read_ports(out: &str) -> (r: Option<Vec<(String, Option<Vec<HostBinding>>)>>)
    ensures
        match r {
            Some(pbs) => match json_keys_at(out@, bindings_ptr()) {
                Some(keys) => pbs@.len() == keys.len() && forall|i: int|
                    0 <= i < keys.len() ==> port_read(out@, keys[i], #[trigger] pbs@[i]),
                None => false,
            },
            None => json_keys_at(out@, bindings_ptr()) is None,
        },
{
    let base = chars_of("/0/HostConfig/PortBindings");
    let keys = match read_keys(out, &base) {
        Some(k) => k,
        None => return None,
    };
    let ghost kv = strings_view(keys@);
    let mut pbs: Vec<(String, Option<Vec<HostBinding>>)> = Vec::new();
    let mut i: usize = 0;
    while i < keys.len()
        invariant
            i <= keys@.len(),
            base@ == bindings_ptr(),
            kv == strings_view(keys@),
            json_keys_at(out@, bindings_ptr()) == Some(kv),
            pbs@.len() == i,
            forall|k: int| 0 <= k < i ==> port_read(out@, kv[k], #[trigger] pbs@[k]),
        decreases keys@.len() - i,
    {
        let key = keys[i].clone();
        proof {
            assert(kv[i as int] == keys@[i as int]@);
        }
        let kc = chars_of(key.as_str());
        let p = push_child(&base, kc.as_slice());
        let list = match read_len(out, &p) {
            Some(n) => Some(read_bindings(out, &p, n)),
            None => None,
        };
        let ghost e = (key, list);
        proof {
            assert(port_read(out@, kv[i as int], e));
        }
        pbs.push((key, list));
        proof {
            assert(pbs@[i as int] == e);
        }
        i = i + 1;
    }
    Some(pbs)
}

/// The mounts, when the first container has a `Mounts` array.
fn read_mounts(out: &str) -> (r: Option<Vec<MountFacts>>)
    ensures
        match r {
            Some(ms) => json_len_at(out@, mounts_ptr()) == Some(ms@.len()) && forall|j: int|
                0 <= j < ms@.len() ==> mount_read(out@, item_ptr(mounts_ptr(), j), #[trigger] ms@[j]),
            None => json_len_at(out@, mounts_ptr()) is None,
        },
{
    let base = chars_of("/0/Mounts");
    let n = match read_len(out, &base) {
        Some(n) => n,
        None => return None,
    };
    let mut ms: Vec<MountFacts> = Vec::new();
    let mut j: usize = 0;
    while j < n
        invariant
            j <= n,
            base@ == mounts_ptr(),
            ms@.len() == j,
            forall|k: int| 0 <= k < j ==> mount_read(out@, item_ptr(mounts_ptr(), k), #[trigger] ms@[k]),
        decreases n - j,
    {
        let mp = index_ptr(&base, j);
        let sp = field_ptr(&mp, "Source");
        let dp = field_ptr(&mp, "Destination");
        let op = field_ptr(&mp, "Mode");
        let m = MountFacts {
            source: read_str(out, &sp),
            destination: read_str(out, &dp),
            mode: read_str(out, &op),
        };
        ms.push(m);
        j = j + 1;
    }
    Some(ms)
}

/// The environment entries, when the first container has an `Env` array.
fn read_env(out: &str) -> (r: Option<Vec<Option<String>>>)
    ensures
        match r {
            Some(es) => json_len_at(out@, env_ptr()) == Some(es@.len()) && forall|j: int|
                0 <= j < es@.len() ==> opt_view(#[trigger] es@[j]) == json_str_at(
                    out@,
                    item_ptr(env_ptr(), j),
                ),
            None => json_len_at(out@, env_ptr()) is None,
        },
{
    let base = chars_of("/0/Config/Env");
    let n = match read_len(out, &base) {
        Some(n) => n,
        None => return None,
    };
    let mut es: Vec<Option<String>> = Vec::new();
    let mut j: usize = 0;
    while j < n
        invariant
            j <= n,
            base@ == env_ptr(),
            es@.len() == j,
            forall|k: int| 0 <= k < j ==> opt_view(#[trigger] es@[k]) == json_str_at(
                out@,
                item_ptr(env_ptr(), k),
            ),
        decreases n - j,
    {
        let ep = index_ptr(&base, j);
        es.push(read_str(out, &ep));
        j = j + 1;
    }
    Some(es)
}

/// What the printed output of `docker container inspect` says of the first
/// container, field by field; nothing when the output is no JSON array.
pub fn inspect_facts(out: &str) -> (r: InspectFacts)
    ensures
        facts_read(out@, r),
{
    let whole: Vec<char> = Vec::new();
    proof {
        assert(whole@ =~= Seq::<char>::empty());
    }
    let top = read_len(out, &whole);
    if top.is_none() {
        return InspectFacts {
            image: None,
            port_bindings: None,
            exposed_ports: None,
            mounts: None,
            env: None,
        };
    }
    let ip = chars_of("/0/Config/Image");
    let ep = chars_of("/0/Config/ExposedPorts");
    InspectFacts {
        image: read_str(out, &ip),
        port_bindings: read_ports(out),
        exposed_ports: read_keys(out, &ep),
        mounts: read_mounts(out),
        env: read_env(out),
    }
}

/// The compose file of the standalone container `name`, from what
/// `docker container inspect` printed; the parse error when that is not
/// JSON.
pub fn compose_from_inspect(name: &str, out: &str) -> (r: Result<String, String>)
    ensures
        match json_error(out@) {
            Some(e) => r matches Err(m) && m@ == "Failed to parse inspect: "@ + e,
            None => r matches Ok(c) && exists|f: InspectFacts|
                facts_read(out@, f) && c@ == container_compose(name@, f),
        },
{
    match parse_error(out) {
        Some(e) => {
            let mut m = chars_of("Failed to parse inspect: ");
            push_str(&mut m, e.as_str());
            Err(string_of(m.as_slice()))
        },
        None => {
            let f = inspect_facts(out);
            let c = compose_from_container(name, &f);
            Ok(c)
        },
    }
}

// ───── Validation of a compose file ─────

/// What `serde_yaml::from_str::<serde_yaml::Value>` reports for a text: the
/// error's message when the text is not YAML, `None` when it is.
pub uninterp spec fn yaml_error(text: Seq<char>) -> Option<Seq<char>>;

/// Calls `serde_yaml::from_str::<serde_yaml::Value>` and keeps the error's
/// message. The contract claims only that the result is `yaml_error` of the
/// text; the YAML grammar is left to that crate.
#[verifier::external_body]
fn yaml_syntax_error(text: &str) -> (r: Option<String>)
    ensures
        opt_view(r) == yaml_error(text@),
{
    serde_yaml::from_str::<serde_yaml::Value>(text).err().map(|e| e.to_string())
}

/// Whether a compose file is YAML, and the parser's message when it is not.
pub fn validate_compose_text(compose: &str) -> (r: (bool, Option<String>))
    ensures
        r.0 == (yaml_error(compose@) is None),
        opt_view(r.1) == yaml_error(compose@),
{
    let e = yaml_syntax_error(compose);
    (e.is_none(), e)
}

// ───── Names ─────

/// A required name: the trimmed text, or `error` when nothing is left.
pub open spec fn required_name(raw: Seq<char>, error: Seq<char>) -> Result<Seq<char>, Seq<char>> {
    if trim(raw).len() == 0 {
        Err(error)
    } else {
        Ok(trim(raw))
    }
}

fn require_name(raw: &str, error: &str) -> (r: Result<String, String>)
    ensures
        match required_name(raw@, error@) {
            Ok(n) => r matches Ok(v) && v@ == n,
            Err(e) => r matches Err(m) && m@ == e,
        },
{
    let t = trim_chars(chars_of(raw).as_slice());
    if t.len() == 0 {
        Err(string_of(chars_of(error).as_slice()))
    } else {
        Ok(string_of(t.as_slice()))
    }
}

impl CreateFromContainerRequest {
    /// The name of the stack to create: the trimmed container name, which
    /// must not be empty.
    pub fn stack_name(&self) -> (r: Result<String, String>)
        ensures
            match required_name(self.container_name@, "container_name is required"@) {
                Ok(n) => r matches Ok(v) && v@ == n,
                Err(e) => r matches Err(m) && m@ == e,
            },
    {
        require_name(self.container_name.as_str(), "container_name is required")
    }
}

impl ImportStackRequest {
    /// The name of the project to import: the trimmed name, which must not
    /// be empty.
    pub fn stack_name(&self) -> (r: Result<String, String>)
        ensures
            match required_name(self.name@, "Name is required"@) {
                Ok(n) => r matches Ok(v) && v@ == n,
                Err(e) => r matches Err(m) && m@ == e,
            },
    {
        require_name(self.name.as_str(), "Name is required")
    }
}

// ───── Discovery ─────

/// A project that `docker compose ls` reports.
pub struct ComposeProject {
    pub name: String,
    pub status: String,
    pub config_files: String,
}

/// A project is managed here when its compose file lies under the stacks
/// directory.
pub open spec fn managed(config_files: Seq<char>) -> bool {
    contains_seq(config_files, "/app/stacks/"@)
}

/// Whether a project's compose file lies under the stacks directory.
pub fn is_managed(config_files: &str) -> (r: bool)
    ensures
        r == managed(config_files@),
{
    contains_str(chars_of(config_files).as_slice(), "/app/stacks/")
}

/// The position of the first project with the given name.
pub fn find_project(projects: &Vec<ComposeProject>, name: &str) -> (r: Option<usize>)
    ensures
        match r {
            Some(i) => i < projects@.len() && projects@[i as int].name@ == name@ && forall|j: int|
                0 <= j < i ==> projects@[j].name@ != name@,
            None => forall|j: int| 0 <= j < projects@.len() ==> projects@[j].name@ != name@,
        },
{
    let nc = chars_of(name);
    let mut i: usize = 0;
    while i < projects.len()
        invariant
            i <= projects@.len(),
            nc@ == name@,
            forall|j: int| 0 <= j < i ==> projects@[j].name@ != name@,
        decreases projects@.len() - i,
    {
        let pc = chars_of(projects[i].name.as_str());
        if crate::text::chars_eq(pc.as_slice(), nc.as_slice()) {
            return Some(i);
        }
        i = i + 1;
    }
    None
}

/// A container started without compose, as `docker container ls` lists it.
pub struct StandaloneContainer {
    pub container_id: String,
    pub image: String,
    pub name: String,
    pub status: String,
    pub ports: String,
}

/// The standalone container a line of `docker container ls` describes: its
/// tab-separated id, image, names, status and ports, when the line has
/// the six fields and its labels name no compose project.
pub open spec fn standalone_of(line: Seq<char>) -> Option<
    (Seq<char>, Seq<char>, Seq<char>, Seq<char>, Seq<char>),
> {
    let parts = split_char(line, '\t');
    if parts.len() >= 6 && !contains_seq(parts[5], crate::containers::compose_project_label()) {
        Some((parts[0], parts[1], parts[2], parts[3], parts[4]))
    } else {
        None
    }
}

/// The standalone containers that the lines describe, in order.
pub open spec fn standalone_list(ls: Seq<Seq<char>>) -> Seq<
    (Seq<char>, Seq<char>, Seq<char>, Seq<char>, Seq<char>),
>
    decreases ls.len(),
{
    if ls.len() == 0 {
        Seq::empty()
    } else {
        standalone_list(ls.drop_last()) + match standalone_of(ls.last()) {
            Some(c) => seq![c],
            None => Seq::empty(),
        }
    }
}

/// The view of a standalone container.
pub open spec fn standalone_view(c: StandaloneContainer) -> (
    Seq<char>,
    Seq<char>,
    Seq<char>,
    Seq<char>,
    Seq<char>,
) {
    (c.container_id@, c.image@, c.name@, c.status@, c.ports@)
}

/// Reads the standalone containers out of the output of
/// `docker container ls` with the tab-separated format
/// `ID, Image, Names, Status, Ports, Labels`.
pub fn standalone_containers(output: &str) -> (r: Vec<StandaloneContainer>)
    ensures
        r@.map_values(|c: StandaloneContainer| standalone_view(c)) == standalone_list(
            lines(output@),
        ),
{
    let oc = chars_of(output);
    let ls = lines_chars(oc.as_slice());
    let ghost lv = lines(output@);
    let label = chars_of("com.docker.compose.project");
    let mut out: Vec<StandaloneContainer> = Vec::new();
    let mut i: usize = 0;
    proof {
        reveal_strlit("com.docker.compose.project");
        assert(ls@.map_values(|v: Vec<char>| v@) == lv);
        assert(lv.take(0) =~= Seq::<Seq<char>>::empty());
        assert(out@.map_values(|c: StandaloneContainer| standalone_view(c)) =~= Seq::<
            (Seq<char>, Seq<char>, Seq<char>, Seq<char>, Seq<char>),
        >::empty());
    }
    while i < ls.len()
        invariant
            i <= ls@.len(),
            ls@.map_values(|v: Vec<char>| v@) == lv,
            label@ == crate::containers::compose_project_label(),
            out@.map_values(|c: StandaloneContainer| standalone_view(c)) == standalone_list(
                lv.take(i as int),
            ),
        decreases ls@.len() - i,
    {
        proof {
            assert(lv.take(i + 1).drop_last() =~= lv.take(i as int));
            assert(lv.take(i + 1).last() == ls@[i as int]@);
        }
        let parts = split_chars(ls[i].as_slice(), '\t');
        let ghost ps = split_char(ls@[i as int]@, '\t');
        proof {
            assert(parts@.map_values(|v: Vec<char>| v@) == ps);
            assert(parts@.len() == ps.len());
        }
        let ghost before = out@.map_values(|c: StandaloneContainer| standalone_view(c));
        if parts.len() >= 6 && !crate::text::contains_chars(parts[5].as_slice(), label.as_slice()) {
            proof {
                assert(ps[5] == parts@[5]@);
                assert(ps[0] == parts@[0]@);
                assert(ps[1] == parts@[1]@);
                assert(ps[2] == parts@[2]@);
                assert(ps[3] == parts@[3]@);
                assert(ps[4] == parts@[4]@);
            }
            let c = StandaloneContainer {
                container_id: string_of(parts[0].as_slice()),
                image: string_of(parts[1].as_slice()),
                name: string_of(parts[2].as_slice()),
                status: string_of(parts[3].as_slice()),
                ports: string_of(parts[4].as_slice()),
            };
            out.push(c);
            proof {
                assert(out@.map_values(|c: StandaloneContainer| standalone_view(c)) =~= before.push(
                    standalone_view(c),
                ));
            }
        } else {
            proof {
                if parts@.len() >= 6 {
                    assert(ps[5] == parts@[5]@);
                }
                assert(before =~= before + Seq::<
                    (Seq<char>, Seq<char>, Seq<char>, Seq<char>, Seq<char>),
                >::empty());
            }
        }
        i = i + 1;
    }
    proof {
        assert(lv.take(i as int) =~= lv);
    }
    out
}

// ───── Stack actions ─────

/// The path of a stack's compose file.
pub open spec fn compose_file_path(stack_path: Seq<char>) -> Seq<char> {
    stack_path + "/compose.yaml"@
}

/// The compose file of the stack kept at `stack_path`.
pub fn compose_file(stack_path: &str) -> (r: String)
    ensures
        r@ == compose_file_path(stack_path@),
{
    let mut out = chars_of(stack_path);
    push_str(&mut out, "/compose.yaml");
    string_of(out.as_slice())
}

/// What can be done to a stack through `docker compose`.
pub enum StackAction {
    Start,
    Stop,
    Restart,
    Pull,
}

/// The `docker compose` subcommand of an action.
pub open spec fn action_words(a: StackAction) -> Seq<Seq<char>> {
    match a {
        StackAction::Start => seq!["up"@, "-d"@],
        StackAction::Stop => seq!["down"@],
        StackAction::Restart => seq!["restart"@],
        StackAction::Pull => seq!["pull"@],
    }
}

/// The arguments of `docker` for an action on a compose file.
pub open spec fn action_args(a: StackAction, compose_path: Seq<char>) -> Seq<Seq<char>> {
    seq!["compose"@, "-f"@, compose_path] + action_words(a)
}

fn word(s: &str) -> (r: String)
    ensures
        r@ == s@,
{
    string_of(chars_of(s).as_slice())
}

/// The arguments of `docker` that perform `action` on the compose file at
/// `compose_path`.
pub fn compose_args(action: &StackAction, compose_path: &str) -> (r: Vec<String>)
    ensures
        strings_view(r@) == action_args(*action, compose_path@),
{
    let mut out: Vec<String> = Vec::new();
    push_string(&mut out, word("compose"));
    push_string(&mut out, word("-f"));
    push_string(&mut out, word(compose_path));
    match action {
        StackAction::Start => {
            push_string(&mut out, word("up"));
            push_string(&mut out, word("-d"));
        },
        StackAction::Stop => {
            push_string(&mut out, word("down"));
        },
        StackAction::Restart => {
            push_string(&mut out, word("restart"));
        },
        StackAction::Pull => {
            push_string(&mut out, word("pull"));
        },
    }
    proof {
        assert(strings_view(out@) =~= action_args(*action, compose_path@));
    }
    out
}

/// The status a stack has after an action succeeded.
pub open spec fn status_after(a: StackAction) -> Option<Seq<char>> {
    match a {
        StackAction::Start => Some("running"@),
        StackAction::Stop => Some("stopped"@),
        StackAction::Restart => Some("running"@),
        StackAction::Pull => None,
    }
}

/// The status to record after `action` succeeded, if it changes one.
pub fn new_status(action: &StackAction) -> (r: Option<String>)
    ensures
        opt_view(r) == status_after(*action),
{
    match action {
        StackAction::Start => Some(word("running")),
        StackAction::Stop => Some(word("stopped")),
        StackAction::Restart => Some(word("running")),
        StackAction::Pull => None,
    }
}

/// The log line and the notification (title and text) of an action on
/// the stack `name`: starting and stopping are logged and notified.
pub open spec fn action_report(a: StackAction, name: Seq<char>) -> Option<
    (Seq<char>, Seq<char>, Seq<char>),
> {
    match a {
        StackAction::Start => Some(
            (
                "✅ Stack '"@ + name + "' started\n"@,
                "✅ "@ + name + " started"@,
                "Stack '"@ + name + "' has been deployed successfully."@,
            ),
        ),
        StackAction::Stop => Some(
            (
                "⏹️  Stack '"@ + name + "' stopped\n"@,
                "⏹️ "@ + name + " stopped"@,
                "Stack '"@ + name + "' has been stopped."@,
            ),
        ),
        _ => None,
    }
}

fn wrapped(prefix: &str, name: &str, suffix: &str) -> (r: String)
    ensures
        r@ == prefix@ + name@ + suffix@,
{
    let mut out = chars_of(prefix);
    push_str(&mut out, name);
    push_str(&mut out, suffix);
    string_of(out.as_slice())
}

/// The log line, notification title and notification text that follow
/// `action` on the stack `name`, if it is reported.
pub fn action_report_of(action: &StackAction, name: &str) -> (r: Option<(String, String, String)>)
    ensures
        match action_report(*action, name@) {
            Some(t) => r matches Some(v) && v.0@ == t.0 && v.1@ == t.1 && v.2@ == t.2,
            None => r is None,
        },
{
    match action {
        StackAction::Start => Some(
            (
                wrapped("✅ Stack '", name, "' started\n"),
                wrapped("✅ ", name, " started"),
                wrapped("Stack '", name, "' has been deployed successfully."),
            ),
        ),
        StackAction::Stop => Some(
            (
                wrapped("⏹️  Stack '", name, "' stopped\n"),
                wrapped("⏹️ ", name, " stopped"),
                wrapped("Stack '", name, "' has been stopped."),
            ),
        ),
        _ => None,
    }
}

} // verus!
