//! Claims, OIDC metadata and the events the server broadcasts.
use vstd::prelude::*;

use crate::containers::lookup;
use crate::convert::{insert_pair, keys_of, map_insert, opt_view, pairs_view};
use crate::text::{chars_of, push_chars, push_str, string_of, trim_end_matches, trim_end_matches_chars};

verus! {

/// The claims of an identity token.
pub struct JwtClaims {
    pub sub: String,
    pub email: Option<String>,
    pub name: Option<String>,
    pub exp: usize,
    pub iat: usize,
    pub iss: String,
}

/// The endpoints an OIDC provider publishes.
#[derive(Clone)]
pub struct OidcMetadata {
    pub authorization_endpoint: String,
    pub token_endpoint: String,
    pub userinfo_endpoint: String,
    pub issuer: String,
    pub jwks_uri: String,
}

/// Progress of an image update.
pub struct UpdateProgress {
    pub container: String,
    pub status: String,
    pub done: bool,
    pub error: Option<String>,
}

/// A change of a container's state.
pub struct NotifEvent {
    pub container: String,
    pub status: String,
    pub timestamp: String,
}

/// `<issuer without trailing slashes><suffix>`.
pub open spec fn issuer_url(issuer: Seq<char>, suffix: Seq<char>) -> Seq<char> {
    trim_end_matches(issuer, "/"@) + suffix
}

/// The issuer URL without trailing slashes, followed by `suffix`.
pub fn issuer_path(issuer: &str, suffix: &str) -> (r: String)
    ensures
        r@ == issuer_url(issuer@, suffix@),
{
    let c = chars_of(issuer);
    let sl = chars_of("/");
    let mut t = trim_end_matches_chars(c.as_slice(), sl.as_slice());
    push_str(&mut t, suffix);
    string_of(t.as_slice())
}

/// Where the signing keys of an issuer are published.
pub fn jwks_url(issuer: &str) -> (r: String)
    ensures
        r@ == issuer_url(issuer@, "/.well-known/jwks.json"@),
{
    issuer_path(issuer, "/.well-known/jwks.json")
}

/// Where an issuer's discovery document is published.
pub fn well_known_url(issuer: &str) -> (r: String)
    ensures
        r@ == issuer_url(issuer@, "/.well-known/openid-configuration"@),
{
    issuer_path(issuer, "/.well-known/openid-configuration")
}

// ───── State changes ─────

/// The notification texts for the containers whose state changed: a
/// container with a known, non-empty previous state different from its
/// current one gets `"<previous> → <current>"`.
pub open spec fn change_events(
    previous: Seq<(Seq<char>, Seq<char>)>,
    current: Seq<(Seq<char>, Seq<char>)>,
) -> Seq<(Seq<char>, Seq<char>)>
    decreases current.len(),
{
    if current.len() == 0 {
        Seq::empty()
    } else {
        let rest = change_events(previous, current.drop_last());
        let name = current.last().0;
        let now = current.last().1;
        match lookup(previous, name) {
            Some(p) => if p.len() > 0 && p != now {
                rest.push((name, p + " → "@ + now))
            } else {
                rest
            },
            None => rest,
        }
    }
}

/// The remembered states after a refresh: each current container with its
/// state, later entries of the same name winning.
pub open spec fn remembered_states(current: Seq<(Seq<char>, Seq<char>)>) -> Seq<
    (Seq<char>, Seq<char>),
>
    decreases current.len(),
{
    if current.len() == 0 {
        Seq::empty()
    } else {
        map_insert(remembered_states(current.drop_last()), current.last().0, current.last().1)
    }
}

/// Compares the current `(name, state)` list of the containers with the
/// states remembered from the last refresh. Returns the `(name, change)`
/// notifications, in the order of `current`, and the states to remember.
pub fn state_changes(
    previous: &Vec<(String, String)>,
    current: &Vec<(String, String)>,
) -> (r: (Vec<(String, String)>, Vec<(String, String)>))
    ensures
        pairs_view(r.0@) == change_events(pairs_view(previous@), pairs_view(current@)),
        pairs_view(r.1@) == remembered_states(pairs_view(current@)),
{
    let ghost pv = pairs_view(previous@);
    let ghost cv = pairs_view(current@);
    let mut events: Vec<(String, String)> = Vec::new();
    let mut states: Vec<(String, String)> = Vec::new();
    let mut j: usize = 0;
    assert(cv.take(0) =~= Seq::<(Seq<char>, Seq<char>)>::empty());
    assert(pairs_view(events@) =~= Seq::<(Seq<char>, Seq<char>)>::empty());
    assert(pairs_view(states@) =~= Seq::<(Seq<char>, Seq<char>)>::empty());
    while j < current.len()
        invariant
            j <= current@.len(),
            pv == pairs_view(previous@),
            cv == pairs_view(current@),
            pairs_view(events@) == change_events(pv, cv.take(j as int)),
            pairs_view(states@) == remembered_states(cv.take(j as int)),
        decreases current@.len() - j,
    {
        let name = &current[j].0;
        let now = &current[j].1;
        proof {
            assert(cv.take(j + 1).drop_last() =~= cv.take(j as int));
            assert(cv.take(j + 1).last() == (name@, now@));
        }
        match crate::containers::lookup_pair(previous, name.as_str()) {
            Some(p) => {
                let pc = chars_of(p.as_str());
                let nc = chars_of(now.as_str());
                if pc.len() > 0 && !crate::text::chars_eq(pc.as_slice(), nc.as_slice()) {
                    let mut msg = pc;
                    push_str(&mut msg, " → ");
                    push_chars(&mut msg, nc.as_slice());
                    let ev = (name.clone(), string_of(msg.as_slice()));
                    proof {
                        assert(pairs_view(events@.push(ev)) =~= pairs_view(events@).push(
                            (ev.0@, ev.1@),
                        ));
                    }
                    events.push(ev);
                }
            },
            None => {},
        }
        insert_pair(&mut states, name.clone(), now.clone());
        j = j + 1;
    }
    assert(cv.take(j as int) =~= cv);
    (events, states)
}

// ───── Running containers ─────

/// An image reference that is a bare digest, whose repository has to be
/// looked up.
pub open spec fn bare_digest(image: Seq<char>) -> bool {
    "sha256:"@.is_prefix_of(image)
}

/// Whether the image a container reports is a bare digest.
pub fn is_bare_digest(image: &str) -> (r: bool)
    ensures
        r == bare_digest(image@),
{
    crate::text::starts_with_str(chars_of(image).as_slice(), "sha256:")
}

/// The entry of a running container: name, image, id and image id. A
/// container without a name, an image or an id has none; a bare-digest
/// image is replaced by the image its configuration names when that was
/// found.
pub open spec fn running_entry(
    names: Option<Seq<Seq<char>>>,
    image: Option<Seq<char>>,
    id: Option<Seq<char>>,
    image_id: Option<Seq<char>>,
    resolved: Option<Seq<char>>,
) -> Option<(Seq<char>, Seq<char>, Seq<char>, Option<Seq<char>>)> {
    match (names, image, id) {
        (Some(ns), Some(raw), Some(i)) => if ns.len() > 0 {
            Some(
                (
                    crate::containers::stripped_name(ns[0]),
                    if bare_digest(raw) && resolved is Some {
                        resolved->0
                    } else {
                        raw
                    },
                    i,
                    image_id,
                ),
            )
        } else {
            None
        },
        _ => None,
    }
}

/// The entry of a running container from what the container list reports
/// of it and, for a bare-digest image, the image its configuration names
/// (`resolved`).
pub fn running_container(
    names: Option<Vec<String>>,
    image: Option<String>,
    id: Option<String>,
    image_id: Option<String>,
    resolved: Option<String>,
) -> (r: Option<(String, String, String, Option<String>)>)
    ensures
        match running_entry(
            match names {
                Some(ns) => Some(crate::convert::strings_view(ns@)),
                None => None,
            },
            opt_view(image),
            opt_view(id),
            opt_view(image_id),
            opt_view(resolved),
        ) {
            Some(e) => r matches Some(v) && v.0@ == e.0 && v.1@ == e.1 && v.2@ == e.2
                && opt_view(v.3) == e.3,
            None => r is None,
        },
{
    match (names, image, id) {
        (Some(ns), Some(raw), Some(i)) => {
            if ns.len() == 0 {
                return None;
            }
            proof {
                assert(crate::convert::strings_view(ns@)[0] == ns@[0]@);
            }
            let name = crate::containers::strip_name(ns[0].as_str());
            let img = if is_bare_digest(raw.as_str()) {
                match resolved {
                    Some(x) => x,
                    None => raw,
                }
            } else {
                raw
            };
            Some((name, img, i, image_id))
        },
        _ => None,
    }
}

/// The container events after which the container list is refreshed.
pub open spec fn relevant_action(action: Seq<char>) -> bool {
    action == "start"@ || action == "stop"@ || action == "die"@ || action == "kill"@ || action
        == "pause"@ || action == "unpause"@ || action == "restart"@ || action == "create"@
        || action == "destroy"@ || action == "rename"@ || action == "update"@
}

/// Whether a container event calls for a refresh of the container list.
pub fn refreshes_on(action: &str) -> (r: bool)
    ensures
        r == relevant_action(action@),
{
    let a = chars_of(action);
    let s = a.as_slice();
    crate::text::eq_str(s, "start") || crate::text::eq_str(s, "stop") || crate::text::eq_str(
        s,
        "die",
    ) || crate::text::eq_str(s, "kill") || crate::text::eq_str(s, "pause")
        || crate::text::eq_str(s, "unpause") || crate::text::eq_str(s, "restart")
        || crate::text::eq_str(s, "create") || crate::text::eq_str(s, "destroy")
        || crate::text::eq_str(s, "rename") || crate::text::eq_str(s, "update")
}

// ───── Laws ─────

/// After a refresh exactly the current containers are remembered, each
/// once.
pub proof fn law_remembered_states(current: Seq<(Seq<char>, Seq<char>)>)
    ensures
        keys_of(remembered_states(current)).no_duplicates(),
        forall|x: Seq<char>|
            #[trigger] keys_of(remembered_states(current)).contains(x) <==> keys_of(
                current,
            ).contains(x),
    decreases current.len(),
{
    if current.len() > 0 {
        let init = current.drop_last();
        let (k, v) = (current.last().0, current.last().1);
        let prev = remembered_states(init);
        law_remembered_states(init);
        crate::label_templates::lemma_map_insert_unique(prev, k, v);
        lemma_keys_last(current);
        assert forall|x: Seq<char>|
            #[trigger] keys_of(remembered_states(current)).contains(x) <==> keys_of(
                current,
            ).contains(x) by {
            if keys_of(prev).contains(x) {
                lemma_map_insert_keeps(prev, k, v, x);
            }
        }
    } else {
        assert(keys_of(Seq::<(Seq<char>, Seq<char>)>::empty()) =~= Seq::<Seq<char>>::empty());
    }
}

/// The keys of a non-empty list are those of all but its last entry, and
/// the last entry's key.
pub proof fn lemma_keys_last(m: Seq<(Seq<char>, Seq<char>)>)
    requires
        m.len() > 0,
    ensures
        forall|x: Seq<char>|
            #[trigger] keys_of(m).contains(x) <==> (keys_of(m.drop_last()).contains(x) || x
                == m.last().0),
{
    let ks = keys_of(m);
    assert(keys_of(m.drop_last()) =~= ks.drop_last());
    assert(ks[ks.len() - 1] == m.last().0);
    assert forall|x: Seq<char>|
        #[trigger] ks.contains(x) <==> (ks.drop_last().contains(x) || x == m.last().0) by {
        if ks.contains(x) {
            let i = choose|i: int| 0 <= i < ks.len() && ks[i] == x;
            if i < ks.len() - 1 {
                assert(ks.drop_last()[i] == x);
            }
        }
        if ks.drop_last().contains(x) {
            let i = choose|i: int| 0 <= i < ks.drop_last().len() && ks.drop_last()[i] == x;
            assert(ks[i] == x);
        }
    }
}

/// Map insertion keeps the keys it had.
pub proof fn lemma_map_insert_keeps(
    m: Seq<(Seq<char>, Seq<char>)>,
    k: Seq<char>,
    v: Seq<char>,
    x: Seq<char>,
)
    requires
        keys_of(m).contains(x),
    ensures
        keys_of(map_insert(m, k, v)).contains(x),
{
    let ks = keys_of(m);
    let i = choose|i: int| 0 <= i < ks.len() && ks[i] == x;
    if ks.contains(k) {
        let p = crate::text::first_pos(ks, k);
        crate::text::lemma_first_pos(ks, k);
        assert(keys_of(map_insert(m, k, v)) =~= ks.update(p, k));
        if i == p {
            assert(keys_of(map_insert(m, k, v))[p] == k);
        } else {
            assert(keys_of(map_insert(m, k, v))[i] == x);
        }
    } else {
        assert(keys_of(map_insert(m, k, v)) =~= ks.push(k));
        assert(keys_of(map_insert(m, k, v))[i] == x);
    }
}

/// Whether a current container changed since the last refresh: its
/// remembered state is known, not empty, and differs from the current one.
pub open spec fn has_changed(
    previous: Seq<(Seq<char>, Seq<char>)>,
    c: (Seq<char>, Seq<char>),
) -> bool {
    lookup(previous, c.0) matches Some(p) && p.len() > 0 && p != c.1
}

/// The notification for a changed container: its name, and
/// `"<remembered> → <current>"`.
pub open spec fn change_note(
    previous: Seq<(Seq<char>, Seq<char>)>,
    c: (Seq<char>, Seq<char>),
) -> (Seq<char>, Seq<char>) {
    (c.0, lookup(previous, c.0)->0 + " → "@ + c.1)
}

/// A refresh notifies every changed container and nothing else: exactly one
/// event per current container that changed, in the order of the current
/// list, so that as many events come out as containers changed.
pub proof fn law_one_event_per_changed_container(
    previous: Seq<(Seq<char>, Seq<char>)>,
    current: Seq<(Seq<char>, Seq<char>)>,
)
    ensures
        change_events(previous, current) == current.filter(|c: (Seq<char>, Seq<char>)|
            has_changed(previous, c)).map_values(|c: (Seq<char>, Seq<char>)|
            change_note(previous, c)),
        change_events(previous, current).len() == current.filter(
            |c: (Seq<char>, Seq<char>)| has_changed(previous, c),
        ).len(),
    decreases current.len(),
{
    let pred = |c: (Seq<char>, Seq<char>)| has_changed(previous, c);
    let f = |c: (Seq<char>, Seq<char>)| change_note(previous, c);
    if current.len() == 0 {
        reveal(Seq::filter);
        assert(current.filter(pred) =~= Seq::<(Seq<char>, Seq<char>)>::empty());
        assert(current.filter(pred).map_values(f) =~= Seq::<(Seq<char>, Seq<char>)>::empty());
    } else {
        let init = current.drop_last();
        let last = current.last();
        law_one_event_per_changed_container(previous, init);
        assert(current =~= init.push(last));
        init.lemma_filter_push(last, pred);
        if pred(last) {
            assert(init.filter(pred).push(last).map_values(f) =~= init.filter(pred).map_values(
                f,
            ).push(f(last)));
        }
    }
}

} // verus!
