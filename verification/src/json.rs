//! Reading JSON documents that the Docker command line prints.
use vstd::prelude::*;

use crate::convert::opt_view;

verus! {

// ───── Trusted items ─────

/// What `serde_json::from_str::<serde_json::Value>` reports for a text: the
/// error's message when the text is not one JSON value, `None` when it is.
pub uninterp spec fn json_error(text: Seq<char>) -> Option<Seq<char>>;

/// The string that `serde_json` finds in a text at a JSON pointer
/// (`Value::pointer`, then `as_str`): `None` when the text is not JSON, when
/// nothing stands at the pointer, or when what stands there is no string.
pub uninterp spec fn json_str_at(text: Seq<char>, pointer: Seq<char>) -> Option<Seq<char>>;

/// The keys of the object that `serde_json` finds in a text at a JSON
/// pointer (`Value::pointer`, then `as_object`), in the order the map holds
/// them; `None` when no object stands there.
pub uninterp spec fn json_keys_at(text: Seq<char>, pointer: Seq<char>) -> Option<Seq<Seq<char>>>;

/// The length of the array that `serde_json` finds in a text at a JSON
/// pointer (`Value::pointer`, then `as_array`); `None` when no array stands
/// there.
pub uninterp spec fn json_len_at(text: Seq<char>, pointer: Seq<char>) -> Option<nat>;

/// Calls `serde_json::from_str::<serde_json::Value>` and keeps the error's
/// message. The contract claims only that the result is `json_error` of the
/// text; the JSON grammar is left to that crate.
#[verifier::external_body]
pub(crate) fn parse_error(text: &str) -> (r: Option<String>)
    ensures
        opt_view(r) == json_error(text@),
{
    serde_json::from_str::<serde_json::Value>(text).err().map(|e| e.to_string())
}

/// Parses the text with `serde_json` and reads the string at the pointer.
/// The contract claims only that the result is `json_str_at` of the two.
#[verifier::external_body]
pub(crate) fn str_at(text: &str, pointer: &str) -> (r: Option<String>)
    ensures
        opt_view(r) == json_str_at(text@, pointer@),
{
    let v: serde_json::Value = serde_json::from_str(text).ok()?;
    v.pointer(pointer)?.as_str().map(|s| s.to_string())
}

/// Parses the text with `serde_json` and lists the keys of the object at the
/// pointer. The contract claims only that the result is `json_keys_at` of
/// the two.
#[verifier::external_body]
pub(crate) fn keys_at(text: &str, pointer: &str) -> (r: Option<Vec<String>>)
    ensures
        match r {
            Some(v) => json_keys_at(text@, pointer@) == Some(v@.map_values(|s: String| s@)),
            None => json_keys_at(text@, pointer@) is None,
        },
{
    let v: serde_json::Value = serde_json::from_str(text).ok()?;
    Some(v.pointer(pointer)?.as_object()?.keys().cloned().collect())
}

/// Parses the text with `serde_json` and measures the array at the pointer.
/// The contract claims only that the result is `json_len_at` of the two.
#[verifier::external_body]
pub(crate) fn len_at(text: &str, pointer: &str) -> (r: Option<usize>)
    ensures
        match r {
            Some(n) => json_len_at(text@, pointer@) == Some(n as nat),
            None => json_len_at(text@, pointer@) is None,
        },
{
    let v: serde_json::Value = serde_json::from_str(text).ok()?;
    Some(v.pointer(pointer)?.as_array()?.len())
}

// ───── Pointers ─────

/// One reference token of a JSON pointer (RFC 6901): `~` written `~0` and
/// `/` written `~1`.
pub open spec fn escape_token(k: Seq<char>) -> Seq<char>
    decreases k.len(),
{
    if k.len() == 0 {
        Seq::empty()
    } else {
        escape_token(k.drop_last()) + if k.last() == '~' {
            "~0"@
        } else if k.last() == '/' {
            "~1"@
        } else {
            seq![k.last()]
        }
    }
}

/// The pointer one step below `base`, at the key or index `token`.
pub open spec fn child(base: Seq<char>, token: Seq<char>) -> Seq<char> {
    base + "/"@ + escape_token(token)
}

/// Appends the pointer one step below to `base`, at `token`.
pub fn push_child(base: &Vec<char>, token: &[char]) -> (r: Vec<char>)
    ensures
        r@ == child(base@, token@),
{
    let mut out = crate::text::slice_chars(base.as_slice(), 0, base.len());
    out.push('/');
    let ghost head = out@;
    proof {
        assert(base@.subrange(0, base@.len() as int) =~= base@);
        reveal_strlit("/");
        assert(head =~= base@ + "/"@);
        assert(token@.take(0) =~= Seq::<char>::empty());
        assert(out@ =~= head + escape_token(token@.take(0)));
    }
    let mut i: usize = 0;
    while i < token.len()
        invariant
            i <= token@.len(),
            head == base@ + "/"@,
            out@ == head + escape_token(token@.take(i as int)),
        decreases token@.len() - i,
    {
        let c = token[i];
        proof {
            assert(token@.take(i + 1).drop_last() =~= token@.take(i as int));
            assert(token@.take(i + 1).last() == c);
        }
        if c == '~' {
            out.push('~');
            out.push('0');
        } else if c == '/' {
            out.push('~');
            out.push('1');
        } else {
            out.push(c);
        }
        proof {
            let t = token@.take(i + 1);
            assert(escape_token(t) == escape_token(token@.take(i as int)) + if c == '~' {
                "~0"@
            } else if c == '/' {
                "~1"@
            } else {
                seq![c]
            });
            reveal_strlit("~0");
            reveal_strlit("~1");
            assert(out@ =~= head + escape_token(t));
        }
        i = i + 1;
    }
    proof {
        assert(token@.take(i as int) =~= token@);
        reveal_strlit("/");
        assert(out@ =~= base@ + "/"@ + escape_token(token@));
    }
    out
}

} // verus!
