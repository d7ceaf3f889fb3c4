//! Compose templates and `${NAME}` placeholder substitution.
use vstd::prelude::*;

use crate::convert::pairs_view;
use crate::text::{
    chars_of, contains_seq, lemma_add_assoc, occurs_at, push_str, replace_all, replace_chars,
    string_of,
};

verus! {

/// A compose template.
pub struct Template {
    pub name: String,
    pub description: String,
    pub category: String,
    pub compose: String,
    pub variables: Vec<TemplateVariable>,
}

/// A variable that a template asks for.
pub struct TemplateVariable {
    pub name: String,
    pub description: String,
    pub default: String,
    pub required: bool,
}

/// The placeholder `${name}`.
pub open spec fn placeholder(name: Seq<char>) -> Seq<char> {
    "${"@ + name + "}"@
}

/// Replaces the placeholder of every variable by its value, in the order of
/// `vars`.
pub open spec fn fill_vars(s: Seq<char>, vars: Seq<(Seq<char>, Seq<char>)>) -> Seq<char>
    decreases vars.len(),
{
    if vars.len() == 0 {
        s
    } else {
        replace_all(fill_vars(s, vars.drop_last()), placeholder(vars.last().0), vars.last().1)
    }
}

/// Replaces `${<builtin>}` by `value`, then the placeholder of every variable.
pub open spec fn fill_text(
    s: Seq<char>,
    builtin: Seq<char>,
    value: Seq<char>,
    vars: Seq<(Seq<char>, Seq<char>)>,
) -> Seq<char> {
    fill_vars(replace_all(s, placeholder(builtin), value), vars)
}

/// A compose template filled for a stack: `${STACK_NAME}` becomes the stack
/// name and `${VAR}` the value of `VAR`.
pub open spec fn filled_compose(
    compose: Seq<char>,
    stack_name: Seq<char>,
    vars: Seq<(Seq<char>, Seq<char>)>,
) -> Seq<char> {
    fill_text(compose, "STACK_NAME"@, stack_name, vars)
}

/// `${name}` as characters.
pub fn placeholder_chars(name: &str) -> (r: Vec<char>)
    ensures
        r@ == placeholder(name@),
        r@.len() >= 3,
{
    proof {
        reveal_strlit("${");
        reveal_strlit("}");
    }
    let mut p = chars_of("${");
    push_str(&mut p, name);
    push_str(&mut p, "}");
    p
}

/// Replaces `${<builtin>}` by `value` and then the placeholder of every
/// variable of `vars`, in order.
pub fn fill_placeholders(
    input: &str,
    builtin: &str,
    value: &str,
    vars: &Vec<(String, String)>,
) -> (r: String)
    ensures
        r@ == fill_text(input@, builtin@, value@, pairs_view(vars@)),
{
    let ic = chars_of(input);
    let bp = placeholder_chars(builtin);
    let vc = chars_of(value);
    let mut cur = replace_chars(ic.as_slice(), bp.as_slice(), vc.as_slice());
    let ghost pv = pairs_view(vars@);
    let ghost start = cur@;
    let mut j: usize = 0;
    assert(pv.take(0) =~= Seq::<(Seq<char>, Seq<char>)>::empty());
    while j < vars.len()
        invariant
            j <= vars@.len(),
            pv == pairs_view(vars@),
            cur@ == fill_vars(start, pv.take(j as int)),
        decreases vars@.len() - j,
    {
        let p = placeholder_chars(vars[j].0.as_str());
        let x = chars_of(vars[j].1.as_str());
        cur = replace_chars(cur.as_slice(), p.as_slice(), x.as_slice());
        proof {
            assert(pv.take(j + 1).drop_last() =~= pv.take(j as int));
            assert(pv.take(j + 1).last() == (vars@[j as int].0@, vars@[j as int].1@));
        }
        j = j + 1;
    }
    assert(pv.take(j as int) =~= pv);
    string_of(cur.as_slice())
}

/// Fills a template's compose text: `${STACK_NAME}` becomes `stack_name`
/// and each `${VAR}` the value of `VAR` in `vars`; placeholders of unknown
/// variables stay as they are.
pub fn fill_template(compose: &str, stack_name: &str, vars: &Vec<(String, String)>) -> (r: String)
    ensures
        r@ == filled_compose(compose@, stack_name@, pairs_view(vars@)),
{
    fill_placeholders(compose, "STACK_NAME", stack_name, vars)
}

/// Body of the template rendering endpoint.
pub struct RenderRequest {
    pub template: String,
    pub stack_name: String,
    pub variables: Option<Vec<(String, String)>>,
}

/// The variables of an optional list, none when it is missing.
pub open spec fn vars_or_none(vars: Option<Vec<(String, String)>>) -> Seq<(Seq<char>, Seq<char>)> {
    match vars {
        Some(v) => pairs_view(v@),
        None => Seq::empty(),
    }
}

/// `i` is the first template named `name`.
pub open spec fn first_template(ts: Seq<Template>, name: Seq<char>, i: int) -> bool {
    0 <= i < ts.len() && ts[i].name@ == name && forall|j: int| 0 <= j < i ==> ts[j].name@ != name
}

/// The position of the first template with the given name.
pub fn find_template(templates: &Vec<Template>, name: &str) -> (r: Option<usize>)
    ensures
        match r {
            Some(i) => first_template(templates@, name@, i as int),
            None => forall|j: int| 0 <= j < templates@.len() ==> templates@[j].name@ != name@,
        },
{
    let nc = chars_of(name);
    let mut i: usize = 0;
    while i < templates.len()
        invariant
            i <= templates@.len(),
            nc@ == name@,
            forall|j: int| 0 <= j < i ==> templates@[j].name@ != name@,
        decreases templates@.len() - i,
    {
        if crate::text::eq_str(nc.as_slice(), templates[i].name.as_str()) {
            return Some(i);
        }
        i = i + 1;
    }
    None
}

/// Renders the template a request names for its stack: the first template
/// of that name, filled with the stack name and the request's variables;
/// an error when no template has the name.
pub fn render_template(templates: &Vec<Template>, req: &RenderRequest) -> (r: Result<String, String>)
    ensures
        match r {
            Ok(c) => exists|i: int|
                first_template(templates@, req.template@, i) && c@ == filled_compose(
                    #[trigger] templates@[i].compose@,
                    req.stack_name@,
                    vars_or_none(req.variables),
                ),
            Err(m) => m@ == "Template '"@ + req.template@ + "' not found"@ && forall|j: int|
                0 <= j < templates@.len() ==> templates@[j].name@ != req.template@,
        },
{
    match find_template(templates, req.template.as_str()) {
        Some(i) => {
            let empty: Vec<(String, String)> = Vec::new();
            proof {
                assert(pairs_view(empty@) =~= Seq::<(Seq<char>, Seq<char>)>::empty());
            }
            let vars = match &req.variables {
                Some(v) => v,
                None => &empty,
            };
            let c = fill_template(templates[i].compose.as_str(), req.stack_name.as_str(), vars);
            proof {
                assert(first_template(templates@, req.template@, i as int));
            }
            Ok(c)
        },
        None => {
            let mut m = chars_of("Template '");
            push_str(&mut m, req.template.as_str());
            push_str(&mut m, "' not found");
            Err(string_of(m.as_slice()))
        },
    }
}

// ───── Laws ─────

/// Replacing a pattern that does not occur leaves the text unchanged.
pub proof fn lemma_replace_absent(s: Seq<char>, p: Seq<char>, r: Seq<char>)
    requires
        !contains_seq(s, p),
    ensures
        replace_all(s, p, r) == s,
    decreases s.len(),
{
    if p.len() == 0 || s.len() < p.len() {
    } else if p.is_prefix_of(s) {
        assert(occurs_at(s, p, 0));
    } else {
        assert(!contains_seq(s.skip(1), p)) by {
            if contains_seq(s.skip(1), p) {
                let i = choose|i: int| occurs_at(s.skip(1), p, i);
                assert(s.subrange(i + 1, i + 1 + p.len()) =~= s.skip(1).subrange(i, i + p.len()));
                assert(occurs_at(s, p, i + 1));
            }
        }
        lemma_replace_absent(s.skip(1), p, r);
        assert(s =~= seq![s[0]] + s.skip(1));
    }
}

/// A text without `"${"` contains no placeholder.
pub proof fn lemma_no_placeholder(s: Seq<char>, name: Seq<char>)
    requires
        !contains_seq(s, "${"@),
    ensures
        !contains_seq(s, placeholder(name)),
{
    let p = placeholder(name);
    reveal_strlit("${");
    reveal_strlit("}");
    if contains_seq(s, p) {
        let i = choose|i: int| occurs_at(s, p, i);
        lemma_add_assoc("${"@, name, "}"@);
        assert(p.subrange(0, 2) =~= "${"@) by {
            reveal_strlit("${");
        }
        assert(s.subrange(i, i + 2) =~= p.subrange(0, 2));
        assert(occurs_at(s, "${"@, i)) by {
            reveal_strlit("${");
        }
    }
}

/// Filling never changes a text that holds no `"${"`, whatever the builtin
/// name, its value and the variables are.
pub proof fn lemma_fill_without_placeholders(
    s: Seq<char>,
    builtin: Seq<char>,
    value: Seq<char>,
    vars: Seq<(Seq<char>, Seq<char>)>,
)
    requires
        !contains_seq(s, "${"@),
    ensures
        fill_text(s, builtin, value, vars) == s,
{
    lemma_no_placeholder(s, builtin);
    lemma_replace_absent(s, placeholder(builtin), value);
    lemma_fill_vars_absent(s, vars);
}

/// Variables leave a text without `"${"` unchanged.
pub proof fn lemma_fill_vars_absent(s: Seq<char>, vars: Seq<(Seq<char>, Seq<char>)>)
    requires
        !contains_seq(s, "${"@),
    ensures
        fill_vars(s, vars) == s,
    decreases vars.len(),
{
    if vars.len() > 0 {
        lemma_fill_vars_absent(s, vars.drop_last());
        lemma_no_placeholder(s, vars.last().0);
        lemma_replace_absent(s, placeholder(vars.last().0), vars.last().1);
    }
}

/// A compose text without placeholders is its own filled template.
pub proof fn law_fill_template_identity(
    compose: Seq<char>,
    stack_name: Seq<char>,
    vars: Seq<(Seq<char>, Seq<char>)>,
)
    requires
        !contains_seq(compose, "${"@),
    ensures
        filled_compose(compose, stack_name, vars) == compose,
{
    lemma_fill_without_placeholders(compose, "STACK_NAME"@, stack_name, vars);
}

// ───── What replacing removes ─────

/// No character of `r` occurs in `p`.
pub open spec fn foreign_to(r: Seq<char>, p: Seq<char>) -> bool {
    forall|i: int| 0 <= i < r.len() ==> !p.contains(#[trigger] r[i])
}

/// An occurrence in a suffix is an occurrence in the whole text.
proof fn lemma_occurs_in_skip(s: Seq<char>, p: Seq<char>, k: int, i: int)
    requires
        0 <= k <= s.len(),
        occurs_at(s.skip(k), p, i),
    ensures
        occurs_at(s, p, i + k),
{
    assert(s.subrange(i + k, i + k + p.len()) =~= s.skip(k).subrange(i, i + p.len()));
}

/// An occurrence past the first part of a concatenation lies in the second.
proof fn lemma_occurs_in_tail(a: Seq<char>, b: Seq<char>, p: Seq<char>, i: int)
    requires
        occurs_at(a + b, p, i),
        i >= a.len(),
    ensures
        occurs_at(b, p, i - a.len()),
{
    assert((a + b).subrange(i, i + p.len()) =~= b.subrange(i - a.len(), i - a.len() + p.len()));
}

/// When `r` is not empty and shares no character with `p`, a start of the
/// replaced text made of characters of `p` was copied from the start of the
/// original text.
proof fn lemma_plain_prefix_copied(
    t: Seq<char>,
    p2: Seq<char>,
    r: Seq<char>,
    p: Seq<char>,
    w: Seq<char>,
)
    requires
        p2.len() > 0,
        r.len() > 0,
        foreign_to(r, p),
        w.len() <= replace_all(t, p2, r).len(),
        forall|k: int| 0 <= k < w.len() ==> #[trigger] w[k] == replace_all(t, p2, r)[k] && p.contains(w[k]),
    ensures
        w.len() <= t.len(),
        forall|k: int| 0 <= k < w.len() ==> #[trigger] w[k] == t[k],
    decreases t.len(),
{
    let out = replace_all(t, p2, r);
    if t.len() < p2.len() {
    } else if p2.is_prefix_of(t) {
        if w.len() > 0 {
            assert(out == r + replace_all(t.skip(p2.len() as int), p2, r));
            assert(w[0] == out[0]);
            assert(out[0] == r[0]);
            assert(!p.contains(r[0]));
        }
    } else if w.len() > 0 {
        let rest = replace_all(t.skip(1), p2, r);
        assert(out == seq![t[0]] + rest);
        let w1 = w.skip(1);
        assert forall|k: int| 0 <= k < w1.len() implies #[trigger] w1[k] == rest[k] && p.contains(
            w1[k],
        ) by {
            assert(w1[k] == w[k + 1]);
            assert(out[k + 1] == rest[k]);
        }
        lemma_plain_prefix_copied(t.skip(1), p2, r, p, w1);
        assert forall|k: int| 0 <= k < w.len() implies #[trigger] w[k] == t[k] by {
            if k > 0 {
                assert(w[k] == w1[k - 1]);
                assert(t.skip(1)[k - 1] == t[k]);
            } else {
                assert(out[0] == t[0]);
            }
        }
    }
}

/// Replacing `p2` by a non-empty `r` that shares no character with `p`
/// leaves no occurrence of `p` when `p` is what is replaced, and creates
/// none when the text had none.
proof fn lemma_replace_leaves_none(s: Seq<char>, p2: Seq<char>, r: Seq<char>, p: Seq<char>)
    requires
        p.len() > 0,
        p2.len() > 0,
        r.len() > 0,
        foreign_to(r, p),
        p2 == p || !contains_seq(s, p),
    ensures
        !contains_seq(replace_all(s, p2, r), p),
    decreases s.len(),
{
    let out = replace_all(s, p2, r);
    if s.len() < p2.len() {
        if contains_seq(out, p) {
            let i = choose|i: int| occurs_at(out, p, i);
            assert(occurs_at(s, p, i));
        }
    } else if p2.is_prefix_of(s) {
        let rs = s.skip(p2.len() as int);
        if p2 != p {
            if contains_seq(rs, p) {
                let i = choose|i: int| occurs_at(rs, p, i);
                lemma_occurs_in_skip(s, p, p2.len() as int, i);
            }
        }
        lemma_replace_leaves_none(rs, p2, r, p);
        let rest = replace_all(rs, p2, r);
        assert(out == r + rest);
        if contains_seq(out, p) {
            let i = choose|i: int| occurs_at(out, p, i);
            if i < r.len() {
                assert(out.subrange(i, i + p.len())[0] == p[0]);
                assert(out[i] == r[i]);
                assert(p.contains(p[0]));
                assert(!p.contains(r[i]));
            } else {
                lemma_occurs_in_tail(r, rest, p, i);
            }
        }
    } else {
        let rs = s.skip(1);
        if p2 != p {
            if contains_seq(rs, p) {
                let i = choose|i: int| occurs_at(rs, p, i);
                lemma_occurs_in_skip(s, p, 1, i);
            }
        }
        lemma_replace_leaves_none(rs, p2, r, p);
        let rest = replace_all(rs, p2, r);
        assert(out == seq![s[0]] + rest);
        if contains_seq(out, p) {
            let i = choose|i: int| occurs_at(out, p, i);
            if i >= 1 {
                lemma_occurs_in_tail(seq![s[0]], rest, p, i);
            } else {
                let w = p.skip(1);
                assert(out.subrange(0, p.len() as int) == p);
                assert forall|k: int| 0 <= k < w.len() implies #[trigger] w[k] == rest[k]
                    && p.contains(w[k]) by {
                    assert(w[k] == p[k + 1]);
                    assert(out.subrange(0, p.len() as int)[k + 1] == out[k + 1]);
                    assert(out[k + 1] == rest[k]);
                }
                lemma_plain_prefix_copied(rs, p2, r, p, w);
                assert(s.subrange(0, p.len() as int) =~= p) by {
                    assert forall|k: int| 0 <= k < p.len() implies s.subrange(0, p.len() as int)[k]
                        == p[k] by {
                        if k == 0 {
                            assert(out.subrange(0, p.len() as int)[0] == out[0]);
                        } else {
                            assert(w[k - 1] == rs[k - 1]);
                        }
                    }
                }
                assert(occurs_at(s, p, 0));
                if p2 == p {
                    assert(p2.is_prefix_of(s));
                }
            }
        }
    }
}

/// Replacing a pattern by a non-empty text that shares no character with
/// it leaves no occurrence of the pattern: every occurrence is replaced,
/// not only the first.
pub proof fn law_replace_all_leaves_no_pattern(s: Seq<char>, p: Seq<char>, r: Seq<char>)
    requires
        p.len() > 0,
        r.len() > 0,
        foreign_to(r, p),
    ensures
        !contains_seq(replace_all(s, p, r), p),
{
    lemma_replace_leaves_none(s, p, r, p);
}

/// A placeholder is never empty.
proof fn lemma_placeholder_len(name: Seq<char>)
    ensures
        placeholder(name).len() >= 3,
{
    reveal_strlit("${");
    reveal_strlit("}");
}

/// Variables whose values are non-empty and share no character with `p`
/// bring no occurrence of `p` into a text that has none.
proof fn lemma_fill_vars_keeps_absent(
    s: Seq<char>,
    vars: Seq<(Seq<char>, Seq<char>)>,
    p: Seq<char>,
)
    requires
        p.len() > 0,
        !contains_seq(s, p),
        forall|m: int| 0 <= m < vars.len() ==> (#[trigger] vars[m]).1.len() > 0 && foreign_to(vars[m].1, p),
    ensures
        !contains_seq(fill_vars(s, vars), p),
    decreases vars.len(),
{
    if vars.len() > 0 {
        let init = vars.drop_last();
        assert forall|m: int| 0 <= m < init.len() implies (#[trigger] init[m]).1.len() > 0
            && foreign_to(init[m].1, p) by {
            assert(init[m] == vars[m]);
        }
        lemma_fill_vars_keeps_absent(s, init, p);
        lemma_placeholder_len(vars.last().0);
        assert(vars.last() == vars[vars.len() - 1]);
        lemma_replace_leaves_none(fill_vars(s, init), placeholder(vars.last().0), vars.last().1, p);
    }
}

/// The placeholder of a variable is gone once the variables are filled in,
/// when the values are non-empty and share no character with it.
proof fn lemma_fill_vars_removes(s: Seq<char>, vars: Seq<(Seq<char>, Seq<char>)>, j: int)
    requires
        0 <= j < vars.len(),
        forall|m: int| 0 <= m < vars.len() ==> (#[trigger] vars[m]).1.len() > 0 && foreign_to(
            vars[m].1,
            placeholder(vars[j].0),
        ),
    ensures
        !contains_seq(fill_vars(s, vars), placeholder(vars[j].0)),
    decreases vars.len(),
{
    let p = placeholder(vars[j].0);
    let init = vars.drop_last();
    lemma_placeholder_len(vars[j].0);
    lemma_placeholder_len(vars.last().0);
    assert(vars.last() == vars[vars.len() - 1]);
    if j == vars.len() - 1 {
        lemma_replace_leaves_none(fill_vars(s, init), p, vars.last().1, p);
    } else {
        assert(init[j] == vars[j]);
        assert forall|m: int| 0 <= m < init.len() implies (#[trigger] init[m]).1.len() > 0
            && foreign_to(init[m].1, placeholder(init[j].0)) by {
            assert(init[m] == vars[m]);
        }
        lemma_fill_vars_removes(s, init, j);
        lemma_replace_leaves_none(fill_vars(s, init), placeholder(vars.last().0), vars.last().1, p);
    }
}

/// Filling a compose template for a stack leaves no `${STACK_NAME}` behind,
/// wherever and however often it occurs, when the stack name and the
/// variable values are non-empty and share no character with it.
pub proof fn law_filled_compose_has_no_stack_placeholder(
    compose: Seq<char>,
    stack_name: Seq<char>,
    vars: Seq<(Seq<char>, Seq<char>)>,
)
    requires
        stack_name.len() > 0,
        foreign_to(stack_name, placeholder("STACK_NAME"@)),
        forall|m: int| 0 <= m < vars.len() ==> (#[trigger] vars[m]).1.len() > 0 && foreign_to(
            vars[m].1,
            placeholder("STACK_NAME"@),
        ),
    ensures
        !contains_seq(filled_compose(compose, stack_name, vars), placeholder("STACK_NAME"@)),
{
    let p = placeholder("STACK_NAME"@);
    lemma_placeholder_len("STACK_NAME"@);
    law_replace_all_leaves_no_pattern(compose, p, stack_name);
    lemma_fill_vars_keeps_absent(replace_all(compose, p, stack_name), vars, p);
}

/// Filling a compose template leaves no placeholder of a given variable
/// behind, wherever and however often it occurs, when the variable values
/// are non-empty and share no character with that placeholder.
pub proof fn law_filled_compose_has_no_variable_placeholder(
    compose: Seq<char>,
    stack_name: Seq<char>,
    vars: Seq<(Seq<char>, Seq<char>)>,
    j: int,
)
    requires
        0 <= j < vars.len(),
        forall|m: int| 0 <= m < vars.len() ==> (#[trigger] vars[m]).1.len() > 0 && foreign_to(
            vars[m].1,
            placeholder(vars[j].0),
        ),
    ensures
        !contains_seq(filled_compose(compose, stack_name, vars), placeholder(vars[j].0)),
{
    lemma_fill_vars_removes(replace_all(compose, placeholder("STACK_NAME"@), stack_name), vars, j);
}

} // verus!
