//! Label templates: sets of container labels with `${NAME}` placeholders.
use vstd::prelude::*;

use crate::convert::{insert_pair, keys_of, map_insert, opt_view, pairs_view};
use crate::templates::{fill_placeholders, fill_text, TemplateVariable};
use crate::text::{chars_of, eq_str, first_pos, last_pos, lemma_first_pos};

verus! {

/// A label template. `labels` is a map: no key occurs twice.
pub struct LabelTemplate {
    pub name: String,
    pub description: String,
    pub category: String,
    pub labels: Vec<(String, String)>,
    pub variables: Vec<TemplateVariable>,
}

/// One label text with `${SERVICE_NAME}` and the variables filled in.
pub open spec fn filled_label_text(
    s: Seq<char>,
    service_name: Seq<char>,
    vars: Seq<(Seq<char>, Seq<char>)>,
) -> Seq<char> {
    fill_text(s, "SERVICE_NAME"@, service_name, vars)
}

/// The labels with keys and values filled in, collected into a map: when
/// two keys fill to the same text, the later label's value wins.
pub open spec fn filled_labels(
    labels: Seq<(Seq<char>, Seq<char>)>,
    service_name: Seq<char>,
    vars: Seq<(Seq<char>, Seq<char>)>,
) -> Seq<(Seq<char>, Seq<char>)>
    decreases labels.len(),
{
    if labels.len() == 0 {
        Seq::empty()
    } else {
        map_insert(
            filled_labels(labels.drop_last(), service_name, vars),
            filled_label_text(labels.last().0, service_name, vars),
            filled_label_text(labels.last().1, service_name, vars),
        )
    }
}

/// Substitutes `${SERVICE_NAME}` and then `${VAR}` for every variable in one
/// string; placeholders of unknown variables stay as they are.
pub fn substitute_placeholders(input: &str, service_name: &str, vars: &Vec<(String, String)>) -> (r:
    String)
    ensures
        r@ == filled_label_text(input@, service_name@, pairs_view(vars@)),
{
    fill_placeholders(input, "SERVICE_NAME", service_name, vars)
}

/// Fills a label template: placeholders are substituted in both keys and
/// values, and the pairs are collected into a map.
pub fn fill_label_template(
    labels: &Vec<(String, String)>,
    service_name: &str,
    vars: &Vec<(String, String)>,
) -> (r: Vec<(String, String)>)
    ensures
        pairs_view(r@) == filled_labels(pairs_view(labels@), service_name@, pairs_view(vars@)),
{
    let ghost lv = pairs_view(labels@);
    let ghost vv = pairs_view(vars@);
    let mut out: Vec<(String, String)> = Vec::new();
    let mut j: usize = 0;
    assert(lv.take(0) =~= Seq::<(Seq<char>, Seq<char>)>::empty());
    assert(pairs_view(out@) =~= Seq::<(Seq<char>, Seq<char>)>::empty());
    while j < labels.len()
        invariant
            j <= labels@.len(),
            lv == pairs_view(labels@),
            vv == pairs_view(vars@),
            pairs_view(out@) == filled_labels(lv.take(j as int), service_name@, vv),
        decreases labels@.len() - j,
    {
        let k = substitute_placeholders(labels[j].0.as_str(), service_name, vars);
        let v = substitute_placeholders(labels[j].1.as_str(), service_name, vars);
        insert_pair(&mut out, k, v);
        proof {
            assert(lv.take(j + 1).drop_last() =~= lv.take(j as int));
            assert(lv.take(j + 1).last() == (labels@[j as int].0@, labels@[j as int].1@));
        }
        j = j + 1;
    }
    assert(lv.take(j as int) =~= lv);
    out
}

/// Body of the label template rendering endpoint.
pub struct RenderLabelRequest {
    pub template: String,
    pub service_name: String,
    pub variables: Option<Vec<(String, String)>>,
}

/// `i` is the first label template named `name`.
pub open spec fn first_label_template(ts: Seq<LabelTemplate>, name: Seq<char>, i: int) -> bool {
    0 <= i < ts.len() && ts[i].name@ == name && forall|j: int| 0 <= j < i ==> ts[j].name@ != name
}

/// Renders the label template a request names for its service: the labels
/// of the first template of that name, filled; an error when no template
/// has the name.
pub fn render_labels(templates: &Vec<LabelTemplate>, req: &RenderLabelRequest) -> (r: Result<
    Vec<(String, String)>,
    String,
>)
    ensures
        match r {
            Ok(ls) => exists|i: int|
                first_label_template(templates@, req.template@, i) && pairs_view(ls@)
                    == filled_labels(
                    pairs_view(#[trigger] templates@[i].labels@),
                    req.service_name@,
                    crate::templates::vars_or_none(req.variables),
                ),
            Err(m) => m@ == "Label template '"@ + req.template@ + "' not found"@ && forall|j: int|
                0 <= j < templates@.len() ==> templates@[j].name@ != req.template@,
        },
{
    let nc = chars_of(req.template.as_str());
    let mut i: usize = 0;
    while i < templates.len()
        invariant
            i <= templates@.len(),
            nc@ == req.template@,
            forall|j: int| 0 <= j < i ==> templates@[j].name@ != req.template@,
        decreases templates@.len() - i,
    {
        if eq_str(nc.as_slice(), templates[i].name.as_str()) {
            let empty: Vec<(String, String)> = Vec::new();
            proof {
                assert(pairs_view(empty@) =~= Seq::<(Seq<char>, Seq<char>)>::empty());
            }
            let vars = match &req.variables {
                Some(v) => v,
                None => &empty,
            };
            let ls = fill_label_template(&templates[i].labels, req.service_name.as_str(), vars);
            proof {
                assert(first_label_template(templates@, req.template@, i as int));
            }
            return Ok(ls);
        }
        i = i + 1;
    }
    let mut m = chars_of("Label template '");
    crate::text::push_str(&mut m, req.template.as_str());
    crate::text::push_str(&mut m, "' not found");
    Err(crate::text::string_of(m.as_slice()))
}

/// The category of a loaded label template: its own when it names one,
/// else the name of the directory it was found in, else empty.
pub fn resolve_category(category: String, fallback: Option<String>) -> (r: String)
    ensures
        r@ == if category@.len() > 0 {
            category@
        } else {
            match opt_view(fallback) {
                Some(f) => f,
                None => Seq::empty(),
            }
        },
{
    if !string_is_empty(&category) {
        category
    } else {
        match fallback {
            Some(f) => f,
            None => String::new(),
        }
    }
}

/// Is the string empty.
fn string_is_empty(s: &String) -> (r: bool)
    ensures
        r == (s@.len() == 0),
{
    s.as_str().is_empty()
}

// ───── Path extensions ─────

/// What `Path::extension` returns for a path: the part of the file name
/// after its last dot, if the file name has a dot that does not start it.
pub uninterp spec fn path_extension(path: Seq<char>) -> Option<Seq<char>>;

/// A bare file name: not empty, without a separator (`/`, `\`) or a drive
/// colon, and neither `.` nor `..`, so that the whole path is its file name
/// on every platform.
pub open spec fn bare_file_name(s: Seq<char>) -> bool {
    &&& s.len() > 0
    &&& !s.contains('/')
    &&& !s.contains('\\')
    &&& !s.contains(':')
    &&& s != "."@
    &&& s != ".."@
}

/// The extension that std documents for a file name: the part after its
/// last dot, when there is a dot that does not start the name.
pub open spec fn name_extension(s: Seq<char>) -> Option<Seq<char>> {
    if s.contains('.') && last_pos(s, '.') > 0 {
        Some(s.skip(last_pos(s, '.') + 1))
    } else {
        None
    }
}

/// Calls `std::path::Path::extension` on a UTF-8 path. The contract claims
/// that the result is `path_extension` of the path, and, for a bare file
/// name, the rule std documents: the part after the last dot, unless that
/// dot starts the name or there is none. The component rules for paths with
/// separators are not restated.
#[verifier::external_body]
fn file_extension(path: &str) -> (r: Option<String>)
    ensures
        opt_view(r) == path_extension(path@),
        bare_file_name(path@) ==> opt_view(r) == name_extension(path@),
{
    std::path::Path::new(path).extension().and_then(|e| e.to_str()).map(|e| e.to_string())
}

/// A file whose extension is `yaml` or `yml`.
pub fn is_yaml_file(path: &str) -> (r: bool)
    ensures
        r == (path_extension(path@) == Some("yaml"@) || path_extension(path@) == Some("yml"@)),
        bare_file_name(path@) ==> r == (name_extension(path@) == Some("yaml"@) || name_extension(
            path@,
        ) == Some("yml"@)),
{
    match file_extension(path) {
        Some(e) => {
            let ec = chars_of(e.as_str());
            eq_str(ec.as_slice(), "yaml") || eq_str(ec.as_slice(), "yml")
        },
        None => false,
    }
}

// ───── Laws ─────

/// Map insertion keeps keys unique.
pub proof fn lemma_map_insert_unique(m: Seq<(Seq<char>, Seq<char>)>, k: Seq<char>, v: Seq<char>)
    requires
        keys_of(m).no_duplicates(),
    ensures
        keys_of(map_insert(m, k, v)).no_duplicates(),
        keys_of(map_insert(m, k, v)).contains(k),
        forall|x: Seq<char>| #[trigger]
            keys_of(map_insert(m, k, v)).contains(x) ==> x == k || keys_of(m).contains(x),
{
    let ks = keys_of(m);
    let r = map_insert(m, k, v);
    if ks.contains(k) {
        let i = first_pos(ks, k);
        lemma_first_pos(ks, k);
        assert(keys_of(r) =~= ks.update(i, k));
        assert(keys_of(r)[i] == k);
    } else {
        assert(keys_of(r) =~= ks.push(k));
        assert(keys_of(r)[ks.len() as int] == k);
    }
}

/// A filled label template never holds a key twice, and each of its keys
/// is the filled text of some key of the template.
pub proof fn law_filled_labels_map(
    labels: Seq<(Seq<char>, Seq<char>)>,
    service_name: Seq<char>,
    vars: Seq<(Seq<char>, Seq<char>)>,
)
    ensures
        keys_of(filled_labels(labels, service_name, vars)).no_duplicates(),
        forall|x: Seq<char>| #[trigger]
            keys_of(filled_labels(labels, service_name, vars)).contains(x) ==> exists|i: int|
                0 <= i < labels.len() && x == filled_label_text(labels[i].0, service_name, vars),
    decreases labels.len(),
{
    if labels.len() > 0 {
        let prev = filled_labels(labels.drop_last(), service_name, vars);
        law_filled_labels_map(labels.drop_last(), service_name, vars);
        let k = filled_label_text(labels.last().0, service_name, vars);
        let v = filled_label_text(labels.last().1, service_name, vars);
        lemma_map_insert_unique(prev, k, v);
        assert forall|x: Seq<char>| #[trigger]
            keys_of(filled_labels(labels, service_name, vars)).contains(x) implies exists|i: int|
                0 <= i < labels.len() && x == filled_label_text(labels[i].0, service_name, vars) by {
            if x == k {
                assert(x == filled_label_text(labels[labels.len() - 1].0, service_name, vars));
            } else {
                assert(keys_of(prev).contains(x));
                let i = choose|i: int|
                    0 <= i < labels.drop_last().len() && x == filled_label_text(
                        labels.drop_last()[i].0,
                        service_name,
                        vars,
                    );
                assert(labels.drop_last()[i] == labels[i]);
            }
        }
    } else {
        assert(keys_of(Seq::<(Seq<char>, Seq<char>)>::empty()) =~= Seq::<Seq<char>>::empty());
    }
}

} // verus!
