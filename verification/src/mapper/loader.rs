//! Label templates and the mapping that turns a JSON document into triples.
//!
//! A label template is text with up to three placeholders `{{path}}`, each
//! holding a JSONPath. The regular expression of the template splits a label
//! into pieces; a label expands into every combination of the pieces, where
//! text stands for itself and a placeholder for each string or number that
//! its path selects in the document.

use vstd::prelude::*;
use vstd::string::*;

use crate::graph::opt_view;
use crate::mapper::json::{
    is_unsupported_path, json_texts, label_text, label_text_of, jsonpath_find, jsonpath_select,
    unsupported_path, JsonValue,
};
use crate::text::chars_of;

pub use crate::mapper::mapping::{Item, Mapper, Object, Predicate};

verus! {

#[verifier::external_type_specification]
#[verifier::external_body]
pub struct ExRegexError(regex::Error);

/// The pattern of a text piece of a label.
pub const PATTERN_TEXT: &'static str = r"([a-zA-Z0-9#$.\\/:?&_-]*)*";

/// The pattern of a placeholder piece of a label.
pub const PATTERN_JSON_PATH: &'static str = r"(\{\{[a-zA-Z$@.-_'/()= \*]*\}\})*";

/// The regular expression that splits a label: text, placeholder, text,
/// placeholder, text, placeholder, text.
pub open spec fn label_pattern() -> Seq<char> {
    PATTERN_TEXT@ + PATTERN_JSON_PATH@ + PATTERN_TEXT@ + PATTERN_JSON_PATH@ + PATTERN_TEXT@
        + PATTERN_JSON_PATH@ + PATTERN_TEXT@
}

/// Whether `regex` compiles `pattern`.
pub uninterp spec fn regex_compiles(pattern: Seq<char>) -> bool;

/// The capture groups of the leftmost match of `pattern` in `text`, as
/// `regex` finds them (group 0, the whole match, first; `None` for a group
/// that took no part in the match); `None` when there is no match.
pub uninterp spec fn regex_capture_groups(pattern: Seq<char>, text: Seq<char>) -> Option<Seq<Option<Seq<char>>>>;

pub open spec fn groups_view(c: Option<Vec<Option<String>>>) -> Option<Seq<Option<Seq<char>>>> {
    match c {
        Some(v) => Some(v@.map_values(|o: Option<String>| opt_view(o))),
        None => None,
    }
}

/// `Regex::new(pattern)` of `regex`, then `captures(text)`, each group
/// taken as its text.
#[verifier::external_body]
fn regex_captures(pattern: &str, text: &str) -> (r: Result<Option<Vec<Option<String>>>, regex::Error>)
    ensures
        r is Ok <==> regex_compiles(pattern@),
        r matches Ok(c) ==> groups_view(c) == regex_capture_groups(pattern@, text@),
{
    let re = regex::Regex::new(pattern)?;
    Ok(re.captures(text).map(|caps| caps.iter().map(|m| m.map(|m| m.as_str().to_string())).collect()))
}

pub open spec fn strings(v: Seq<String>) -> Seq<Seq<char>> {
    v.map_values(|s: String| s@)
}

pub open spec fn opt_strings(o: Option<Vec<String>>) -> Option<Seq<Seq<char>>> {
    match o {
        Some(v) => Some(strings(v@)),
        None => None,
    }
}

/// A piece of the form `{{...}}`.
pub open spec fn is_placeholder(c: Seq<char>) -> bool {
    &&& c.len() >= 2
    &&& c[0] == '{'
    &&& c[1] == '{'
    &&& c[c.len() - 2] == '}'
    &&& c[c.len() - 1] == '}'
}

/// The JSONPath inside a placeholder.
pub open spec fn placeholder_path(c: Seq<char>) -> Seq<char> {
    c.subrange(2, c.len() - 2)
}

/// The label texts of the values found, in order, leaving out the values
/// that are neither strings nor numbers.
pub open spec fn label_texts(found: Seq<Seq<char>>) -> Seq<Seq<char>>
    decreases found.len(),
{
    if found.len() == 0 {
        Seq::empty()
    } else {
        let prev = label_texts(found.drop_last());
        match label_text_of(found.last()) {
            Some(t) => prev.push(t),
            None => prev,
        }
    }
}

/// What a piece of a label stands for in `doc`: a text piece for itself, a
/// placeholder for the label texts of what its path selects; `None` when
/// the path cannot be evaluated.
pub open spec fn piece_choices(c: Seq<char>, doc: Seq<char>) -> Option<Seq<Seq<char>>> {
    if is_placeholder(c) {
        let p = placeholder_path(c);
        if unsupported_path(p) {
            None
        } else {
            match jsonpath_select(p, doc) {
                Some(found) => Some(label_texts(found)),
                None => None,
            }
        }
    } else {
        Some(seq![c])
    }
}

/// `r` followed by each of `choices`.
pub open spec fn prefixed(r: Seq<char>, choices: Seq<Seq<char>>) -> Seq<Seq<char>> {
    Seq::new(choices.len(), |k: int| r + choices[k])
}

/// Each of `prev` followed by each of `choices`, `prev` varying slowest.
pub open spec fn append_each(prev: Seq<Seq<char>>, choices: Seq<Seq<char>>) -> Seq<Seq<char>>
    decreases prev.len(),
{
    if prev.len() == 0 {
        Seq::empty()
    } else {
        append_each(prev.drop_last(), choices) + prefixed(prev.last(), choices)
    }
}

/// The labels that the pieces make, starting from the empty label; a group
/// that took no part in the match adds nothing.
pub open spec fn expand_pieces(pieces: Seq<Option<Seq<char>>>, doc: Seq<char>) -> Option<Seq<Seq<char>>>
    decreases pieces.len(),
{
    if pieces.len() == 0 {
        Some(seq![Seq::<char>::empty()])
    } else {
        match expand_pieces(pieces.drop_last(), doc) {
            None => None,
            Some(prev) => match pieces.last() {
                None => Some(prev),
                Some(c) => match piece_choices(c, doc) {
                    None => None,
                    Some(choices) => Some(append_each(prev, choices)),
                },
            },
        }
    }
}

/// The labels that the capture groups make (group 0, the whole match, is
/// left out).
pub open spec fn expand_groups(groups: Seq<Option<Seq<char>>>, doc: Seq<char>) -> Option<Seq<Seq<char>>> {
    if groups.len() == 0 {
        Some(seq![Seq::<char>::empty()])
    } else {
        expand_pieces(groups.drop_first(), doc)
    }
}

/// The labels that `label` expands to in `doc`: the label itself when the
/// pattern does not match it; `None` when the pattern does not compile or a
/// placeholder's path cannot be evaluated.
pub open spec fn label_expansion(label: Seq<char>, doc: Seq<char>) -> Option<Seq<Seq<char>>> {
    if !regex_compiles(label_pattern()) {
        None
    } else {
        match regex_capture_groups(label_pattern(), label) {
            None => Some(seq![label]),
            Some(groups) => expand_groups(groups, doc),
        }
    }
}

/// A label made of `prev` and a piece with `choices` has one label per
/// pair of a label of `prev` and a choice.
pub proof fn law_append_each_len(prev: Seq<Seq<char>>, choices: Seq<Seq<char>>)
    ensures
        append_each(prev, choices).len() == prev.len() * choices.len(),
    decreases prev.len(),
{
    if prev.len() > 0 {
        law_append_each_len(prev.drop_last(), choices);
        assert(prev.len() * choices.len() == (prev.len() - 1) * choices.len() + choices.len())
            by (nonlinear_arith);
    }
}

/// The text of the pieces that took part in a match, one after another.
pub open spec fn joined(pieces: Seq<Option<Seq<char>>>) -> Seq<char>
    decreases pieces.len(),
{
    if pieces.len() == 0 {
        Seq::empty()
    } else {
        match pieces.last() {
            Some(c) => joined(pieces.drop_last()) + c,
            None => joined(pieces.drop_last()),
        }
    }
}

/// Pieces without placeholder make exactly one label: their text joined.
pub proof fn law_plain_pieces(pieces: Seq<Option<Seq<char>>>, doc: Seq<char>)
    requires
        forall|i: int| 0 <= i < pieces.len() ==> (#[trigger] pieces[i] matches Some(c) ==> !is_placeholder(c)),
    ensures
        expand_pieces(pieces, doc) == Some(seq![joined(pieces)]),
    decreases pieces.len(),
{
    if pieces.len() > 0 {
        let init = pieces.drop_last();
        assert forall|i: int| 0 <= i < init.len() implies (#[trigger] init[i] matches Some(c) ==> !is_placeholder(c)) by {
            assert(init[i] == pieces[i]);
        }
        law_plain_pieces(init, doc);
        assert(pieces.last() == pieces[pieces.len() - 1]);
        match pieces.last() {
            Some(c) => {
                let prev = seq![joined(init)];
                assert(prev.drop_last() =~= Seq::<Seq<char>>::empty());
                assert(append_each(prev.drop_last(), seq![c]) == Seq::<Seq<char>>::empty());
                assert(prefixed(joined(init), seq![c]) =~= seq![joined(init) + c]);
                assert(append_each(prev, seq![c]) =~= seq![joined(init) + c]);
            },
            None => {},
        }
    }
}

/// Each of `labels` followed by the text `t`.
pub open spec fn append_to_all(labels: Seq<Seq<char>>, t: Seq<char>) -> Seq<Seq<char>> {
    labels.map_values(|r: Seq<char>| r + t)
}

proof fn lemma_append_single(prev: Seq<Seq<char>>, t: Seq<char>)
    ensures
        append_each(prev, seq![t]) == append_to_all(prev, t),
    decreases prev.len(),
{
    if prev.len() == 0 {
        assert(append_to_all(prev, t) =~= Seq::<Seq<char>>::empty());
    } else {
        lemma_append_single(prev.drop_last(), t);
        assert(prefixed(prev.last(), seq![t]) =~= seq![prev.last() + t]);
        assert(append_to_all(prev, t) =~= append_to_all(prev.drop_last(), t) + seq![prev.last() + t]);
    }
}

/// Every capture group after the whole match counts, the last one too: a
/// text group after the others adds its text to the end of each label
/// that they make.
pub proof fn law_trailing_text_group(groups: Seq<Option<Seq<char>>>, t: Seq<char>, doc: Seq<char>)
    requires
        groups.len() >= 1,
        !is_placeholder(t),
    ensures
        expand_groups(groups.push(Some(t)), doc) == (match expand_groups(groups, doc) {
            None => None,
            Some(labels) => Some(append_to_all(labels, t)),
        }),
{
    let pieces = groups.drop_first();
    assert(groups.push(Some(t)).drop_first() =~= pieces.push(Some(t)));
    assert(pieces.push(Some(t)).drop_last() =~= pieces);
    match expand_pieces(pieces, doc) {
        None => {},
        Some(prev) => {
            lemma_append_single(prev, t);
        },
    }
}

/// Capture groups without placeholder (after the whole match) make exactly
/// one label: the text of all of them, the last one included, joined.
pub proof fn law_plain_groups(groups: Seq<Option<Seq<char>>>, doc: Seq<char>)
    requires
        groups.len() >= 1,
        forall|i: int| 1 <= i < groups.len() ==> (#[trigger] groups[i] matches Some(c) ==> !is_placeholder(c)),
    ensures
        expand_groups(groups, doc) == Some(seq![joined(groups.drop_first())]),
{
    let pieces = groups.drop_first();
    assert forall|i: int| 0 <= i < pieces.len() implies (#[trigger] pieces[i] matches Some(c) ==> !is_placeholder(c)) by {
        assert(pieces[i] == groups[i + 1]);
    }
    law_plain_pieces(pieces, doc);
}

/// Once the labels made so far are none (a placeholder selected nothing that
/// stands for text), the pieces make no label at all.
pub proof fn law_no_label_stays_none(pieces: Seq<Option<Seq<char>>>, k: int, doc: Seq<char>)
    requires
        0 <= k <= pieces.len(),
        expand_pieces(pieces.take(k), doc) == Some(Seq::<Seq<char>>::empty()),
    ensures
        expand_pieces(pieces, doc) is None || expand_pieces(pieces, doc) == Some(Seq::<Seq<char>>::empty()),
    decreases pieces.len() - k,
{
    if k < pieces.len() {
        assert(pieces.take(k + 1).drop_last() =~= pieces.take(k));
        let e = expand_pieces(pieces.take(k + 1), doc);
        if e is Some {
            assert(append_each(Seq::<Seq<char>>::empty(), Seq::<Seq<char>>::empty()) == Seq::<Seq<char>>::empty());
            match pieces.take(k + 1).last() {
                None => {},
                Some(c) => {
                    let ch = piece_choices(c, doc).unwrap();
                    assert(append_each(Seq::<Seq<char>>::empty(), ch) == Seq::<Seq<char>>::empty());
                },
            }
            law_no_label_stays_none(pieces, k + 1, doc);
        } else {
            lemma_expand_failure_persists(pieces, k + 1, doc);
        }
    } else {
        assert(pieces.take(k) =~= pieces);
    }
}

proof fn lemma_expand_failure_persists(pieces: Seq<Option<Seq<char>>>, k: int, doc: Seq<char>)
    requires
        0 <= k <= pieces.len(),
        expand_pieces(pieces.take(k), doc) is None,
    ensures
        expand_pieces(pieces, doc) is None,
    decreases pieces.len() - k,
{
    if k < pieces.len() {
        assert(pieces.take(k + 1).drop_last() =~= pieces.take(k));
        lemma_expand_failure_persists(pieces, k + 1, doc);
    } else {
        assert(pieces.take(k) =~= pieces);
    }
}

/// The regular expression that splits a label.
fn label_pattern_string() -> (r: String)
    ensures
        r@ == label_pattern(),
{
    let pattern_text = PATTERN_TEXT;
    let pattern_json_path = PATTERN_JSON_PATH;
    let mut expression = String::from_str(pattern_text);
    expression.append(pattern_json_path);
    expression.append(pattern_text);
    expression.append(pattern_json_path);
    expression.append(pattern_text);
    expression.append(pattern_json_path);
    expression.append(pattern_text);
    expression
}

/// Each of `prev` followed by each of `choices`.
fn append_each_exec(prev: &Vec<String>, choices: &Vec<String>) -> (r: Vec<String>)
    ensures
        strings(r@) == append_each(strings(prev@), strings(choices@)),
{
    let ghost p = strings(prev@);
    let ghost ch = strings(choices@);
    let mut out: Vec<String> = Vec::new();
    let mut i: usize = 0;
    while i < prev.len()
        invariant
            i <= prev.len(),
            p == strings(prev@),
            ch == strings(choices@),
            strings(out@) == append_each(p.take(i as int), ch),
        decreases prev.len() - i,
    {
        let mut j: usize = 0;
        while j < choices.len()
            invariant
                i < prev.len(),
                j <= choices.len(),
                p == strings(prev@),
                ch == strings(choices@),
                strings(out@) == append_each(p.take(i as int), ch) + prefixed(p[i as int], ch.take(j as int)),
            decreases choices.len() - j,
        {
            let mut s = prev[i].clone();
            s.append(choices[j].as_str());
            let ghost before = strings(out@);
            out.push(s);
            assert(strings(out@) =~= before.push(s@));
            assert(prefixed(p[i as int], ch.take(j + 1)) =~= prefixed(p[i as int], ch.take(j as int)).push(
                p[i as int] + ch[j as int],
            ));
            j = j + 1;
        }
        assert(ch.take(choices.len() as int) =~= ch);
        assert(p.take(i + 1).drop_last() =~= p.take(i as int));
        assert(p.take(i + 1).last() == p[i as int]);
        i = i + 1;
    }
    assert(p.take(prev.len() as int) =~= p);
    out
}

/// The label texts of the values found.
fn label_texts_exec(found: &Vec<JsonValue>) -> (r: Vec<String>)
    ensures
        strings(r@) == label_texts(json_texts(found@)),
{
    let ghost f = json_texts(found@);
    let mut out: Vec<String> = Vec::new();
    let mut i: usize = 0;
    while i < found.len()
        invariant
            i <= found.len(),
            f == json_texts(found@),
            strings(out@) == label_texts(f.take(i as int)),
        decreases found.len() - i,
    {
        assert(f.take(i + 1).drop_last() =~= f.take(i as int));
        assert(f.take(i + 1).last() == found@[i as int]@);
        match label_text(&found[i]) {
            Some(t) => {
                let ghost before = strings(out@);
                out.push(t);
                assert(strings(out@) =~= before.push(t@));
            },
            None => {},
        }
        i = i + 1;
    }
    assert(f.take(found.len() as int) =~= f);
    out
}

/// What the piece `c` stands for in `doc`.
fn piece_choices_exec(c: &str, doc: &JsonValue) -> (r: Option<Vec<String>>)
    ensures
        opt_strings(r) == piece_choices(c@, doc@),
{
    let v = chars_of(c);
    let n = v.len();
    if n >= 2 && v[0] == '{' && v[1] == '{' && v[n - 2] == '}' && v[n - 1] == '}' {
        assert(n >= 4);
        let path = c.substring_char(2, n - 2);
        if is_unsupported_path(path) {
            return None;
        }
        match jsonpath_find(path, doc) {
            None => None,
            Some(found) => Some(label_texts_exec(&found)),
        }
    } else {
        let mut one: Vec<String> = Vec::new();
        one.push(String::from_str(c));
        assert(strings(one@) =~= seq![c@]);
        Some(one)
    }
}

/// The labels that the capture groups make.
fn expand_groups_exec(groups: &Vec<Option<String>>, doc: &JsonValue) -> (r: Option<Vec<String>>)
    ensures
        opt_strings(r) == expand_groups(groups@.map_values(|o: Option<String>| opt_view(o)), doc@),
{
    let ghost gv = groups@.map_values(|o: Option<String>| opt_view(o));
    let mut results: Vec<String> = Vec::new();
    results.push(String::new());
    assert(strings(results@) =~= seq![Seq::<char>::empty()]);
    if groups.len() == 0 {
        return Some(results);
    }
    let ghost pieces = gv.drop_first();
    let mut i: usize = 1;
    while i < groups.len()
        invariant
            1 <= i <= groups.len(),
            gv == groups@.map_values(|o: Option<String>| opt_view(o)),
            pieces == gv.drop_first(),
            expand_pieces(pieces.take(i - 1), doc@) == Some(strings(results@)),
        decreases groups.len() - i,
    {
        assert(pieces.take(i as int).drop_last() =~= pieces.take(i - 1));
        assert(pieces.take(i as int).last() == gv[i as int]);
        match &groups[i] {
            None => {},
            Some(c) => {
                match piece_choices_exec(c.as_str(), doc) {
                    None => {
                        proof {
                            lemma_expand_failure_persists(pieces, i as int, doc@);
                        }
                        return None;
                    },
                    Some(choices) => {
                        results = append_each_exec(&results, &choices);
                    },
                }
            },
        }
        i = i + 1;
    }
    assert(pieces.take(groups.len() - 1) =~= pieces);
    Some(results)
}

/// The labels that `label` expands to in `document`; `None` where the
/// expansion cannot be made.
fn expand_label(label: &str, document: &JsonValue) -> (r: Option<Vec<String>>)
    ensures
        opt_strings(r) == label_expansion(label@, document@),
{
    let expression = label_pattern_string();
    match regex_captures(expression.as_str(), label) {
        Err(_) => None,
        Ok(None) => {
            let mut one: Vec<String> = Vec::new();
            one.push(String::from_str(label));
            assert(strings(one@) =~= seq![label@]);
            Some(one)
        },
        Ok(Some(groups)) => expand_groups_exec(&groups, document),
    }
}

/// The labels that the template `label` expands to in `document`: each
/// combination of its pieces, text standing for itself and a placeholder
/// for each string or number that its path selects.
pub fn parse_label(label: &str, document: &JsonValue) -> (r: Vec<String>)
    requires
        label_expansion(label@, document@) is Some,
    ensures
        strings(r@) == label_expansion(label@, document@).unwrap(),
{
    match expand_label(label, document) {
        Some(v) => v,
        None => {
            assert(false);
            Vec::new()
        },
    }
}

/// `parse_label` for any label and document: `None` where the expansion
/// cannot be made, otherwise the labels.
pub fn try_parse_label(label: &str, document: &JsonValue) -> (r: Option<Vec<String>>)
    ensures
        opt_strings(r) == label_expansion(label@, document@),
{
    match expand_label(label, document) {
        Some(_) => Some(parse_label(label, document)),
        None => None,
    }
}

} // verus!
