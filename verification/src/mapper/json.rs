//! JSON values, held as their JSON text, and what the `jsonpath` and
//! `serde_json` crates compute on them: the values that a JSONPath selects,
//! whether a value is `null`, and the text that a string or number stands for.

use vstd::prelude::*;

use serde_json::Value;

use crate::graph::opt_view;
use crate::text::chars_of;

verus! {

/// A JSON value, held as its JSON text. Each evaluation reads the text with
/// `serde_json`, whose reader refuses values nested more than 128 levels deep:
/// such a document selects nothing and every path on it fails to evaluate.
#[derive(Debug, Clone)]
pub struct JsonValue {
    pub text: String,
}

impl View for JsonValue {
    type V = Seq<char>;

    open spec fn view(&self) -> Seq<char> {
        self.text@
    }
}

pub open spec fn json_texts(v: Seq<JsonValue>) -> Seq<Seq<char>> {
    v.map_values(|j: JsonValue| j@)
}

/// The JSON texts of the values that the JSONPath `path` selects in the JSON
/// document `doc`, in the order in which `jsonpath` finds them, each written
/// by `serde_json`; `None` when `doc` is no JSON text that `serde_json`
/// reads or `path` no JSONPath that `jsonpath` parses.
pub uninterp spec fn jsonpath_select(path: Seq<char>, doc: Seq<char>) -> Option<Seq<Seq<char>>>;

/// JSON white space.
pub open spec fn is_json_space(c: char) -> bool {
    c == ' ' || c == '\n' || c == '\t' || c == '\r'
}

/// The JSON text `t` is `null`: white space, `null`, white space.
pub open spec fn json_null(t: Seq<char>) -> bool {
    exists|i: int|
        0 <= i && i + 4 <= t.len() && #[trigger] t.subrange(i, i + 4) == seq!['n', 'u', 'l', 'l']
            && (forall|k: int| 0 <= k < i ==> is_json_space(t[k])) && (forall|k: int|
            i + 4 <= k < t.len() ==> is_json_space(t[k]))
}

pub open spec fn is_digit(c: char) -> bool {
    '0' <= c && c <= '9'
}

/// A filter starts at `i` (`[?(`).
pub open spec fn opens_at(p: Seq<char>, i: int) -> bool {
    0 <= i && i + 3 <= p.len() && p[i] == '[' && p[i + 1] == '?' && p[i + 2] == '('
}

/// A filter from the root starts at `i` (`[?($`).
pub open spec fn root_opens_at(p: Seq<char>, i: int) -> bool {
    opens_at(p, i) && i + 4 <= p.len() && p[i + 3] == '$'
}

/// A filter ends at `j` (`)]`).
pub open spec fn closes_at(p: Seq<char>, j: int) -> bool {
    0 <= j && j + 2 <= p.len() && p[j] == ')' && p[j + 1] == ']'
}

/// The filters opened minus those closed from `i` up to `k`.
pub open spec fn balance(p: Seq<char>, i: int, k: int) -> int
    decreases k - i,
{
    if k <= i {
        0
    } else {
        balance(p, i, k - 1) + (if opens_at(p, k - 1) {
            1int
        } else {
            0int
        }) - (if closes_at(p, k - 1) {
            1int
        } else {
            0int
        })
    }
}

/// `j` is where the filter that opens at `i` ends: the first `)]` after `i`
/// at which that filter is the only one still open.
pub open spec fn closes_filter(p: Seq<char>, i: int, j: int) -> bool {
    &&& i < j
    &&& closes_at(p, j)
    &&& balance(p, i, j) == 1
    &&& forall|k: int| i < k < j && #[trigger] closes_at(p, k) ==> balance(p, i, k) != 1
}

/// Where the run of digits that ends at `j` starts.
pub open spec fn digits_start(p: Seq<char>, j: int) -> int
    decreases j,
{
    if j <= 0 || j > p.len() {
        j
    } else if is_digit(p[j - 1]) {
        digits_start(p, j - 1)
    } else {
        j
    }
}

/// Where the run of digits and points that ends at `j` starts.
pub open spec fn numeric_start(p: Seq<char>, j: int) -> int
    decreases j,
{
    if j <= 0 || j > p.len() {
        j
    } else if is_digit(p[j - 1]) || p[j - 1] == '.' {
        numeric_start(p, j - 1)
    } else {
        j
    }
}

/// Where the run of spaces that ends at `j` starts.
pub open spec fn spaces_start(p: Seq<char>, j: int) -> int
    decreases j,
{
    if j <= 0 || j > p.len() {
        j
    } else if p[j - 1] == ' ' {
        spaces_start(p, j - 1)
    } else {
        j
    }
}

/// The number that the decimal digits `ds` write.
pub open spec fn digits_value(ds: Seq<char>) -> nat
    decreases ds.len(),
{
    if ds.len() == 0 {
        0
    } else {
        digits_value(ds.drop_last()) * 10 + (ds.last() as int - 48) as nat
    }
}

/// The filter that ends at `j` compares with a whole number above
/// `i64::MAX`: a comparison (`==`, `!=`, `<`, `>`), spaces, then only
/// digits up to `)]`.
pub open spec fn oversized_number_before(p: Seq<char>, j: int) -> bool {
    let b = digits_start(p, j);
    let a = spaces_start(p, b);
    &&& b < j
    &&& a >= 1
    &&& (p[a - 1] == '=' || p[a - 1] == '<' || p[a - 1] == '>')
    &&& digits_value(p.subrange(b, j)) > i64::MAX
}

/// The filter that ends at `j` compares with `<` or `>` against a number.
pub open spec fn ordering_number_before(p: Seq<char>, j: int) -> bool {
    let b = numeric_start(p, j);
    let a = spaces_start(p, b);
    &&& b < j
    &&& a >= 1
    &&& (p[a - 1] == '<' || p[a - 1] == '>')
}

/// A path on which `jsonpath` may panic: a filter that compares with a
/// whole number above `i64::MAX`, which the crate's parser reads with
/// `unwrap`; or a filter from the root that compares with `<` or `>`
/// against a number, which the crate leaves unimplemented. The second
/// panics only where the crate evaluates that filter; it is left out here
/// for every document. On any other path the crate returns a result or an
/// error.
pub open spec fn unsupported_path(p: Seq<char>) -> bool {
    ||| exists|j: int| #[trigger] closes_at(p, j) && oversized_number_before(p, j)
    ||| exists|i: int, j: int| root_opens_at(p, i) && #[trigger] closes_filter(p, i, j) && ordering_number_before(p, j)
}

/// `Selector::new(path)` of `jsonpath`, then `find` on the document that
/// `serde_json::from_str` reads from `doc`, each value found written back by
/// `serde_json`. The crate may panic only on the paths that
/// `unsupported_path` covers. Nothing here bounds how deeply a path may nest
/// filters, which the crate's parser follows by recursion.
#[verifier::external_body]
pub(crate) fn jsonpath_find(path: &str, doc: &JsonValue) -> (r: Option<Vec<JsonValue>>)
    requires
        !unsupported_path(path@),
    ensures
        r is Some <==> jsonpath_select(path@, doc@) is Some,
        r matches Some(v) ==> json_texts(v@) == jsonpath_select(path@, doc@).unwrap(),
{
    let value: serde_json::Value = serde_json::from_str(&doc.text).ok()?;
    let selector = jsonpath::Selector::new(path).ok()?;
    Some(selector.find(&value).map(|v| JsonValue { text: v.to_string() }).collect())
}

/// What a JSON value is, with what it holds; numbers and the members of
/// arrays and objects as their JSON text.
#[derive(Debug)]
pub enum JsonKind {
    Null,
    Bool(bool),
    Number(String),
    Str(String),
    Array(Vec<JsonValue>),
    Object(Vec<(String, JsonValue)>),
}

/// What a [`JsonKind`] holds, as character sequences.
pub enum JsonKindView {
    Null,
    Bool(bool),
    Number(Seq<char>),
    Str(Seq<char>),
    Array(Seq<Seq<char>>),
    Object(Seq<(Seq<char>, Seq<char>)>),
}

impl View for JsonKind {
    type V = JsonKindView;

    open spec fn view(&self) -> JsonKindView {
        match self {
            JsonKind::Null => JsonKindView::Null,
            JsonKind::Bool(b) => JsonKindView::Bool(*b),
            JsonKind::Number(n) => JsonKindView::Number(n@),
            JsonKind::Str(s) => JsonKindView::Str(s@),
            JsonKind::Array(v) => JsonKindView::Array(v@.map_values(|j: JsonValue| j@)),
            JsonKind::Object(v) => JsonKindView::Object(
                v@.map_values(|e: (String, JsonValue)| (e.0@, e.1@)),
            ),
        }
    }
}

pub open spec fn opt_kind(o: Option<JsonKind>) -> Option<JsonKindView> {
    match o {
        Some(k) => Some(k@),
        None => None,
    }
}

/// What `serde_json` reads from the JSON text `t`; `None` when it reads no
/// JSON value.
pub uninterp spec fn json_read(t: Seq<char>) -> Option<JsonKindView>;

/// The number that the JSON number text `t` writes, read by `serde_json`,
/// taken as a 64-bit float and written by `to_string`; `None` when `t` is
/// no JSON number.
pub uninterp spec fn float_text(t: Seq<char>) -> Option<Seq<char>>;

/// `serde_json::from_str` on the text, one arm per variant of
/// `serde_json::Value`: a number and the members of an array or object are
/// written back as JSON text. The reader skips JSON white space, so the
/// value is `null` exactly when the text is `null` between white space.
#[verifier::external_body]
pub(crate) fn json_kind(value: &JsonValue) -> (r: Option<JsonKind>)
    ensures
        opt_kind(r) == json_read(value@),
        r matches Some(JsonKind::Null) <==> json_null(value@),
{
    let text = |v: Value| JsonValue { text: v.to_string() };
    match serde_json::from_str(&value.text) {
        Err(_) => None,
        Ok(Value::Null) => Some(JsonKind::Null),
        Ok(Value::Bool(b)) => Some(JsonKind::Bool(b)),
        Ok(Value::Number(n)) => Some(JsonKind::Number(n.to_string())),
        Ok(Value::String(s)) => Some(JsonKind::Str(s)),
        Ok(Value::Array(a)) => Some(JsonKind::Array(a.into_iter().map(text).collect())),
        Ok(Value::Object(m)) => Some(JsonKind::Object(m.into_iter().map(|(k, v)| (k, text(v))).collect())),
    }
}

/// `serde_json::from_str` reading a `Number`, then `Number::as_f64`, written
/// by `to_string`.
#[verifier::external_body]
pub(crate) fn number_float(number: &str) -> (r: Option<String>)
    ensures
        opt_view(r) == float_text(number@),
{
    serde_json::from_str::<serde_json::Number>(number).ok().and_then(|n| n.as_f64()).map(|x| x.to_string())
}

/// The text that a JSON value stands for in a label: the content of a
/// string, or a number written as a 64-bit float; `null`, booleans, arrays
/// and objects stand for none, and neither does what is no JSON text.
pub open spec fn label_text_of(t: Seq<char>) -> Option<Seq<char>> {
    match json_read(t) {
        Some(JsonKindView::Str(s)) => Some(s),
        Some(JsonKindView::Number(n)) => float_text(n),
        _ => None,
    }
}

/// The text that `value` stands for in a label.
pub fn label_text(value: &JsonValue) -> (r: Option<String>)
    ensures
        opt_view(r) == label_text_of(value@),
{
    match json_kind(value) {
        Some(JsonKind::Str(s)) => Some(s),
        Some(JsonKind::Number(n)) => number_float(n.as_str()),
        _ => None,
    }
}

/// Whether `value` is `null`.
pub fn is_null_value(value: &JsonValue) -> (r: bool)
    ensures
        r == json_null(value@),
{
    match json_kind(value) {
        Some(JsonKind::Null) => true,
        _ => false,
    }
}

fn opens_at_exec(v: &Vec<char>, i: usize) -> (r: bool)
    ensures
        r == opens_at(v@, i as int),
{
    i < v.len() && v.len() - i >= 3 && v[i] == '[' && v[i + 1] == '?' && v[i + 2] == '('
}

fn closes_at_exec(v: &Vec<char>, j: usize) -> (r: bool)
    ensures
        r == closes_at(v@, j as int),
{
    j < v.len() && v.len() - j >= 2 && v[j] == ')' && v[j + 1] == ']'
}

fn digits_start_exec(v: &Vec<char>, j: usize) -> (b: usize)
    requires
        j <= v.len(),
    ensures
        b as int == digits_start(v@, j as int),
        b <= j,
        forall|k: int| b <= k < j ==> is_digit(#[trigger] v@[k]),
{
    let mut b = j;
    while b > 0 && '0' <= v[b - 1] && v[b - 1] <= '9'
        invariant
            b <= j <= v.len(),
            digits_start(v@, b as int) == digits_start(v@, j as int),
            forall|k: int| b <= k < j ==> is_digit(#[trigger] v@[k]),
        decreases b,
    {
        b = b - 1;
    }
    b
}

fn numeric_start_exec(v: &Vec<char>, j: usize) -> (b: usize)
    requires
        j <= v.len(),
    ensures
        b as int == numeric_start(v@, j as int),
        b <= j,
{
    let mut b = j;
    while b > 0 && (('0' <= v[b - 1] && v[b - 1] <= '9') || v[b - 1] == '.')
        invariant
            b <= j <= v.len(),
            numeric_start(v@, b as int) == numeric_start(v@, j as int),
        decreases b,
    {
        b = b - 1;
    }
    b
}

fn spaces_start_exec(v: &Vec<char>, j: usize) -> (b: usize)
    requires
        j <= v.len(),
    ensures
        b as int == spaces_start(v@, j as int),
        b <= j,
{
    let mut b = j;
    while b > 0 && v[b - 1] == ' '
        invariant
            b <= j <= v.len(),
            spaces_start(v@, b as int) == spaces_start(v@, j as int),
        decreases b,
    {
        b = b - 1;
    }
    b
}

/// Whether the digits of `v` from `b` to `j` write a number above `i64::MAX`.
fn digits_exceed_i64(v: &Vec<char>, b: usize, j: usize) -> (r: bool)
    requires
        b <= j <= v.len(),
        forall|k: int| b <= k < j ==> is_digit(#[trigger] v@[k]),
    ensures
        r == (digits_value(v@.subrange(b as int, j as int)) > i64::MAX),
{
    let cap: u128 = 9223372036854775808;
    let mut val: u128 = 0;
    let mut k = b;
    assert(v@.subrange(b as int, b as int) =~= Seq::<char>::empty());
    while k < j
        invariant
            b <= k <= j <= v.len(),
            cap == 9223372036854775808,
            forall|k: int| b <= k < j ==> is_digit(#[trigger] v@[k]),
            val <= cap,
            val == (if digits_value(v@.subrange(b as int, k as int)) < cap {
                digits_value(v@.subrange(b as int, k as int)) as int
            } else {
                cap as int
            }),
        decreases j - k,
    {
        let ghost before = digits_value(v@.subrange(b as int, k as int));
        assert(v@.subrange(b as int, k + 1).drop_last() =~= v@.subrange(b as int, k as int));
        assert(v@.subrange(b as int, k + 1).last() == v@[k as int]);
        assert(is_digit(v@[k as int]));
        let d = (v[k] as u32 - 48) as u128;
        assert(d as int == v@[k as int] as int - 48);
        assert(digits_value(v@.subrange(b as int, k + 1)) == before * 10 + d);
        let next = val * 10 + d;
        if next >= cap {
            val = cap;
        } else {
            val = next;
        }
        k = k + 1;
    }
    val == cap
}

/// Whether the filter that ends at `j` compares with a number above `i64::MAX`.
fn oversized_number_exec(v: &Vec<char>, j: usize) -> (r: bool)
    requires
        j <= v.len(),
    ensures
        r == oversized_number_before(v@, j as int),
{
    let b = digits_start_exec(v, j);
    if b == j {
        return false;
    }
    let a = spaces_start_exec(v, b);
    if a == 0 {
        return false;
    }
    let c = v[a - 1];
    if !(c == '=' || c == '<' || c == '>') {
        return false;
    }
    digits_exceed_i64(v, b, j)
}

/// Whether the filter that ends at `j` compares with `<` or `>` against a number.
fn ordering_number_exec(v: &Vec<char>, j: usize) -> (r: bool)
    requires
        j <= v.len(),
    ensures
        r == ordering_number_before(v@, j as int),
{
    let b = numeric_start_exec(v, j);
    if b == j {
        return false;
    }
    let a = spaces_start_exec(v, b);
    if a == 0 {
        return false;
    }
    v[a - 1] == '<' || v[a - 1] == '>'
}

proof fn lemma_filter_end_unique(p: Seq<char>, i: int, j1: int, j2: int)
    requires
        closes_filter(p, i, j1),
        closes_filter(p, i, j2),
    ensures
        j1 == j2,
{
    if j1 < j2 {
        assert(closes_at(p, j1));
    } else if j2 < j1 {
        assert(closes_at(p, j2));
    }
}

/// Where the filter that opens at `i` ends, if it does.
fn filter_end(v: &Vec<char>, i: usize) -> (r: Option<usize>)
    requires
        opens_at(v@, i as int),
    ensures
        r matches Some(j) ==> closes_filter(v@, i as int, j as int) && j < v.len(),
        r is None ==> forall|j: int| !closes_filter(v@, i as int, j),
{
    let mut opens: usize = 0;
    let mut closes: usize = 0;
    let mut k = i;
    while k < v.len()
        invariant
            i <= k <= v.len(),
            opens <= k - i,
            closes <= k - i,
            opens - closes == balance(v@, i as int, k as int),
            forall|m: int| i < m < k && #[trigger] closes_at(v@, m) ==> balance(v@, i as int, m) != 1,
        decreases v.len() - k,
    {
        let c = closes_at_exec(v, k);
        if c && k > i && opens == closes + 1 {
            return Some(k);
        }
        if opens_at_exec(v, k) {
            opens = opens + 1;
        }
        if c {
            closes = closes + 1;
        }
        k = k + 1;
    }
    proof {
        assert forall|j: int| !closes_filter(v@, i as int, j) by {
            if closes_filter(v@, i as int, j) {
                assert(closes_at(v@, j));
            }
        }
    }
    None
}

/// Whether some filter compares with a number above `i64::MAX`.
fn has_oversized_number(v: &Vec<char>) -> (r: bool)
    ensures
        r == exists|j: int| #[trigger] closes_at(v@, j) && oversized_number_before(v@, j),
{
    let mut j: usize = 0;
    while j < v.len()
        invariant
            j <= v.len(),
            forall|m: int| 0 <= m < j && #[trigger] closes_at(v@, m) ==> !oversized_number_before(v@, m),
        decreases v.len() - j,
    {
        if closes_at_exec(v, j) && oversized_number_exec(v, j) {
            return true;
        }
        j = j + 1;
    }
    proof {
        assert forall|m: int| #[trigger] closes_at(v@, m) implies !oversized_number_before(v@, m) by {
            assert(m < v.len());
        }
    }
    false
}

/// Whether some filter from the root compares with `<` or `>` against a number.
fn has_root_ordering(v: &Vec<char>) -> (r: bool)
    ensures
        r == exists|i: int, j: int|
            root_opens_at(v@, i) && #[trigger] closes_filter(v@, i, j) && ordering_number_before(v@, j),
{
    let mut i: usize = 0;
    while i < v.len()
        invariant
            i <= v.len(),
            forall|m: int, j: int|
                0 <= m < i && root_opens_at(v@, m) && #[trigger] closes_filter(v@, m, j)
                    ==> !ordering_number_before(v@, j),
        decreases v.len() - i,
    {
        if opens_at_exec(v, i) && v.len() - i >= 4 && v[i + 3] == '$' {
            match filter_end(v, i) {
                Some(j) => {
                    if ordering_number_exec(v, j) {
                        return true;
                    }
                    proof {
                        assert forall|j2: int| #[trigger] closes_filter(v@, i as int, j2) implies !ordering_number_before(v@, j2) by {
                            lemma_filter_end_unique(v@, i as int, j as int, j2);
                        }
                    }
                },
                None => {},
            }
        }
        i = i + 1;
    }
    proof {
        assert forall|m: int, j: int|
            root_opens_at(v@, m) && #[trigger] closes_filter(v@, m, j) implies !ordering_number_before(v@, j) by {
            assert(m < v.len());
        }
    }
    false
}

/// Whether `path` is one on which `jsonpath` may panic.
pub fn is_unsupported_path(path: &str) -> (r: bool)
    ensures
        r == unsupported_path(path@),
{
    let v = chars_of(path);
    has_oversized_number(&v) || has_root_ordering(&v)
}

/// The single value among `found`, unless it is `null`.
pub open spec fn single_value(found: Seq<Seq<char>>) -> Option<Seq<char>> {
    if found.len() != 1 {
        None
    } else if json_null(found[0]) {
        None
    } else {
        Some(found[0])
    }
}

/// A single value is whatever is found, provided exactly one value is found
/// and it is not `null`: a boolean, number, string, array or object found
/// alone is given back as it is, and nothing else is given back.
pub proof fn law_single_value(found: Seq<Seq<char>>)
    ensures
        single_value(found) matches Some(v) ==> found == seq![v] && !json_null(v),
        single_value(found) is None <==> (found.len() != 1 || json_null(found[0])),
        found.len() == 1 && !json_null(found[0]) ==> single_value(found) == Some(found[0]),
{
    if found.len() == 1 {
        assert(found =~= seq![found[0]]);
    }
}

pub open spec fn opt_json(o: Option<JsonValue>) -> Option<Seq<char>> {
    match o {
        Some(j) => Some(j@),
        None => None,
    }
}

/// The value that `path` selects in `doc` when it selects exactly one
/// value and that value is not `null`.
///
/// Paths that `unsupported_path` covers are left out; for a filter from the
/// root comparing with `<` or `>` against a number that holds on every
/// document, though `jsonpath` panics only where it evaluates that filter.
pub fn get_one(doc: &JsonValue, path: &str) -> (r: Option<JsonValue>)
    requires
        !unsupported_path(path@),
        jsonpath_select(path@, doc@) is Some,
    ensures
        opt_json(r) == single_value(jsonpath_select(path@, doc@).unwrap()),
{
    let results = match jsonpath_find(path, doc) {
        Some(v) => v,
        None => {
            assert(false);
            return None;
        },
    };
    assert(json_texts(results@).len() == results@.len());
    if results.len() != 1 {
        return None;
    }
    assert(json_texts(results@)[0] == results@[0]@);
    if is_null_value(&results[0]) {
        return None;
    }
    Some(JsonValue { text: results[0].text.clone() })
}

/// `get_one` for any path and document: `None` where `get_one` cannot
/// evaluate the path, otherwise what it returns.
pub fn try_get_one(doc: &JsonValue, path: &str) -> (r: Option<Option<JsonValue>>)
    ensures
        r is Some <==> !unsupported_path(path@) && jsonpath_select(path@, doc@) is Some,
        r matches Some(o) ==> opt_json(o) == single_value(jsonpath_select(path@, doc@).unwrap()),
{
    if is_unsupported_path(path) {
        return None;
    }
    match jsonpath_find(path, doc) {
        None => None,
        Some(_) => Some(get_one(doc, path)),
    }
}

} // verus!
