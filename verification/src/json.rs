//! JSON: values the library builds itself, and queries into JSON texts that
//! the `serde_json` crate parses.
use vstd::prelude::*;
use crate::text::views;
use serde_json::Value;
use std::str::FromStr;
use jsonpath_rust::JsonPath;
use serde_json::Value::{Null, Bool, Number, Array, Object};

verus! {

/// `serde_json::Value`, held opaquely.
#[verifier::external_type_specification]
#[verifier::external_body]
pub struct ExJsonValue(serde_json::Value);

/// `serde_json::Value::clone` (derived): the copy equals the original.
pub assume_specification[ <serde_json::Value as Clone>::clone ](v: &serde_json::Value) -> (r: serde_json::Value)
    ensures
        r == *v,
;

/// A JSON value built by the library (numbers are held as their JSON text).
#[derive(Debug)]
pub enum JsonValue {
    Null,
    Bool(bool),
    Number(String),
    Str(String),
    Array(Vec<JsonValue>),
    Object(Vec<(String, JsonValue)>),
}

/// One step into a JSON value: `Value::get` with a key or with an index.
#[derive(Debug)]
pub enum JsonStep {
    Key(String),
    Index(usize),
}

impl Clone for JsonStep {
    /// An equal step.
    fn clone(&self) -> (r: Self)
        ensures
            r == *self,
    {
        match self {
            JsonStep::Key(k) => JsonStep::Key(k.clone()),
            JsonStep::Index(i) => JsonStep::Index(*i),
        }
    }
}

/// The kinds of JSON values.
#[derive(Debug, Clone, Copy, PartialEq, Eq, Structural)]
pub enum JsonKind {
    Null,
    Bool,
    Number,
    Str,
    Array,
    Object,
}

/// What a query reached: its kind; for a string its contents, for anything
/// else its compact JSON text (`Value::to_string`); and for an array its
/// number of elements (zero otherwise).
#[derive(Debug, Clone)]
pub struct JsonLeaf {
    pub kind: JsonKind,
    pub text: String,
    pub len: usize,
}

/// A step as plain values.
pub open spec fn step_view(s: JsonStep) -> (bool, Seq<char>, nat) {
    match s {
        JsonStep::Key(k) => (true, k@, 0),
        JsonStep::Index(i) => (false, Seq::empty(), i as nat),
    }
}

/// A query (a list of steps) as plain values.
pub open spec fn query_view(q: Vec<JsonStep>) -> Seq<(bool, Seq<char>, nat)> {
    q@.map_values(|s: JsonStep| step_view(s))
}

/// A leaf as plain values.
pub open spec fn leaf_view(l: JsonLeaf) -> (JsonKind, Seq<char>, nat) {
    (l.kind, l.text@, l.len as nat)
}

/// What `serde_json::from_str::<Value>` and then following each query's
/// steps with `Value::get` give: the parse error's text when the text is not
/// JSON, else for each query the value it reaches (`None` when a step finds
/// nothing).
pub uninterp spec fn json_queried(text: Seq<char>, queries: Seq<Seq<(bool, Seq<char>, nat)>>) -> Result<Seq<Option<(JsonKind, Seq<char>, nat)>>, Seq<char>>;

/// Wraps `serde_json::from_str`, `Value::get` and `Value::to_string`; the
/// result is named `json_queried` of the arguments.
#[verifier::external_body]
pub fn json_query(text: &str, queries: &[Vec<JsonStep>]) -> (r: Result<Vec<Option<JsonLeaf>>, String>)
    ensures
        match r {
            Ok(v) => json_queried(text@, queries@.map_values(|q: Vec<JsonStep>| query_view(q)))
                == Ok::<_, Seq<char>>(v@.map_values(|o: Option<JsonLeaf>| match o { Some(l) => Some(leaf_view(l)), None => None })),
            Err(e) => json_queried(text@, queries@.map_values(|q: Vec<JsonStep>| query_view(q))) == Err::<Seq<Option<(JsonKind, Seq<char>, nat)>>, Seq<char>>(e@),
        },
{
    let root = Value::from_str(text).map_err(|e| e.to_string())?;
    Ok(queries.iter().map(|q| q.iter().try_fold(&root, |cur, s| match s {
        JsonStep::Key(k) => cur.get(k), JsonStep::Index(i) => cur.get(i) }).map(|v| JsonLeaf {
        kind: match v { Null => JsonKind::Null, Bool(_) => JsonKind::Bool, Number(_) => JsonKind::Number,
            Value::String(_) => JsonKind::Str, Array(_) => JsonKind::Array, Object(_) => JsonKind::Object },
        text: v.as_str().map_or_else(|| v.to_string(), String::from),
        len: v.as_array().map_or(0, Vec::len) })).collect())
}

/// Whitespace between the tokens of a JSONPath.
pub open spec fn path_ws(c: char) -> bool {
    c == ' ' || c == '\t' || c == '\r' || c == '\n'
}

/// A decimal digit.
pub open spec fn dec_digit(c: char) -> bool {
    '0' <= c && c <= '9'
}

/// A character of the numbers, slices and index lists of a JSONPath.
pub open spec fn index_char(c: char) -> bool {
    dec_digit(c) || c == '-' || c == '+' || c == '.' || c == 'e' || c == 'E' || c == ':' || c == ','
}

/// The value of the run of digits that ends before position `n` (0 after a
/// character that is not a digit).
pub open spec fn run_value(w: Seq<char>, n: int) -> nat
    decreases n,
{
    if n <= 0 || n > w.len() {
        0
    } else if dec_digit(w[n - 1]) {
        run_value(w, n - 1) * 10 + ((w[n - 1] as u32) - 48) as nat
    } else {
        0
    }
}

/// The largest value an `i64` holds.
pub open spec fn i64_limit() -> nat {
    9_223_372_036_854_775_807
}

/// Whether a run of digits among the first `n` characters is a number larger
/// than an `i64` holds.
pub open spec fn too_large_number(w: Seq<char>, n: int) -> bool
    decreases n,
{
    if n <= 0 || n > w.len() { false } else { too_large_number(w, n - 1) || run_value(w, n) > i64_limit() }
}

/// Whether the text inside a pair of brackets (whitespace taken out) is an
/// index that `jsonpath_rust` accepts but cannot evaluate without a panic: a
/// list of indexes with a sign, a fraction or an exponent (`[-1,2]`,
/// `[1.5,2]`), a slice whose step is `0` (`[0:2:0]`), or a number larger than
/// an `i64` holds. The last also refuses such numbers in a slice, which the
/// crate would read as absent bounds.
pub open spec fn unevaluable_index(w: Seq<char>) -> bool {
    &&& forall|i: int| 0 <= i < w.len() ==> index_char(#[trigger] w[i])
    &&& {
        ||| w.contains(',') && (w.contains('-') || w.contains('+') || w.contains('.') || w.contains('e') || w.contains('E'))
        ||| w.len() >= 2 && w[w.len() - 1] == '0' && w[w.len() - 2] == ':' && w.subrange(0, w.len() - 2).contains(':')
        ||| too_large_number(w, w.len() as int)
    }
}

/// The first `n` characters of a path read bracket by bracket: whether a
/// closed bracket so far held an unevaluable index, and the text (without
/// whitespace) of the bracket still open.
pub open spec fn index_scan(p: Seq<char>, n: int) -> (bool, Option<Seq<char>>)
    decreases n,
{
    if n <= 0 || n > p.len() {
        (false, None)
    } else {
        let (bad, open) = index_scan(p, n - 1);
        let c = p[n - 1];
        if c == '[' {
            (bad, Some(Seq::empty()))
        } else if c == ']' {
            match open {
                Some(w) => (bad || unevaluable_index(w), None),
                None => (bad, None),
            }
        } else if path_ws(c) {
            (bad, open)
        } else {
            (bad, match open { Some(w) => Some(w.push(c)), None => None })
        }
    }
}

/// Whether no bracket of a JSONPath holds an index that `jsonpath_rust`
/// cannot evaluate (a bracket inside a quoted key counts too).
pub open spec fn jsonpath_evaluable(p: Seq<char>) -> bool {
    !index_scan(p, p.len() as int).0
}

/// Whether `w` holds `c`.
fn holds_char(w: &Vec<char>, c: char) -> (b: bool)
    ensures
        b == w@.contains(c),
{
    let mut i: usize = 0;
    while i < w.len()
        invariant
            i <= w@.len(),
            forall|j: int| 0 <= j < i ==> w@[j] != c,
        decreases w@.len() - i,
    {
        if w[i] == c {
            return true;
        }
        i = i + 1;
    }
    false
}

/// Whether the text of a bracket is an unevaluable index.
fn is_unevaluable_index(w: &Vec<char>) -> (b: bool)
    ensures
        b == unevaluable_index(w@),
{
    let n = w.len();
    let mut i: usize = 0;
    let cap: u128 = 9_223_372_036_854_775_808;
    let mut val: u128 = 0;
    let mut large = false;
    while i < n
        invariant
            n == w@.len(),
            i <= n,
            cap == i64_limit() + 1,
            forall|j: int| 0 <= j < i ==> index_char(#[trigger] w@[j]),
            val == (if run_value(w@, i as int) >= cap { cap as nat } else { run_value(w@, i as int) }),
            large == too_large_number(w@, i as int),
        decreases n - i,
    {
        let c = w[i];
        if !(('0' <= c && c <= '9') || c == '-' || c == '+' || c == '.' || c == 'e' || c == 'E' || c == ':' || c == ',') {
            return false;
        }
        if '0' <= c && c <= '9' {
            let d = (c as u32 - 48) as u128;
            if val >= cap {
                val = cap;
            } else {
                let v = val * 10 + d;
                val = if v >= cap { cap } else { v };
            }
        } else {
            val = 0;
        }
        if val >= cap {
            large = true;
        }
        i = i + 1;
    }
    let listed = holds_char(w, ',') && (holds_char(w, '-') || holds_char(w, '+') || holds_char(w, '.')
        || holds_char(w, 'e') || holds_char(w, 'E'));
    let zero_step = if n >= 2 && w[n - 1] == '0' && w[n - 2] == ':' {
        let mut k: usize = 0;
        let mut found = false;
        while k < n - 2 && !found
            invariant
                n == w@.len(),
                n >= 2,
                k <= n - 2,
                found == w@.subrange(0, k as int).contains(':'),
            decreases n - 2 - k,
        {
            if w[k] == ':' {
                found = true;
                assert(w@.subrange(0, k as int + 1)[k as int] == ':');
            } else {
                assert forall|j: int| 0 <= j < k + 1 && #[trigger] w@.subrange(0, k as int + 1)[j] == ':' implies w@.subrange(0, k as int)[j] == ':' by {
                    assert(w@.subrange(0, k as int + 1)[j] == w@[j]);
                }
            }
            k = k + 1;
        }
        if found {
            assert forall|j: int| 0 <= j < k && #[trigger] w@.subrange(0, k as int)[j] == ':' implies w@.subrange(0, n - 2)[j] == ':' by {}
            true
        } else {
            assert(k == n - 2);
            false
        }
    } else {
        false
    };
    listed || zero_step || large
}

/// Whether a JSONPath can be evaluated by `jsonpath_rust` without a panic
/// (see `unevaluable_index`).
pub fn is_jsonpath_evaluable(path: &str) -> (b: bool)
    ensures
        b == jsonpath_evaluable(path@),
{
    let p = crate::text::chars_of(path);
    let mut bad = false;
    let mut open = false;
    let mut w: Vec<char> = Vec::new();
    let mut i: usize = 0;
    while i < p.len()
        invariant
            p@ == path@,
            i <= p@.len(),
            index_scan(p@, i as int) == (bad, if open { Some(w@) } else { None::<Seq<char>> }),
        decreases p@.len() - i,
    {
        let c = p[i];
        if c == '[' {
            open = true;
            w = Vec::new();
        } else if c == ']' {
            if open {
                let u = is_unevaluable_index(&w);
                bad = bad || u;
                open = false;
            }
        } else if c == ' ' || c == '\t' || c == '\r' || c == '\n' {
        } else if open {
            w.push(c);
        }
        i = i + 1;
    }
    !bad
}

/// What the `jsonpath_rust` crate finds: when `text` parses as JSON
/// (`serde_json::from_str`) and `path` as a JSONPath (`JsonPath::try_from`),
/// the value `JsonPath::find` returns (an array of the matches, empty when
/// nothing matched; null when every match is a missing value) as a leaf, with its first element when it is a non-empty
/// array; else `(true, the JSON error's text)` or `(false, the Debug text of
/// the path error)`.
pub uninterp spec fn jsonpath_found(text: Seq<char>, path: Seq<char>) -> Result<((JsonKind, Seq<char>, nat), Option<(JsonKind, Seq<char>, nat)>), (bool, Seq<char>)>;

/// Wraps `serde_json::from_str`, `JsonPath::try_from` and `JsonPath::find`;
/// the result is named `jsonpath_found` of the arguments. `find` panics on
/// some indexes its grammar accepts, which `requires` leaves out.
#[verifier::external_body]
pub fn jsonpath_find(text: &str, path: &str) -> (r: Result<(JsonLeaf, Option<JsonLeaf>), (bool, String)>)
    requires
        jsonpath_evaluable(path@),
    ensures
        match r {
            Ok((v, first)) => jsonpath_found(text@, path@) == Ok::<_, (bool, Seq<char>)>((leaf_view(v),
                match first { Some(f) => Some(leaf_view(f)), None => None })),
            Err((json_err, e)) => jsonpath_found(text@, path@) == Err::<((JsonKind, Seq<char>, nat), Option<(JsonKind, Seq<char>, nat)>), (bool, Seq<char>)>((json_err, e@)),
        },
{
    let json = Value::from_str(text).map_err(|e| (true, e.to_string()))?;
    let jp = JsonPath::<Value>::try_from(path).map_err(|e| (false, format!("{e:?}")))?;
    let found = jp.find(&json);
    let leaf = |v: &Value| JsonLeaf { kind: match v { Null => JsonKind::Null, Bool(_) => JsonKind::Bool,
        Number(_) => JsonKind::Number, Array(_) => JsonKind::Array, Object(_) => JsonKind::Object, _ => JsonKind::Str },
        text: v.as_str().map_or_else(|| v.to_string(), String::from), len: v.as_array().map_or(0, Vec::len) };
    Ok((leaf(&found), found.get(0).map(leaf)))
}

/// What `serde_json::to_string` gives for a list of strings: a compact JSON array.
pub uninterp spec fn json_strings_text(parts: Seq<Seq<char>>) -> Seq<char>;

/// Wraps `serde_json::to_string` on a list of strings (which cannot fail).
#[verifier::external_body]
pub fn strings_to_json(parts: &[String]) -> (r: String)
    ensures
        r@ == json_strings_text(views(parts@)),
{
    serde_json::to_string(parts).unwrap_or_default()
}

} // verus!
