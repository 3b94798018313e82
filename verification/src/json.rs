//! JSON documents as the library holds them, the calls into `serde_json`
//! that read and render them, and the conversions between documents and
//! sandbox values.

use serde_json::{Number, Value};
use vstd::prelude::*;
use crate::text::text_eq;
use crate::value::{PyTree, PyValue};

verus! {

/// A JSON document.
///
/// An object keeps its entries in the order given; where two entries share a
/// key, the later one is the one that counts. A number is an integer, or a
/// float held as the decimal text in which it prints (see
/// [`PyValue`]). `UInt` is for integers above `i64::MAX`.
#[derive(Debug, PartialEq)]
pub enum Json {
    Null,
    Bool(bool),
    Int(i64),
    UInt(u64),
    Float(String),
    Str(String),
    Array(Vec<Json>),
    Object(Vec<(String, Json)>),
}

/// The mathematical value of a [`Json`].
pub enum JsonTree {
    Null,
    Bool(bool),
    Int(int),
    Float(Seq<char>),
    Str(Seq<char>),
    Array(Seq<JsonTree>),
    Object(Seq<(Seq<char>, JsonTree)>),
}

/// The mathematical value of `j`.
pub open spec fn json_tree(j: Json) -> JsonTree
    decreases j,
{
    match j {
        Json::Null => JsonTree::Null,
        Json::Bool(b) => JsonTree::Bool(b),
        Json::Int(i) => JsonTree::Int(i as int),
        Json::UInt(u) => JsonTree::Int(u as int),
        Json::Float(t) => JsonTree::Float(t@),
        Json::Str(s) => JsonTree::Str(s@),
        Json::Array(items) => JsonTree::Array(
            Seq::new(
                items.len() as nat,
                |i: int|
                    if 0 <= i < items.len() {
                        json_tree(items[i])
                    } else {
                        JsonTree::Null
                    },
            ),
        ),
        Json::Object(pairs) => JsonTree::Object(
            Seq::new(
                pairs.len() as nat,
                |i: int|
                    if 0 <= i < pairs.len() {
                        (pairs[i].0@, json_tree(pairs[i].1))
                    } else {
                        (Seq::<char>::empty(), JsonTree::Null)
                    },
            ),
        ),
    }
}

impl View for Json {
    type V = JsonTree;

    open spec fn view(&self) -> JsonTree {
        json_tree(*self)
    }
}

/// What `serde_json` makes of a text: the document it holds, or the parser's
/// complaint.
pub uninterp spec fn json_parse(text: Seq<char>) -> Result<JsonTree, Seq<char>>;

/// A document as `serde_json` prints it over several indented lines.
pub uninterp spec fn json_pretty(doc: JsonTree) -> Seq<char>;

/// A document as `serde_json` prints it on one line.
pub uninterp spec fn json_compact(doc: JsonTree) -> Seq<char>;

/// The float nearest to the integer `n`, in the decimal text in which it
/// prints.
pub uninterp spec fn float_text(n: u64) -> Seq<char>;

/// `serde_json::Value`, which the library hands to `serde_json` and
/// `jsonschema` and never looks into.
#[verifier::external_type_specification]
#[verifier::external_body]
pub struct ExSerdeValue(Value);

/// Rebuilds a document as a `serde_json::Value`, node for node. A float
/// text that does not read as a finite float becomes `null`.
#[verifier::external_body]
pub(crate) fn to_serde(j: &Json) -> Value {
    match j {
        Json::Null => Value::Null,
        Json::Bool(b) => Value::Bool(*b),
        Json::Int(i) => Value::from(*i),
        Json::UInt(u) => Value::from(*u),
        Json::Float(t) => t.parse().ok().and_then(Number::from_f64).into(),
        Json::Str(s) => Value::String(s.clone()),
        Json::Array(a) => a.iter().map(to_serde).collect(),
        Json::Object(o) => o.iter().map(|e| (e.0.clone(), to_serde(&e.1))).collect(),
    }
}

/// Rebuilds a `serde_json::Value` as a document, node for node, an object's
/// entries in the order in which `serde_json` walks them.
#[verifier::external_body]
fn from_serde(v: &Value) -> Json {
    match v {
        Value::Null => Json::Null,
        Value::Bool(b) => Json::Bool(*b),
        Value::Number(n) => match (n.as_i64(), n.as_u64()) {
            (Some(i), _) => Json::Int(i),
            (_, Some(u)) => Json::UInt(u),
            _ => Json::Float(n.as_f64().unwrap_or_default().to_string()),
        },
        Value::String(s) => Json::Str(s.clone()),
        Value::Array(a) => Json::Array(a.iter().map(from_serde).collect()),
        Value::Object(o) => Json::Object(o.iter().map(|e| (e.0.clone(), from_serde(e.1))).collect()),
    }
}

/// `serde_json::from_str`: reads `text` as one JSON document. The result is
/// the document, or the text of the parser's error.
#[verifier::external_body]
pub(crate) fn parse_json(text: &str) -> (r: Result<Json, String>)
    ensures
        match r {
            Ok(j) => json_parse(text@) == Ok::<JsonTree, Seq<char>>(j@),
            Err(e) => json_parse(text@) == Err::<JsonTree, Seq<char>>(e@),
        },
{
    match serde_json::from_str::<Value>(text) {
        Ok(v) => Ok(from_serde(&v)),
        Err(e) => Err(e.to_string()),
    }
}

/// `serde_json::to_string_pretty`: the document over several lines, indented
/// by two spaces.
#[verifier::external_body]
pub(crate) fn pretty_json(j: &Json) -> (s: String)
    ensures
        s@ == json_pretty(j@),
{
    serde_json::to_string_pretty(&to_serde(j)).unwrap_or_default()
}

/// `serde_json::to_string`: the document on one line.
#[verifier::external_body]
pub(crate) fn compact_json(j: &Json) -> (s: String)
    ensures
        s@ == json_compact(j@),
{
    serde_json::to_string(&to_serde(j)).unwrap_or_default()
}

/// `serde_json::Number::as_f64` on the integer `n`, then the float's
/// `to_string`: the nearest float, as it prints.
#[verifier::external_body]
pub(crate) fn wide_float_text(n: u64) -> (s: String)
    ensures
        s@ == float_text(n),
{
    Number::from(n).as_f64().unwrap_or_default().to_string()
}

/// Whether a float's text stands for a finite number: floats that are not
/// finite print as `NaN`, `inf` and `-inf`.
pub open spec fn is_finite_text(t: Seq<char>) -> bool {
    t != "NaN"@ && t != "inf"@ && t != "-inf"@
}

/// The sandbox value for a document: integers that fit 64 signed bits stay
/// integers, wider ones become floats, arrays become lists and objects
/// dictionaries.
pub open spec fn py_of_json(j: JsonTree) -> PyTree
    decreases j, 1nat,
{
    match j {
        JsonTree::Null => PyTree::NoValue,
        JsonTree::Bool(b) => PyTree::Bool(b),
        JsonTree::Int(n) => if i64::MIN <= n <= i64::MAX {
            PyTree::Int(n)
        } else {
            PyTree::Float(float_text(n as u64))
        },
        JsonTree::Float(t) => PyTree::Float(t),
        JsonTree::Str(s) => PyTree::Str(s),
        JsonTree::Array(items) => PyTree::List(py_of_items(items)),
        JsonTree::Object(pairs) => PyTree::Dict(py_of_entries(pairs)),
    }
}

/// [`py_of_json`], item by item.
pub open spec fn py_of_items(items: Seq<JsonTree>) -> Seq<PyTree>
    decreases items, 0nat,
{
    Seq::new(
        items.len(),
        |i: int|
            if 0 <= i < items.len() {
                py_of_json(items[i])
            } else {
                PyTree::NoValue
            },
    )
}

/// [`py_of_json`], entry by entry, keys unchanged.
pub open spec fn py_of_entries(pairs: Seq<(Seq<char>, JsonTree)>) -> Seq<(Seq<char>, PyTree)>
    decreases pairs, 0nat,
{
    Seq::new(
        pairs.len(),
        |i: int|
            if 0 <= i < pairs.len() {
                (pairs[i].0, py_of_json(pairs[i].1))
            } else {
                (Seq::<char>::empty(), PyTree::NoValue)
            },
    )
}

/// The document for a sandbox value: a float that is not finite becomes
/// `null`, lists become arrays and dictionaries objects.
pub open spec fn json_of_py(v: PyTree) -> JsonTree
    decreases v, 1nat,
{
    match v {
        PyTree::NoValue => JsonTree::Null,
        PyTree::Bool(b) => JsonTree::Bool(b),
        PyTree::Int(i) => JsonTree::Int(i),
        PyTree::Float(t) => if is_finite_text(t) {
            JsonTree::Float(t)
        } else {
            JsonTree::Null
        },
        PyTree::Str(s) => JsonTree::Str(s),
        PyTree::List(items) => JsonTree::Array(json_of_items(items)),
        PyTree::Dict(pairs) => JsonTree::Object(json_of_entries(pairs)),
    }
}

/// [`json_of_py`], item by item.
pub open spec fn json_of_items(items: Seq<PyTree>) -> Seq<JsonTree>
    decreases items, 0nat,
{
    Seq::new(
        items.len(),
        |i: int|
            if 0 <= i < items.len() {
                json_of_py(items[i])
            } else {
                JsonTree::Null
            },
    )
}

/// [`json_of_py`], entry by entry, keys unchanged.
pub open spec fn json_of_entries(pairs: Seq<(Seq<char>, PyTree)>) -> Seq<(Seq<char>, JsonTree)>
    decreases pairs, 0nat,
{
    Seq::new(
        pairs.len(),
        |i: int|
            if 0 <= i < pairs.len() {
                (pairs[i].0, json_of_py(pairs[i].1))
            } else {
                (Seq::<char>::empty(), JsonTree::Null)
            },
    )
}

/// The last entry of `pairs` whose key is `key`, among the first `n`.
pub open spec fn lookup(pairs: Seq<(Seq<char>, JsonTree)>, key: Seq<char>, n: int) -> Option<
    JsonTree,
>
    decreases n,
{
    if n <= 0 || n > pairs.len() {
        None
    } else if pairs[n - 1].0 == key {
        Some(pairs[n - 1].1)
    } else {
        lookup(pairs, key, n - 1)
    }
}

/// What an object holds under `key`; nothing for a document that is no
/// object.
pub open spec fn member(doc: JsonTree, key: Seq<char>) -> Option<JsonTree> {
    match doc {
        JsonTree::Object(pairs) => lookup(pairs, key, pairs.len() as int),
        _ => None,
    }
}

impl Json {
    /// A copy of the document.
    #[verifier::loop_isolation(false)]
    pub fn copy(&self) -> (r: Json)
        ensures
            r@ == self@,
        decreases self,
    {
        match self {
            Json::Null => Json::Null,
            Json::Bool(b) => Json::Bool(*b),
            Json::Int(i) => Json::Int(*i),
            Json::UInt(u) => Json::UInt(*u),
            Json::Float(t) => Json::Float(t.clone()),
            Json::Str(s) => Json::Str(s.clone()),
            Json::Array(items) => {
                let mut out: Vec<Json> = Vec::new();
                let mut i: usize = 0;
                while i < items.len()
                    invariant
                        0 <= i <= items.len(),
                        out.len() == i,
                        forall|j: int| 0 <= j < i ==> out[j]@ == items[j]@,
                    decreases items.len() - i,
                {
                    out.push(items[i].copy());
                    i += 1;
                }
                let r = Json::Array(out);
                assert(r@->Array_0 =~= self@->Array_0);
                r
            },
            Json::Object(pairs) => {
                let mut out: Vec<(String, Json)> = Vec::new();
                let mut i: usize = 0;
                while i < pairs.len()
                    invariant
                        0 <= i <= pairs.len(),
                        out.len() == i,
                        forall|j: int|
                            0 <= j < i ==> out[j].0@ == pairs[j].0@ && out[j].1@ == pairs[j].1@,
                    decreases pairs.len() - i,
                {
                    out.push((pairs[i].0.clone(), pairs[i].1.copy()));
                    i += 1;
                }
                let r = Json::Object(out);
                assert(r@->Object_0 =~= self@->Object_0);
                r
            },
        }
    }

    /// What the object holds under `key`.
    pub fn get(&self, key: &str) -> (r: Option<&Json>)
        ensures
            match r {
                Some(j) => member(self@, key@) == Some(j@),
                None => member(self@, key@) is None,
            },
    {
        match self {
            Json::Object(pairs) => {
                let mut n: usize = pairs.len();
                while n > 0
                    invariant
                        0 <= n <= pairs.len(),
                        self@ is Object,
                        self@->Object_0.len() == pairs.len(),
                        forall|k: int|
                            0 <= k < pairs.len() ==> (#[trigger] self@->Object_0[k]) == (
                                pairs[k].0@,
                                pairs[k].1@,
                            ),
                        member(self@, key@) == lookup(self@->Object_0, key@, n as int),
                    decreases n,
                {
                    if text_eq(pairs[n - 1].0.as_str(), key) {
                        return Some(&pairs[n - 1].1);
                    }
                    n -= 1;
                }
                None
            },
            _ => None,
        }
    }

    /// The document over several indented lines.
    pub fn to_pretty(&self) -> (s: String)
        ensures
            s@ == json_pretty(self@),
    {
        pretty_json(self)
    }

    /// The document on one line.
    pub fn to_compact(&self) -> (s: String)
        ensures
            s@ == json_compact(self@),
    {
        compact_json(self)
    }

    /// Reads `text` as one JSON document, or gives the parser's complaint.
    pub fn parse(text: &str) -> (r: Result<Json, String>)
        ensures
            match r {
                Ok(j) => json_parse(text@) == Ok::<JsonTree, Seq<char>>(j@),
                Err(e) => json_parse(text@) == Err::<JsonTree, Seq<char>>(e@),
            },
    {
        parse_json(text)
    }
}

/// Converts a sandbox value to a JSON document.
#[verifier::loop_isolation(false)]
pub fn pyvalue_to_json(value: &PyValue) -> (r: Json)
    ensures
        r@ == json_of_py(value@),
    decreases value,
{
    match value {
        PyValue::NoValue => Json::Null,
        PyValue::Bool(b) => Json::Bool(*b),
        PyValue::Int(i) => Json::Int(*i),
        PyValue::Float(t) => {
            if text_eq(t.as_str(), "NaN") || text_eq(t.as_str(), "inf") || text_eq(
                t.as_str(),
                "-inf",
            ) {
                Json::Null
            } else {
                Json::Float(t.clone())
            }
        },
        PyValue::Str(s) => Json::Str(s.clone()),
        PyValue::List(items) => {
            let mut out: Vec<Json> = Vec::new();
            let mut i: usize = 0;
            while i < items.len()
                invariant
                    0 <= i <= items.len(),
                    out.len() == i,
                    forall|j: int| 0 <= j < i ==> out[j]@ == json_of_py(items[j]@),
                decreases items.len() - i,
            {
                out.push(pyvalue_to_json(&items[i]));
                i += 1;
            }
            let r = Json::Array(out);
            assert(r@->Array_0 =~= json_of_items(value@->List_0));
            r
        },
        PyValue::Dict(pairs) => {
            let mut out: Vec<(String, Json)> = Vec::new();
            let mut i: usize = 0;
            while i < pairs.len()
                invariant
                    0 <= i <= pairs.len(),
                    out.len() == i,
                    forall|j: int|
                        0 <= j < i ==> out[j].0@ == pairs[j].0@ && out[j].1@ == json_of_py(
                            pairs[j].1@,
                        ),
                decreases pairs.len() - i,
            {
                out.push((pairs[i].0.clone(), pyvalue_to_json(&pairs[i].1)));
                i += 1;
            }
            let r = Json::Object(out);
            assert(r@->Object_0 =~= json_of_entries(value@->Dict_0));
            r
        },
    }
}

/// Converts a JSON document to a sandbox value.
#[verifier::loop_isolation(false)]
pub fn json_to_pyvalue(value: &Json) -> (r: PyValue)
    ensures
        r@ == py_of_json(value@),
    decreases value,
{
    match value {
        Json::Null => PyValue::NoValue,
        Json::Bool(b) => PyValue::Bool(*b),
        Json::Int(i) => PyValue::Int(*i),
        Json::UInt(u) => {
            if *u <= 0x7fff_ffff_ffff_ffff {
                PyValue::Int(*u as i64)
            } else {
                PyValue::Float(wide_float_text(*u))
            }
        },
        Json::Float(t) => PyValue::Float(t.clone()),
        Json::Str(s) => PyValue::Str(s.clone()),
        Json::Array(items) => {
            let mut out: Vec<PyValue> = Vec::new();
            let mut i: usize = 0;
            while i < items.len()
                invariant
                    0 <= i <= items.len(),
                    out.len() == i,
                    forall|j: int| 0 <= j < i ==> out[j]@ == py_of_json(items[j]@),
                decreases items.len() - i,
            {
                out.push(json_to_pyvalue(&items[i]));
                i += 1;
            }
            let r = PyValue::List(out);
            assert(r@->List_0 =~= py_of_items(value@->Array_0));
            r
        },
        Json::Object(pairs) => {
            let mut out: Vec<(String, PyValue)> = Vec::new();
            let mut i: usize = 0;
            while i < pairs.len()
                invariant
                    0 <= i <= pairs.len(),
                    out.len() == i,
                    forall|j: int|
                        0 <= j < i ==> out[j].0@ == pairs[j].0@ && out[j].1@ == py_of_json(
                            pairs[j].1@,
                        ),
                decreases pairs.len() - i,
            {
                out.push((pairs[i].0.clone(), json_to_pyvalue(&pairs[i].1)));
                i += 1;
            }
            let r = PyValue::Dict(out);
            assert(r@->Dict_0 =~= py_of_entries(value@->Object_0));
            r
        },
    }
}

} // verus!
