//! Values that sandboxed code hands back, and how they are rendered as text.

use vstd::prelude::*;
use vstd::string::StringExecFns;
use crate::text::{signed_decimal, signed_decimal_text};

verus! {

/// A value produced by sandboxed code.
///
/// A float is held as the decimal text in which it prints (`1`, `0.5`,
/// `NaN`, `inf`, `-inf`): the library carries floats, it never computes
/// with them.
#[derive(Debug, PartialEq)]
pub enum PyValue {
    /// The "no value" sentinel.
    NoValue,
    Bool(bool),
    Int(i64),
    Float(String),
    Str(String),
    List(Vec<PyValue>),
    Dict(Vec<(String, PyValue)>),
}

/// The mathematical value of a [`PyValue`].
pub enum PyTree {
    NoValue,
    Bool(bool),
    Int(int),
    Float(Seq<char>),
    Str(Seq<char>),
    List(Seq<PyTree>),
    Dict(Seq<(Seq<char>, PyTree)>),
}

/// The mathematical value of `v`.
pub open spec fn py_tree(v: PyValue) -> PyTree
    decreases v,
{
    match v {
        PyValue::NoValue => PyTree::NoValue,
        PyValue::Bool(b) => PyTree::Bool(b),
        PyValue::Int(i) => PyTree::Int(i as int),
        PyValue::Float(t) => PyTree::Float(t@),
        PyValue::Str(s) => PyTree::Str(s@),
        PyValue::List(items) => PyTree::List(
            Seq::new(
                items.len() as nat,
                |i: int|
                    if 0 <= i < items.len() {
                        py_tree(items[i])
                    } else {
                        PyTree::NoValue
                    },
            ),
        ),
        PyValue::Dict(pairs) => PyTree::Dict(
            Seq::new(
                pairs.len() as nat,
                |i: int|
                    if 0 <= i < pairs.len() {
                        (pairs[i].0@, py_tree(pairs[i].1))
                    } else {
                        (Seq::<char>::empty(), PyTree::NoValue)
                    },
            ),
        ),
    }
}

impl View for PyValue {
    type V = PyTree;

    open spec fn view(&self) -> PyTree {
        py_tree(*self)
    }
}

/// The views of a list of texts.
pub open spec fn views(parts: Seq<String>) -> Seq<Seq<char>> {
    parts.map_values(|s: String| s@)
}

/// `parts` written one after the other with `sep` between neighbours.
pub open spec fn joined(parts: Seq<Seq<char>>, sep: Seq<char>) -> Seq<char>
    decreases parts.len(),
{
    if parts.len() == 0 {
        Seq::empty()
    } else if parts.len() == 1 {
        parts[0]
    } else {
        joined(parts.drop_last(), sep) + sep + parts.last()
    }
}

/// `parts` written one after the other with `sep` between neighbours.
pub fn join(parts: &Vec<String>, sep: &str) -> (s: String)
    ensures
        s@ == joined(views(parts@), sep@),
{
    let mut s = String::new();
    let mut i: usize = 0;
    while i < parts.len()
        invariant
            0 <= i <= parts.len(),
            s@ == joined(views(parts@).take(i as int), sep@),
        decreases parts.len() - i,
    {
        let ghost before = views(parts@).take(i as int);
        let ghost after = views(parts@).take(i + 1);
        assert(after.drop_last() =~= before);
        assert(after.last() == parts@[i as int]@);
        if i > 0 {
            s.append(sep);
        }
        s.append(parts[i].as_str());
        proof {
            if i == 0 {
                assert(s@ =~= after[0]);
            }
        }
        i += 1;
    }
    assert(views(parts@).take(parts.len() as int) =~= views(parts@));
    s
}

/// How a value is shown to the model: strings in double quotes, lists in
/// square brackets, dictionaries in braces with quoted keys.
pub open spec fn formatted(v: PyTree) -> Seq<char>
    decreases v, 1nat,
{
    match v {
        PyTree::NoValue => "None"@,
        PyTree::Bool(b) => if b {
            "true"@
        } else {
            "false"@
        },
        PyTree::Int(i) => signed_decimal(i),
        PyTree::Float(t) => t,
        PyTree::Str(s) => "\""@ + s + "\""@,
        PyTree::List(items) => "["@ + joined(formatted_items(items), ", "@) + "]"@,
        PyTree::Dict(pairs) => "{"@ + joined(formatted_entries(pairs), ", "@) + "}"@,
    }
}

/// The items of a list, each as [`formatted`] shows it.
pub open spec fn formatted_items(items: Seq<PyTree>) -> Seq<Seq<char>>
    decreases items, 0nat,
{
    Seq::new(
        items.len(),
        |i: int|
            if 0 <= i < items.len() {
                formatted(items[i])
            } else {
                Seq::empty()
            },
    )
}

/// The entries of a dictionary, each as a quoted key, a colon and the value
/// as [`formatted`] shows it.
pub open spec fn formatted_entries(pairs: Seq<(Seq<char>, PyTree)>) -> Seq<Seq<char>>
    decreases pairs, 0nat,
{
    Seq::new(
        pairs.len(),
        |i: int|
            if 0 <= i < pairs.len() {
                "\""@ + pairs[i].0 + "\": "@ + formatted(pairs[i].1)
            } else {
                Seq::empty()
            },
    )
}

/// How a value reads as a final answer: strings bare, lists in square
/// brackets, dictionaries as one `key: value` line per entry.
pub open spec fn plain(v: PyTree) -> Seq<char>
    decreases v, 1nat,
{
    match v {
        PyTree::NoValue => "None"@,
        PyTree::Bool(b) => if b {
            "true"@
        } else {
            "false"@
        },
        PyTree::Int(i) => signed_decimal(i),
        PyTree::Float(t) => t,
        PyTree::Str(s) => s,
        PyTree::List(items) => "["@ + joined(plain_items(items), ", "@) + "]"@,
        PyTree::Dict(pairs) => joined(plain_entries(pairs), "\n"@),
    }
}

/// The items of a list, each as [`plain`] shows it.
pub open spec fn plain_items(items: Seq<PyTree>) -> Seq<Seq<char>>
    decreases items, 0nat,
{
    Seq::new(
        items.len(),
        |i: int|
            if 0 <= i < items.len() {
                plain(items[i])
            } else {
                Seq::empty()
            },
    )
}

/// The entries of a dictionary, each as its key, a colon and the value as
/// [`plain`] shows it.
pub open spec fn plain_entries(pairs: Seq<(Seq<char>, PyTree)>) -> Seq<Seq<char>>
    decreases pairs, 0nat,
{
    Seq::new(
        pairs.len(),
        |i: int|
            if 0 <= i < pairs.len() {
                pairs[i].0 + ": "@ + plain(pairs[i].1)
            } else {
                Seq::empty()
            },
    )
}

impl PyValue {
    /// A copy of the value.
    #[verifier::loop_isolation(false)]
    pub fn copy(&self) -> (r: PyValue)
        ensures
            r@ == self@,
        decreases self,
    {
        match self {
            PyValue::NoValue => PyValue::NoValue,
            PyValue::Bool(b) => PyValue::Bool(*b),
            PyValue::Int(i) => PyValue::Int(*i),
            PyValue::Float(t) => PyValue::Float(t.clone()),
            PyValue::Str(s) => PyValue::Str(s.clone()),
            PyValue::List(items) => {
                let mut out: Vec<PyValue> = Vec::new();
                let mut i: usize = 0;
                while i < items.len()
                    invariant
                        0 <= i <= items.len(),
                        out.len() == i,
                        forall|j: int| 0 <= j < i ==> out[j]@ == items[j]@,
                    decreases items.len() - i,
                {
                    out.push(items[i].copy());
                    i += 1;
                }
                let r = PyValue::List(out);
                assert(r@->List_0 =~= self@->List_0);
                r
            },
            PyValue::Dict(pairs) => {
                let mut out: Vec<(String, PyValue)> = Vec::new();
                let mut i: usize = 0;
                while i < pairs.len()
                    invariant
                        0 <= i <= pairs.len(),
                        out.len() == i,
                        forall|j: int|
                            0 <= j < i ==> out[j].0@ == pairs[j].0@ && out[j].1@ == pairs[j].1@,
                    decreases pairs.len() - i,
                {
                    out.push((pairs[i].0.clone(), pairs[i].1.copy()));
                    i += 1;
                }
                let r = PyValue::Dict(out);
                assert(r@->Dict_0 =~= self@->Dict_0);
                r
            },
        }
    }
}

/// Renders a value for the model to read.
#[verifier::loop_isolation(false)]
pub fn format_pyvalue(value: &PyValue) -> (s: String)
    ensures
        s@ == formatted(value@),
    decreases value,
{
    match value {
        PyValue::NoValue => String::from_str("None"),
        PyValue::Bool(b) => if *b {
            String::from_str("true")
        } else {
            String::from_str("false")
        },
        PyValue::Int(i) => signed_decimal_text(*i),
        PyValue::Float(t) => t.clone(),
        PyValue::Str(s) => {
            let mut out = String::from_str("\"");
            out.append(s.as_str());
            out.append("\"");
            out
        },
        PyValue::List(items) => {
            let mut parts: Vec<String> = Vec::new();
            let mut i: usize = 0;
            while i < items.len()
                invariant
                    0 <= i <= items.len(),
                    parts.len() == i,
                    forall|j: int| 0 <= j < i ==> parts[j]@ == formatted(items[j]@),
                decreases items.len() - i,
            {
                parts.push(format_pyvalue(&items[i]));
                i += 1;
            }
            let mut out = String::from_str("[");
            let body = join(&parts, ", ");
            out.append(body.as_str());
            out.append("]");
            proof {
                let tree = value@->List_0;
                assert(views(parts@) =~= formatted_items(tree));
            }
            out
        },
        PyValue::Dict(pairs) => {
            let mut parts: Vec<String> = Vec::new();
            let mut i: usize = 0;
            while i < pairs.len()
                invariant
                    0 <= i <= pairs.len(),
                    parts.len() == i,
                    forall|j: int|
                        0 <= j < i ==> parts[j]@ == "\""@ + pairs[j].0@ + "\": "@ + formatted(
                            pairs[j].1@,
                        ),
                decreases pairs.len() - i,
            {
                let mut part = String::from_str("\"");
                part.append(pairs[i].0.as_str());
                part.append("\": ");
                let inner = format_pyvalue(&pairs[i].1);
                part.append(inner.as_str());
                parts.push(part);
                i += 1;
            }
            let mut out = String::from_str("{");
            let body = join(&parts, ", ");
            out.append(body.as_str());
            out.append("}");
            proof {
                let tree = value@->Dict_0;
                assert(views(parts@) =~= formatted_entries(tree));
            }
            out
        },
    }
}

/// What the finish capability hands back to the code that called it: the
/// finish marker, then the answer as [`plain`] shows it. The marker in the
/// output of an execution is what tells the loop that the work is done.
pub fn finish_output(value: &PyValue) -> (s: String)
    ensures
        s@ == crate::prompt::FINISH_MARKER@ + plain(value@),
{
    let mut s = String::from_str(crate::prompt::FINISH_MARKER);
    let answer = pyvalue_to_string(value);
    s.append(answer.as_str());
    s
}

/// Renders a value as a final answer, strings without quotes.
#[verifier::loop_isolation(false)]
pub fn pyvalue_to_string(value: &PyValue) -> (s: String)
    ensures
        s@ == plain(value@),
    decreases value,
{
    match value {
        PyValue::NoValue => String::from_str("None"),
        PyValue::Bool(b) => if *b {
            String::from_str("true")
        } else {
            String::from_str("false")
        },
        PyValue::Int(i) => signed_decimal_text(*i),
        PyValue::Float(t) => t.clone(),
        PyValue::Str(s) => s.clone(),
        PyValue::List(items) => {
            let mut parts: Vec<String> = Vec::new();
            let mut i: usize = 0;
            while i < items.len()
                invariant
                    0 <= i <= items.len(),
                    parts.len() == i,
                    forall|j: int| 0 <= j < i ==> parts[j]@ == plain(items[j]@),
                decreases items.len() - i,
            {
                parts.push(pyvalue_to_string(&items[i]));
                i += 1;
            }
            let mut out = String::from_str("[");
            let body = join(&parts, ", ");
            out.append(body.as_str());
            out.append("]");
            proof {
                let tree = value@->List_0;
                assert(views(parts@) =~= plain_items(tree));
            }
            out
        },
        PyValue::Dict(pairs) => {
            let mut parts: Vec<String> = Vec::new();
            let mut i: usize = 0;
            while i < pairs.len()
                invariant
                    0 <= i <= pairs.len(),
                    parts.len() == i,
                    forall|j: int|
                        0 <= j < i ==> parts[j]@ == pairs[j].0@ + ": "@ + plain(pairs[j].1@),
                decreases pairs.len() - i,
            {
                let mut part = pairs[i].0.clone();
                part.append(": ");
                let inner = pyvalue_to_string(&pairs[i].1);
                part.append(inner.as_str());
                parts.push(part);
                i += 1;
            }
            let out = join(&parts, "\n");
            proof {
                let tree = value@->Dict_0;
                assert(views(parts@) =~= plain_entries(tree));
            }
            out
        },
    }
}

} // verus!
