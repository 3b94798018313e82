//! Checking a candidate result against a JSON Schema, and the report that
//! tells the model what was wrong.

use vstd::prelude::*;
use vstd::string::StringExecFns;
use crate::json::{json_compact, json_pretty, member, Json, JsonTree};
use crate::value::{join, joined, views};

verus! {

/// One finding of the schema validator: where in the candidate, and what.
#[derive(Clone, Debug, PartialEq)]
pub struct SchemaIssue {
    /// Path of the offending part of the candidate, as a JSON pointer.
    pub path: String,
    /// What the validator says of it.
    pub message: String,
}

/// The mathematical value of a [`SchemaIssue`].
pub struct IssueView {
    pub path: Seq<char>,
    pub message: Seq<char>,
}

impl View for SchemaIssue {
    type V = IssueView;

    open spec fn view(&self) -> IssueView {
        IssueView { path: self.path@, message: self.message@ }
    }
}

/// The views of a list of findings, in order.
pub open spec fn issues_of(issues: Seq<SchemaIssue>) -> Seq<IssueView> {
    Seq::new(issues.len(), |i: int| issues[i]@)
}

/// The line that reports one finding.
pub open spec fn issue_line(issue: IssueView) -> Seq<char> {
    "- "@ + issue.path + ": "@ + issue.message
}

/// The lines that report the findings, in order.
pub open spec fn issue_lines(issues: Seq<IssueView>) -> Seq<Seq<char>> {
    Seq::new(issues.len(), |i: int| issue_line(issues[i]))
}

/// The hint that names the keys that the schema requires; empty where the
/// schema requires none.
pub open spec fn required_hint(schema: JsonTree) -> Seq<char> {
    match member(schema, "required"@) {
        Some(keys) => "\n\nExpected keys: "@ + json_compact(keys),
        None => Seq::empty(),
    }
}

/// The report of a failed validation: the findings, the required keys, and
/// the candidate as it was given.
pub open spec fn schema_report(issues: Seq<IssueView>, schema: JsonTree, doc: JsonTree) -> Seq<
    char,
> {
    "Schema validation failed:\n"@ + joined(issue_lines(issues), "\n"@) + required_hint(schema)
        + "\n\nYour output:\n"@ + json_pretty(doc)
}

/// The verdict on a candidate, given the validator's findings: accepted
/// where there are none, else the report.
pub open spec fn schema_verdict(issues: Seq<IssueView>, schema: JsonTree, doc: JsonTree) -> Result<
    (),
    Seq<char>,
> {
    if issues.len() == 0 {
        Ok(())
    } else {
        Err(schema_report(issues, schema, doc))
    }
}

/// Whether `jsonschema` compiles a document as a schema: whether it is a
/// valid schema for its draft, with every reference resolved inside the
/// document itself.
pub uninterp spec fn schema_compiles(schema: JsonTree) -> bool;

/// What a `jsonschema` validator that is compiled from `schema` finds
/// against `doc`: every finding with its instance path and its message, in
/// the validator's order; nothing where the schema does not compile.
pub uninterp spec fn schema_issues(schema: JsonTree, doc: JsonTree) -> Seq<IssueView>;

/// `jsonschema::Validator::new`: compiles the schema. The result is the
/// text of the compiler's error, or nothing where the schema compiles.
/// Whether it compiles depends on the document alone: no reference is
/// followed out of it.
#[verifier::external_body]
pub(crate) fn schema_compile_error(schema: &Json) -> (r: Option<String>)
    ensures
        (r is None) == schema_compiles(schema@),
{
    jsonschema::Validator::new(&crate::json::to_serde(schema)).err().map(|e| e.to_string())
}

/// `jsonschema::Validator::iter_errors`, on a validator that
/// `jsonschema::Validator::new` compiles from `schema`: every finding
/// against `doc`, each with its instance path and its message. No finding
/// is reported where the schema does not compile. The findings depend on
/// schema and document alone: the validator walks the document and its
/// own lists of rules, and looks into its hash maps without walking them.
#[verifier::external_body]
pub(crate) fn schema_findings(schema: &Json, doc: &Json) -> (r: Vec<SchemaIssue>)
    ensures
        issues_of(r@) == schema_issues(schema@, doc@),
{
    let instance = crate::json::to_serde(doc);
    jsonschema::Validator::new(&crate::json::to_serde(schema)).map_or(
        Vec::new(),
        |v| v.iter_errors(&instance).map(
            |e| SchemaIssue { path: e.instance_path().to_string(), message: e.to_string() },
        ).collect(),
    )
}

/// Writes the report of a failed validation.
pub fn report_schema_failure(issues: &Vec<SchemaIssue>, schema: &Json, doc: &Json) -> (s: String)
    ensures
        s@ == schema_report(issues_of(issues@), schema@, doc@),
{
    let mut lines: Vec<String> = Vec::new();
    let mut i: usize = 0;
    while i < issues.len()
        invariant
            0 <= i <= issues.len(),
            lines.len() == i,
            forall|j: int| 0 <= j < i ==> lines[j]@ == issue_line(issues[j]@),
        decreases issues.len() - i,
    {
        let mut line = String::from_str("- ");
        line.append(issues[i].path.as_str());
        line.append(": ");
        line.append(issues[i].message.as_str());
        lines.push(line);
        i += 1;
    }
    assert(views(lines@) =~= issue_lines(issues_of(issues@)));
    let mut s = String::from_str("Schema validation failed:\n");
    let body = join(&lines, "\n");
    s.append(body.as_str());
    match schema.get("required") {
        Some(keys) => {
            s.append("\n\nExpected keys: ");
            let shown = keys.to_compact();
            s.append(shown.as_str());
        },
        None => {
            assert(s@ + Seq::<char>::empty() =~= s@);
        },
    }
    s.append("\n\nYour output:\n");
    let shown = doc.to_pretty();
    s.append(shown.as_str());
    s
}

/// The verdict on a candidate, given the validator's findings.
pub fn judge_schema(issues: &Vec<SchemaIssue>, schema: &Json, doc: &Json) -> (r: Result<
    (),
    String,
>)
    ensures
        match r {
            Ok(_) => schema_verdict(issues_of(issues@), schema@, doc@) is Ok,
            Err(e) => schema_verdict(issues_of(issues@), schema@, doc@) == Err::<(), Seq<char>>(
                e@,
            ),
        },
{
    if issues.len() == 0 {
        Ok(())
    } else {
        Err(report_schema_failure(issues, schema, doc))
    }
}

} // verus!
