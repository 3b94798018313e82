//! The lines of verbose logging: one short line for an event that is worth
//! showing, with long texts cut to a preview.

use vstd::prelude::*;
use vstd::string::StringExecFns;
use crate::events::{AgentEvent, EventView};
use crate::text::{chars_of, decimal, push_decimal, replace_all, replaced, text_of};
use crate::value::{format_pyvalue, formatted, join, joined, views, PyTree};

verus! {

/// How many characters of a response are shown.
pub const RESPONSE_PREVIEW: usize = 100;

/// How many characters of an execution's output are shown.
pub const OUTPUT_PREVIEW: usize = 80;

/// How many lines of code, and how many arguments of a tool call, are
/// shown.
pub const ITEMS_SHOWN: usize = 3;

/// The first `limit` characters of a text on one line, line feeds written
/// as `\n`, with three dots behind where the text is longer.
pub open spec fn preview(text: Seq<char>, limit: nat) -> Seq<char> {
    if text.len() > limit {
        replaced(text.take(limit as int), "\n"@, "\\n"@) + "..."@
    } else {
        replaced(text, "\n"@, "\\n"@)
    }
}

/// Where the line that starts at `from` ends: at the next line feed, or at
/// the end of the text.
pub open spec fn line_end(s: Seq<char>, from: int) -> int
    decreases s.len() - from,
{
    if from < 0 || from >= s.len() {
        s.len() as int
    } else if s[from] == '\n' {
        from
    } else {
        line_end(s, from + 1)
    }
}

/// A line without the carriage return that stood before its line feed.
pub open spec fn without_cr(line: Seq<char>) -> Seq<char> {
    if line.len() > 0 && line.last() == '\r' {
        line.drop_last()
    } else {
        line
    }
}

/// The lines of a text from `from` on. A line ends at a line feed, which
/// is no part of it, nor is a carriage return just before the line feed;
/// the last line need not end in a line feed.
pub open spec fn lines_from(s: Seq<char>, from: int) -> Seq<Seq<char>>
    decreases s.len() - from,
{
    if from < 0 || from >= s.len() {
        Seq::empty()
    } else {
        let end = line_end(s, from);
        proof {
            lemma_line_end(s, from);
        }
        if end < s.len() {
            seq![without_cr(s.subrange(from, end))] + lines_from(s, end + 1)
        } else {
            seq![s.subrange(from, end)]
        }
    }
}

/// The lines of a text.
pub open spec fn lines_of(s: Seq<char>) -> Seq<Seq<char>> {
    lines_from(s, 0)
}

/// A line ends at or behind its start, within the text, at a line feed if
/// it ends before the end of the text.
pub proof fn lemma_line_end(s: Seq<char>, from: int)
    requires
        0 <= from <= s.len(),
    ensures
        from <= line_end(s, from) <= s.len(),
        line_end(s, from) < s.len() ==> s[line_end(s, from)] == '\n',
        forall|i: int| from <= i < line_end(s, from) ==> s[i] != '\n',
    decreases s.len() - from,
{
    if from < s.len() && s[from] != '\n' {
        lemma_line_end(s, from + 1);
    }
}

/// The first `n` of `items`, or all of them where there are fewer.
pub open spec fn first_of<A>(items: Seq<A>, n: nat) -> Seq<A> {
    if items.len() > n {
        items.take(n as int)
    } else {
        items
    }
}

/// The first lines of a piece of code on one line, with `\n` between them
/// and three dots behind where the code has more lines.
pub open spec fn code_preview(code: Seq<char>) -> Seq<char> {
    let lines = lines_of(code);
    joined(first_of(lines, ITEMS_SHOWN as nat), "\\n"@) + (if lines.len() > ITEMS_SHOWN {
        "..."@
    } else {
        Seq::empty()
    })
}

/// The values as [`formatted`] shows them, in order.
pub open spec fn shown_values(values: Seq<PyTree>) -> Seq<Seq<char>> {
    Seq::new(values.len(), |i: int| formatted(values[i]))
}

/// The first arguments of a call, with commas between them and an
/// ellipsis behind where the call has more.
pub open spec fn args_preview(args: Seq<PyTree>) -> Seq<char> {
    joined(first_of(shown_values(args), ITEMS_SHOWN as nat), ", "@) + (if args.len()
        > ITEMS_SHOWN {
        ", ..."@
    } else {
        Seq::empty()
    })
}

/// The line that verbose logging shows for an event; nothing for the
/// events that it passes over.
pub open spec fn verbose_text(event: EventView) -> Option<Seq<char>> {
    match event {
        EventView::IterationStart { iteration, max_iterations } => Some(
            "[dragen] Iteration "@ + decimal(iteration) + "/"@ + decimal(max_iterations),
        ),
        EventView::LLMResponse { content, .. } => Some(
            "[dragen] LLM: "@ + preview(content, RESPONSE_PREVIEW as nat),
        ),
        EventView::CodeGenerated { code } => Some("[dragen] Code: "@ + code_preview(code)),
        EventView::CodeExecuted { output, success, .. } => Some(
            (if success {
                "[dragen] ✓ "@
            } else {
                "[dragen] ✗ "@
            }) + preview(output, OUTPUT_PREVIEW as nat),
        ),
        EventView::ToolCall { name, args } => Some(
            "[dragen] Tool: "@ + name + "("@ + args_preview(args) + ")"@,
        ),
        EventView::Finish { value } => Some("[dragen] Finish: "@ + formatted(value)),
        EventView::Error { message } => Some("[dragen] Error: "@ + message),
        _ => None,
    }
}

/// Cuts a text to a preview of at most `limit` characters.
pub fn preview_of(text: &str, limit: usize) -> (s: String)
    ensures
        s@ == preview(text@, limit as nat),
{
    let v = chars_of(text);
    if v.len() > limit {
        let head = text_of(&v, 0, limit);
        let mut s = replace_all(head.as_str(), "\n", "\\n");
        s.append("...");
        s
    } else {
        replace_all(text, "\n", "\\n")
    }
}

/// Splits a text into its lines.
pub fn split_lines(text: &str) -> (lines: Vec<String>)
    ensures
        views(lines@) == lines_of(text@),
{
    let v = chars_of(text);
    let mut lines: Vec<String> = Vec::new();
    let mut from: usize = 0;
    while from < v.len()
        invariant
            0 <= from <= v.len(),
            v@ == text@,
            views(lines@) + lines_from(v@, from as int) == lines_of(text@),
        decreases v.len() - from,
    {
        let ghost before = views(lines@);
        let mut end: usize = from;
        while end < v.len() && v[end] != '\n'
            invariant
                from <= end <= v.len(),
                line_end(v@, from as int) == line_end(v@, end as int),
            decreases v.len() - end,
        {
            end += 1;
        }
        if end < v.len() {
            let stop: usize = if end > from && v[end - 1] == '\r' {
                end - 1
            } else {
                end
            };
            let line = text_of(&v, from, stop);
            proof {
                let whole = v@.subrange(from as int, end as int);
                if end > from {
                    assert(whole.last() == v@[end - 1]);
                }
                assert(line@ =~= without_cr(whole));
            }
            lines.push(line);
            assert(views(lines@) =~= before.push(line@));
            assert(views(lines@) + lines_from(v@, end + 1) =~= before + lines_from(
                v@,
                from as int,
            ));
            from = end + 1;
        } else {
            let line = text_of(&v, from, end);
            lines.push(line);
            assert(views(lines@) =~= before.push(line@));
            assert(views(lines@) + lines_from(v@, end as int) =~= before + lines_from(
                v@,
                from as int,
            ));
            from = end;
        }
    }
    assert(views(lines@) + Seq::<Seq<char>>::empty() =~= views(lines@));
    lines
}

/// The first `n` of `items`, as texts of their own.
fn first_texts(items: &Vec<String>, n: usize) -> (r: Vec<String>)
    ensures
        views(r@) == first_of(views(items@), n as nat),
{
    let mut r: Vec<String> = Vec::new();
    let mut i: usize = 0;
    while i < items.len() && i < n
        invariant
            0 <= i <= items.len(),
            i <= n,
            r.len() == i,
            forall|j: int| 0 <= j < i ==> r[j]@ == items[j]@,
        decreases items.len() - i,
    {
        r.push(items[i].clone());
        i += 1;
    }
    assert(views(r@) =~= first_of(views(items@), n as nat));
    r
}

/// The line that verbose logging shows for an event, if it shows one.
pub fn verbose_line(event: &AgentEvent) -> (line: Option<String>)
    ensures
        crate::message::opt_view(line) == verbose_text(event@),
{
    match event {
        AgentEvent::IterationStart { iteration, max_iterations } => {
            let mut s = String::from_str("[dragen] Iteration ");
            push_decimal(&mut s, *iteration as u64);
            s.append("/");
            push_decimal(&mut s, *max_iterations as u64);
            Some(s)
        },
        AgentEvent::LLMResponse { content, .. } => {
            let mut s = String::from_str("[dragen] LLM: ");
            let shown = preview_of(content.as_str(), RESPONSE_PREVIEW);
            s.append(shown.as_str());
            Some(s)
        },
        AgentEvent::CodeGenerated { code } => {
            let lines = split_lines(code.as_str());
            let first = first_texts(&lines, ITEMS_SHOWN);
            let mut s = String::from_str("[dragen] Code: ");
            let shown = join(&first, "\\n");
            s.append(shown.as_str());
            if lines.len() > ITEMS_SHOWN {
                s.append("...");
            } else {
                assert(s@ + Seq::<char>::empty() =~= s@);
            }
            Some(s)
        },
        AgentEvent::CodeExecuted { output, success, .. } => {
            let mut s = if *success {
                String::from_str("[dragen] ✓ ")
            } else {
                String::from_str("[dragen] ✗ ")
            };
            let shown = preview_of(output.as_str(), OUTPUT_PREVIEW);
            s.append(shown.as_str());
            Some(s)
        },
        AgentEvent::ToolCall { name, args } => {
            let mut shown: Vec<String> = Vec::new();
            let mut i: usize = 0;
            while i < args.len()
                invariant
                    0 <= i <= args.len(),
                    shown.len() == i,
                    forall|j: int| 0 <= j < i ==> shown[j]@ == formatted(args[j]@),
                decreases args.len() - i,
            {
                shown.push(format_pyvalue(&args[i]));
                i += 1;
            }
            assert(views(shown@) =~= shown_values(crate::events::trees_of(args@)));
            let first = first_texts(&shown, ITEMS_SHOWN);
            let mut s = String::from_str("[dragen] Tool: ");
            s.append(name.as_str());
            s.append("(");
            let list = join(&first, ", ");
            s.append(list.as_str());
            if args.len() > ITEMS_SHOWN {
                s.append(", ...");
            } else {
                assert(s@ + Seq::<char>::empty() =~= s@);
            }
            s.append(")");
            Some(s)
        },
        AgentEvent::Finish { value } => {
            let mut s = String::from_str("[dragen] Finish: ");
            let shown = format_pyvalue(value);
            s.append(shown.as_str());
            Some(s)
        },
        AgentEvent::Error { message } => {
            let mut s = String::from_str("[dragen] Error: ");
            s.append(message.as_str());
            Some(s)
        },
        _ => None,
    }
}

} // verus!
