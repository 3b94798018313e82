//! The response parser: finds a finish block, a code block or neither in one
//! assistant turn.
//!
//! A block is the text between an opening and a closing marker. The match
//! that counts is the leftmost one: the first opening marker that has a
//! closing marker behind it, up to the first such closing marker. What a
//! block yields is its inner text without surrounding whitespace.

use vstd::prelude::*;
use crate::text::{
    char_is_whitespace, chars_of, find_from, first_index, is_whitespace, lemma_first_index_is,
    lemma_first_index_none, lemma_first_index_some, occurs_at, starts_with_at, text_of, trim,
    trim_bounds,
};

verus! {

/// Opening marker of a finish block.
pub open spec fn finish_open() -> Seq<char> {
    "<finish>"@
}

/// Closing marker of a finish block.
pub open spec fn finish_close() -> Seq<char> {
    "</finish>"@
}

/// Opening marker of a tag-style code block.
pub open spec fn code_open() -> Seq<char> {
    "<code>"@
}

/// Closing marker of a tag-style code block.
pub open spec fn code_close() -> Seq<char> {
    "</code>"@
}

/// The fence that opens and closes a fenced code block.
pub open spec fn fence() -> Seq<char> {
    "```"@
}

/// Opening marker of a block named `tag`.
pub open spec fn tag_open(tag: Seq<char>) -> Seq<char> {
    "<"@ + tag + ">"@
}

/// Closing marker of a block named `tag`.
pub open spec fn tag_close(tag: Seq<char>) -> Seq<char> {
    "</"@ + tag + ">"@
}

/// The leftmost block delimited by `open` and `close`: where it starts, and
/// its trimmed inner text.
pub open spec fn block_between(text: Seq<char>, open: Seq<char>, close: Seq<char>) -> Option<
    (int, Seq<char>),
> {
    match first_index(text, open, 0) {
        None => None,
        Some(i) => match first_index(text, close, i + open.len()) {
            None => None,
            Some(j) => Some((i, trim(text.subrange(i + open.len(), j)))),
        },
    }
}

/// Length of the language word that follows a fence at `i`: `python`, else
/// `py`, else nothing.
pub open spec fn language_len(text: Seq<char>, i: int) -> int {
    if occurs_at(text, "python"@, i + fence().len()) {
        "python"@.len() as int
    } else if occurs_at(text, "py"@, i + fence().len()) {
        "py"@.len() as int
    } else {
        0
    }
}

/// The run of whitespace that starts at `r` holds a line feed.
pub open spec fn run_has_newline(text: Seq<char>, r: int) -> bool
    decreases text.len() - r,
{
    if 0 <= r < text.len() && is_whitespace(text[r]) {
        text[r] == '\n' || run_has_newline(text, r + 1)
    } else {
        false
    }
}

/// The fenced code block that opens at `i`, if one does: a fence, an
/// optional language word, whitespace up to and including a line feed, the
/// code, and the next fence.
pub open spec fn fence_at(text: Seq<char>, i: int) -> Option<Seq<char>> {
    let r = i + fence().len() + language_len(text, i);
    if occurs_at(text, fence(), i) && run_has_newline(text, r) {
        match first_index(text, fence(), r) {
            Some(j) => Some(trim(text.subrange(r, j))),
            None => None,
        }
    } else {
        None
    }
}

/// The leftmost fenced code block that opens at or after `from`.
pub open spec fn fence_from(text: Seq<char>, from: int) -> Option<(int, Seq<char>)>
    decreases text.len() - from + 1,
{
    if from < 0 || from > text.len() {
        None
    } else {
        match fence_at(text, from) {
            Some(c) => Some((from, c)),
            None => fence_from(text, from + 1),
        }
    }
}

/// What a finish block in `text` yields.
pub open spec fn finish_block(text: Seq<char>) -> Option<Seq<char>> {
    match block_between(text, finish_open(), finish_close()) {
        Some(b) => Some(b.1),
        None => None,
    }
}

/// The leftmost tag-style code block of `text`.
pub open spec fn tagged_code(text: Seq<char>) -> Option<(int, Seq<char>)> {
    block_between(text, code_open(), code_close())
}

/// The leftmost fenced code block of `text`.
pub open spec fn fenced_code(text: Seq<char>) -> Option<(int, Seq<char>)> {
    fence_from(text, 0)
}

/// What the code block of `text` yields: of the two styles, the block that
/// starts first.
pub open spec fn code_block(text: Seq<char>) -> Option<Seq<char>> {
    match (tagged_code(text), fenced_code(text)) {
        (Some(t), Some(f)) => if t.0 < f.0 {
            Some(t.1)
        } else {
            Some(f.1)
        },
        (Some(t), None) => Some(t.1),
        (None, Some(f)) => Some(f.1),
        (None, None) => None,
    }
}

/// What a block named `tag` in `text` yields.
pub open spec fn thinking_block(text: Seq<char>, tag: Seq<char>) -> Option<Seq<char>> {
    match block_between(text, tag_open(tag), tag_close(tag)) {
        Some(b) => Some(b.1),
        None => None,
    }
}

/// One assistant turn, as the run loop reads it.
#[derive(Clone, Debug, PartialEq)]
pub enum Parsed {
    /// A finish block, with its trimmed payload.
    Finish(String),
    /// A code block, with its trimmed code.
    Code(String),
    /// Neither: the whole turn is a plain-text answer.
    Text,
}

/// The mathematical value of a [`Parsed`].
pub enum ParsedView {
    Finish(Seq<char>),
    Code(Seq<char>),
    Text,
}

impl View for Parsed {
    type V = ParsedView;

    open spec fn view(&self) -> ParsedView {
        match self {
            Parsed::Finish(s) => ParsedView::Finish(s@),
            Parsed::Code(s) => ParsedView::Code(s@),
            Parsed::Text => ParsedView::Text,
        }
    }
}

/// How `text` parses: a finish block first, then a code block, then plain
/// text.
pub open spec fn parsed(text: Seq<char>) -> ParsedView {
    match finish_block(text) {
        Some(c) => ParsedView::Finish(c),
        None => match code_block(text) {
            Some(c) => ParsedView::Code(c),
            None => ParsedView::Text,
        },
    }
}

/// A block whose opening marker is the first in the text, and whose body is
/// closed by the first closing marker behind it, is the block that
/// `block_between` finds, whatever stands before and after it.
pub proof fn lemma_block_between(
    pre: Seq<char>,
    body: Seq<char>,
    post: Seq<char>,
    open: Seq<char>,
    close: Seq<char>,
)
    requires
        forall|j: int| 0 <= j < pre.len() ==> !occurs_at(pre + open, open, j),
        forall|j: int| 0 <= j < body.len() ==> !occurs_at(body + close, close, j),
    ensures
        block_between(pre + open + body + close + post, open, close) == Some(
            (pre.len() as int, trim(body)),
        ),
{
    let text = pre + open + body + close + post;
    let i = pre.len() as int;
    let k = i + open.len();
    let j = k + body.len();
    assert(text.subrange(i, i + open.len()) =~= open);
    assert forall|p: int| 0 <= p < i implies !occurs_at(text, open, p) by {
        assert(!occurs_at(pre + open, open, p));
        assert(text.subrange(p, p + open.len()) =~= (pre + open).subrange(p, p + open.len()));
    }
    lemma_first_index_is(text, open, 0, i);
    assert(text.subrange(j, j + close.len()) =~= close);
    assert forall|p: int| k <= p < j implies !occurs_at(text, close, p) by {
        assert(!occurs_at(body + close, close, p - k));
        assert(text.subrange(p, p + close.len()) =~= (body + close).subrange(
            p - k,
            p - k + close.len(),
        ));
    }
    lemma_first_index_is(text, close, k, j);
    assert(text.subrange(k, j) =~= body);
}

/// A response that holds a finish block parses as that block's trimmed
/// payload and as no code block, whatever prose surrounds it. The block is
/// the text from the first opening marker of the response to the first
/// closing marker behind it.
pub proof fn law_finish_block_wins(pre: Seq<char>, body: Seq<char>, post: Seq<char>)
    requires
        forall|j: int|
            0 <= j < pre.len() ==> !occurs_at(pre + finish_open(), finish_open(), j),
        forall|j: int|
            0 <= j < body.len() ==> !occurs_at(body + finish_close(), finish_close(), j),
    ensures
        parsed(pre + finish_open() + body + finish_close() + post) == ParsedView::Finish(
            trim(body),
        ),
{
    lemma_block_between(pre, body, post, finish_open(), finish_close());
}

/// A response in which a closing finish marker stands behind an opening one
/// always parses as a finish block, never as code or plain text.
pub proof fn law_finish_before_code(text: Seq<char>, i: int, j: int)
    requires
        occurs_at(text, finish_open(), i),
        occurs_at(text, finish_close(), j),
        i + finish_open().len() <= j,
    ensures
        parsed(text) is Finish,
        finish_block(text) is Some,
{
    if first_index(text, finish_open(), 0) is None {
        lemma_first_index_none(text, finish_open(), 0);
    }
    let a = first_index(text, finish_open(), 0)->0;
    lemma_first_index_some(text, finish_open(), 0);
    assert(a <= i);
    if first_index(text, finish_close(), a + finish_open().len()) is None {
        lemma_first_index_none(text, finish_close(), a + finish_open().len());
    }
}

/// Where a response holds both a tag-style and a fenced code block, the
/// parser yields the one that starts first in the text; the two never start
/// at the same place.
pub proof fn law_first_code_block_wins(text: Seq<char>)
    requires
        tagged_code(text) is Some,
        fenced_code(text) is Some,
    ensures
        tagged_code(text).unwrap().0 != fenced_code(text).unwrap().0,
        tagged_code(text).unwrap().0 < fenced_code(text).unwrap().0 ==> code_block(text) == Some(
            tagged_code(text).unwrap().1,
        ),
        fenced_code(text).unwrap().0 < tagged_code(text).unwrap().0 ==> code_block(text) == Some(
            fenced_code(text).unwrap().1,
        ),
{
    let t = tagged_code(text).unwrap().0;
    let f = fenced_code(text).unwrap().0;
    lemma_first_index_some(text, code_open(), 0);
    lemma_fence_from_some(text, 0);
    reveal_strlit("<code>");
    reveal_strlit("```");
    if t == f {
        assert(text.subrange(t, t + code_open().len())[0] == text[t]);
        assert(text.subrange(f, f + fence().len())[0] == text[f]);
        assert(code_open()[0] == '<');
        assert(fence()[0] == '`');
    }
}

/// What `fence_from` finds is a fenced block, and no fenced block opens
/// between `from` and it.
pub proof fn lemma_fence_from_some(text: Seq<char>, from: int)
    requires
        fence_from(text, from) is Some,
    ensures
        from <= fence_from(text, from).unwrap().0 <= text.len(),
        fence_at(text, fence_from(text, from).unwrap().0) == Some(fence_from(text, from).unwrap().1),
        forall|j: int| from <= j < fence_from(text, from).unwrap().0 ==> fence_at(text, j) is None,
    decreases text.len() - from + 1,
{
    if fence_at(text, from) is None {
        lemma_fence_from_some(text, from + 1);
    }
}

/// The leftmost block of `v` between `open` and `close`: its start and the
/// bounds of its trimmed inner text.
fn block_in(v: &Vec<char>, open: &Vec<char>, close: &Vec<char>) -> (r: Option<
    (usize, usize, usize),
>)
    ensures
        match r {
            Some((i, a, b)) => {
                &&& a <= b <= v.len()
                &&& block_between(v@, open@, close@) == Some(
                    (i as int, v@.subrange(a as int, b as int)),
                )
            },
            None => block_between(v@, open@, close@) is None,
        },
{
    match find_from(v, open, 0) {
        None => None,
        Some(i) => match find_from(v, close, i + open.len()) {
            None => None,
            Some(j) => {
                let (a, b) = trim_bounds(v, i + open.len(), j);
                Some((i, a, b))
            },
        },
    }
}

/// Whether the whitespace run that starts at `r` holds a line feed.
fn scan_run(v: &Vec<char>, r: usize) -> (b: bool)
    ensures
        b == run_has_newline(v@, r as int),
{
    let mut k: usize = r;
    while k < v.len() && char_is_whitespace(v[k])
        invariant
            r <= k,
            run_has_newline(v@, r as int) == run_has_newline(v@, k as int),
        decreases v.len() - k,
    {
        if v[k] == '\n' {
            return true;
        }
        k += 1;
    }
    false
}

/// The fenced block that opens at `i`: the bounds of its trimmed code.
fn fence_in(v: &Vec<char>, i: usize, marks: &FenceMarks) -> (r: Option<(usize, usize)>)
    requires
        marks.wf(),
        i <= v.len(),
    ensures
        match r {
            Some((a, b)) => {
                &&& a <= b <= v.len()
                &&& fence_at(v@, i as int) == Some(v@.subrange(a as int, b as int))
            },
            None => fence_at(v@, i as int) is None,
        },
{
    if !starts_with_at(v, &marks.fence, i) {
        return None;
    }
    let after: usize = i + marks.fence.len();
    let lang: usize = if starts_with_at(v, &marks.python, after) {
        marks.python.len()
    } else if starts_with_at(v, &marks.py, after) {
        marks.py.len()
    } else {
        0
    };
    let r: usize = after + lang;
    if !scan_run(v, r) {
        return None;
    }
    match find_from(v, &marks.fence, r) {
        None => None,
        Some(j) => {
            let (a, b) = trim_bounds(v, r, j);
            Some((a, b))
        },
    }
}

/// The marker texts of a fenced block, as characters.
struct FenceMarks {
    fence: Vec<char>,
    python: Vec<char>,
    py: Vec<char>,
}

impl FenceMarks {
    spec fn wf(&self) -> bool {
        &&& self.fence@ == fence()
        &&& self.python@ == "python"@
        &&& self.py@ == "py"@
    }

    fn new() -> (m: FenceMarks)
        ensures
            m.wf(),
    {
        FenceMarks { fence: chars_of("```"), python: chars_of("python"), py: chars_of("py") }
    }
}

/// The leftmost fenced block of `v`: its start and the bounds of its code.
fn fenced_in(v: &Vec<char>) -> (r: Option<(usize, usize, usize)>)
    ensures
        match r {
            Some((i, a, b)) => {
                &&& a <= b <= v.len()
                &&& fenced_code(v@) == Some((i as int, v@.subrange(a as int, b as int)))
            },
            None => fenced_code(v@) is None,
        },
{
    let marks = FenceMarks::new();
    let mut i: usize = 0;
    loop
        invariant
            marks.wf(),
            0 <= i <= v.len(),
            fence_from(v@, 0) == fence_from(v@, i as int),
        decreases v.len() - i,
    {
        match fence_in(v, i, &marks) {
            Some((a, b)) => {
                return Some((i, a, b));
            },
            None => {},
        }
        if i == v.len() {
            assert(fence_from(v@, i + 1) is None);
            return None;
        }
        i += 1;
    }
}

/// The payload of the finish block in `text`, if there is one.
pub fn extract_finish(text: &str) -> (r: Option<String>)
    ensures
        match r {
            Some(s) => finish_block(text@) == Some(s@),
            None => finish_block(text@) is None,
        },
{
    let v = chars_of(text);
    let open = chars_of("<finish>");
    let close = chars_of("</finish>");
    match block_in(&v, &open, &close) {
        Some((_, a, b)) => Some(text_of(&v, a, b)),
        None => None,
    }
}

/// The code of the code block in `text`, if there is one.
pub fn extract_code(text: &str) -> (r: Option<String>)
    ensures
        match r {
            Some(s) => code_block(text@) == Some(s@),
            None => code_block(text@) is None,
        },
{
    let v = chars_of(text);
    let open = chars_of("<code>");
    let close = chars_of("</code>");
    let tagged = block_in(&v, &open, &close);
    let fenced = fenced_in(&v);
    match (tagged, fenced) {
        (Some((ti, ta, tb)), Some((fi, fa, fb))) => {
            if ti < fi {
                Some(text_of(&v, ta, tb))
            } else {
                Some(text_of(&v, fa, fb))
            }
        },
        (Some((_, ta, tb)), None) => Some(text_of(&v, ta, tb)),
        (None, Some((_, fa, fb))) => Some(text_of(&v, fa, fb)),
        (None, None) => None,
    }
}

/// The text enclosed in the block named `tag` in `text`, if there is one.
pub fn extract_thinking(text: &str, tag: &str) -> (r: Option<String>)
    ensures
        match r {
            Some(s) => thinking_block(text@, tag@) == Some(s@),
            None => thinking_block(text@, tag@) is None,
        },
{
    let v = chars_of(text);
    let t = chars_of(tag);
    let mut open = chars_of("<");
    let mut close = chars_of("</");
    let mut end = chars_of(">");
    let mut end2 = chars_of(">");
    let mut t2 = chars_of(tag);
    let mut t1 = t;
    open.append(&mut t1);
    open.append(&mut end);
    close.append(&mut t2);
    close.append(&mut end2);
    match block_in(&v, &open, &close) {
        Some((_, a, b)) => Some(text_of(&v, a, b)),
        None => None,
    }
}

/// Reads one assistant turn: its finish block if it has one, else its code
/// block if it has one, else plain text.
pub fn parse_response(text: &str) -> (r: Parsed)
    ensures
        r@ == parsed(text@),
{
    match extract_finish(text) {
        Some(c) => Parsed::Finish(c),
        None => match extract_code(text) {
            Some(c) => Parsed::Code(c),
            None => Parsed::Text,
        },
    }
}

} // verus!
