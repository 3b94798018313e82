//! Character-level text primitives: whitespace, trimming, substring search,
//! replacement and decimal rendering, each with an exact mathematical model
//! over `Seq<char>`.

use vstd::prelude::*;
use vstd::string::StringExecFns;

verus! {

/// The Unicode `White_Space` property, which is what both `char::is_whitespace`
/// and the regular-expression class `\s` denote.
pub open spec fn is_whitespace(c: char) -> bool {
    let n = c as u32;
    ||| (0x09 <= n && n <= 0x0D)
    ||| n == 0x20
    ||| n == 0x85
    ||| n == 0xA0
    ||| n == 0x1680
    ||| (0x2000 <= n && n <= 0x200A)
    ||| n == 0x2028
    ||| n == 0x2029
    ||| n == 0x202F
    ||| n == 0x205F
    ||| n == 0x3000
}

/// Executable test for [`is_whitespace`].
pub fn char_is_whitespace(c: char) -> (b: bool)
    ensures
        b == is_whitespace(c),
{
    let n: u32 = c as u32;
    (0x09 <= n && n <= 0x0D) || n == 0x20 || n == 0x85 || n == 0xA0 || n == 0x1680 || (0x2000 <= n
        && n <= 0x200A) || n == 0x2028 || n == 0x2029 || n == 0x202F || n == 0x205F || n == 0x3000
}

/// How many characters at the front of `s` are whitespace.
pub open spec fn lead(s: Seq<char>) -> nat
    decreases s.len(),
{
    if s.len() > 0 && is_whitespace(s[0]) {
        1 + lead(s.drop_first())
    } else {
        0
    }
}

/// How many characters at the back of `s` are whitespace.
pub open spec fn trail(s: Seq<char>) -> nat
    decreases s.len(),
{
    if s.len() > 0 && is_whitespace(s.last()) {
        1 + trail(s.drop_last())
    } else {
        0
    }
}

/// `s` without its leading and trailing whitespace.
pub open spec fn trim(s: Seq<char>) -> Seq<char> {
    let t = s.subrange(lead(s) as int, s.len() as int);
    t.subrange(0, t.len() - trail(t))
}

/// Every character of `s` is whitespace.
pub open spec fn all_whitespace(s: Seq<char>) -> bool {
    forall|i: int| 0 <= i < s.len() ==> is_whitespace(#[trigger] s[i])
}

/// `needle` stands in `hay` at index `i`.
pub open spec fn occurs_at(hay: Seq<char>, needle: Seq<char>, i: int) -> bool {
    &&& 0 <= i
    &&& i + needle.len() <= hay.len()
    &&& hay.subrange(i, i + needle.len()) == needle
}

/// The least index at or after `from` at which `needle` stands in `hay`.
pub open spec fn first_index(hay: Seq<char>, needle: Seq<char>, from: int) -> Option<int>
    decreases hay.len() - from + 1,
{
    if from < 0 || from + needle.len() > hay.len() {
        None
    } else if occurs_at(hay, needle, from) {
        Some(from)
    } else {
        first_index(hay, needle, from + 1)
    }
}

/// `needle` stands somewhere in `hay`.
pub open spec fn contains(hay: Seq<char>, needle: Seq<char>) -> bool {
    first_index(hay, needle, 0) is Some
}

/// `hay` with every occurrence of `from` replaced by `to`, scanning left to
/// right and never matching inside a replacement or across two matches. An
/// empty `from` occurs nowhere, and nothing is replaced.
pub open spec fn replaced(hay: Seq<char>, from: Seq<char>, to: Seq<char>) -> Seq<char>
    decreases hay.len(),
{
    if from.len() == 0 || hay.len() == 0 {
        hay
    } else if occurs_at(hay, from, 0) {
        to + replaced(hay.subrange(from.len() as int, hay.len() as int), from, to)
    } else {
        seq![hay[0]] + replaced(hay.drop_first(), from, to)
    }
}

/// The decimal digit for `d < 10`.
pub open spec fn digit(d: nat) -> char {
    if d == 0 {
        '0'
    } else if d == 1 {
        '1'
    } else if d == 2 {
        '2'
    } else if d == 3 {
        '3'
    } else if d == 4 {
        '4'
    } else if d == 5 {
        '5'
    } else if d == 6 {
        '6'
    } else if d == 7 {
        '7'
    } else if d == 8 {
        '8'
    } else {
        '9'
    }
}

/// `n` written in base ten, without leading zeros.
pub open spec fn decimal(n: nat) -> Seq<char>
    decreases n,
{
    if n < 10 {
        seq![digit(n)]
    } else {
        decimal(n / 10).push(digit(n % 10))
    }
}

/// `n` written in base ten, with a minus sign when negative.
pub open spec fn signed_decimal(n: int) -> Seq<char> {
    if n < 0 {
        seq!['-'] + decimal((-n) as nat)
    } else {
        decimal(n as nat)
    }
}

/// `first_index` finds an occurrence, and nothing occurs between `from` and it.
pub proof fn lemma_first_index_some(hay: Seq<char>, needle: Seq<char>, from: int)
    requires
        first_index(hay, needle, from) is Some,
    ensures
        from <= first_index(hay, needle, from)->0,
        occurs_at(hay, needle, first_index(hay, needle, from)->0),
        forall|j: int|
            from <= j < first_index(hay, needle, from)->0 ==> !occurs_at(hay, needle, j),
    decreases hay.len() - from + 1,
{
    if !occurs_at(hay, needle, from) {
        lemma_first_index_some(hay, needle, from + 1);
    }
}

/// Where `first_index` finds nothing, nothing occurs at or after `from`.
pub proof fn lemma_first_index_none(hay: Seq<char>, needle: Seq<char>, from: int)
    requires
        0 <= from,
        first_index(hay, needle, from) is None,
    ensures
        forall|j: int| from <= j ==> !occurs_at(hay, needle, j),
    decreases hay.len() - from + 1,
{
    if from + needle.len() <= hay.len() {
        lemma_first_index_none(hay, needle, from + 1);
    }
}

/// An occurrence at `i` with nothing before it, from `from` on, is what
/// `first_index` returns.
pub proof fn lemma_first_index_is(hay: Seq<char>, needle: Seq<char>, from: int, i: int)
    requires
        0 <= from <= i,
        occurs_at(hay, needle, i),
        forall|j: int| from <= j < i ==> !occurs_at(hay, needle, j),
    ensures
        first_index(hay, needle, from) == Some(i),
    decreases i - from,
{
    if from < i {
        lemma_first_index_is(hay, needle, from + 1, i);
    }
}

/// Whitespace in front of a text does not change what `trim` leaves.
pub proof fn lemma_lead_split(s: Seq<char>, k: int)
    requires
        0 <= k <= s.len(),
        all_whitespace(s.subrange(0, k)),
    ensures
        lead(s) == k + lead(s.subrange(k, s.len() as int)),
    decreases k,
{
    if k == 0 {
        assert(s.subrange(0, s.len() as int) =~= s);
    } else {
        assert(s.subrange(0, k)[0] == s[0]);
        let t = s.drop_first();
        assert forall|i: int| 0 <= i < k - 1 implies is_whitespace(
            #[trigger] t.subrange(0, k - 1)[i],
        ) by {
            assert(t.subrange(0, k - 1)[i] == s.subrange(0, k)[i + 1]);
        }
        lemma_lead_split(t, k - 1);
        assert(t.subrange(k - 1, t.len() as int) =~= s.subrange(k, s.len() as int));
    }
}

/// Whitespace behind a text does not change what `trim` leaves.
pub proof fn lemma_trail_split(s: Seq<char>, k: int)
    requires
        0 <= k <= s.len(),
        all_whitespace(s.subrange(k, s.len() as int)),
    ensures
        trail(s) == (s.len() - k) + trail(s.subrange(0, k)),
    decreases s.len() - k,
{
    if k == s.len() {
        assert(s.subrange(0, k) =~= s);
    } else {
        assert(s.subrange(k, s.len() as int)[s.len() - k - 1] == s.last());
        let t = s.drop_last();
        assert forall|i: int| 0 <= i < t.len() - k implies is_whitespace(
            #[trigger] t.subrange(k, t.len() as int)[i],
        ) by {
            assert(t.subrange(k, t.len() as int)[i] == s.subrange(k, s.len() as int)[i]);
        }
        lemma_trail_split(t, k);
        assert(t.subrange(0, k) =~= s.subrange(0, k));
    }
}

/// A text in upper case, as `str::to_uppercase` gives it: every character
/// replaced by its Unicode upper-case mapping, whatever the locale.
pub uninterp spec fn uppercase(s: Seq<char>) -> Seq<char>;

/// `str::to_uppercase`: the upper-case form of the text.
#[verifier::external_body]
pub(crate) fn to_uppercase(s: &str) -> (r: String)
    ensures
        r@ == uppercase(s@),
{
    s.to_uppercase()
}

/// The leading whitespace of a text is whitespace, and what follows it is
/// not.
pub proof fn lemma_lead(s: Seq<char>)
    ensures
        lead(s) <= s.len(),
        all_whitespace(s.subrange(0, lead(s) as int)),
        lead(s) < s.len() ==> !is_whitespace(s[lead(s) as int]),
    decreases s.len(),
{
    if s.len() > 0 && is_whitespace(s[0]) {
        let t = s.drop_first();
        lemma_lead(t);
        assert forall|i: int| 0 <= i < lead(s) implies is_whitespace(
            #[trigger] s.subrange(0, lead(s) as int)[i],
        ) by {
            if i > 0 {
                assert(s.subrange(0, lead(s) as int)[i] == t.subrange(0, lead(t) as int)[i - 1]);
            }
        }
        if lead(s) < s.len() {
            assert(s[lead(s) as int] == t[lead(t) as int]);
        }
    }
}

/// The trailing whitespace of a text is whitespace, and what stands before
/// it is not.
pub proof fn lemma_trail(s: Seq<char>)
    ensures
        trail(s) <= s.len(),
        all_whitespace(s.subrange(s.len() - trail(s), s.len() as int)),
        trail(s) < s.len() ==> !is_whitespace(s[s.len() - trail(s) - 1]),
    decreases s.len(),
{
    if s.len() > 0 && is_whitespace(s.last()) {
        let t = s.drop_last();
        lemma_trail(t);
        let from = s.len() - trail(s);
        assert forall|i: int| 0 <= i < trail(s) implies is_whitespace(
            #[trigger] s.subrange(from, s.len() as int)[i],
        ) by {
            if i < trail(s) - 1 {
                assert(s.subrange(from, s.len() as int)[i] == t.subrange(
                    t.len() - trail(t),
                    t.len() as int,
                )[i]);
            }
        }
        if trail(s) < s.len() {
            assert(s[s.len() - trail(s) - 1] == t[t.len() - trail(t) - 1]);
        }
    }
}

/// Trimming cuts whitespace and nothing else: what is left is a stretch of
/// the text with only whitespace before and behind it, and it neither
/// begins nor ends with whitespace.
pub proof fn law_trim_is_tight(s: Seq<char>)
    ensures
        exists|a: int, b: int|
            {
                &&& 0 <= a <= b <= s.len()
                &&& #[trigger] s.subrange(a, b) == trim(s)
                &&& all_whitespace(s.subrange(0, a))
                &&& all_whitespace(s.subrange(b, s.len() as int))
            },
        trim(s).len() > 0 ==> !is_whitespace(trim(s)[0]) && !is_whitespace(trim(s).last()),
{
    lemma_lead(s);
    let a = lead(s) as int;
    let t = s.subrange(a, s.len() as int);
    lemma_trail(t);
    let b = s.len() - trail(t);
    assert(t.subrange(0, t.len() - trail(t)) =~= s.subrange(a, b));
    assert(t.subrange(t.len() - trail(t), t.len() as int) =~= s.subrange(b, s.len() as int));
    if trim(s).len() > 0 {
        assert(trim(s)[0] == s[a]);
        assert(trim(s).last() == t[t.len() - trail(t) - 1]);
    }
}

/// A text that occurs somewhere is found.
pub proof fn lemma_occurrence_is_found(hay: Seq<char>, needle: Seq<char>, i: int)
    requires
        occurs_at(hay, needle, i),
    ensures
        contains(hay, needle),
{
    if first_index(hay, needle, 0) is None {
        lemma_first_index_none(hay, needle, 0);
    }
}

/// `String::push`: appends one character to the text.
#[verifier::external_body]
pub(crate) fn push_char(s: &mut String, c: char)
    ensures
        final(s)@ == old(s)@.push(c),
{
    s.push(c)
}

/// The characters of `s`, in order.
pub fn chars_of(s: &str) -> (v: Vec<char>)
    ensures
        v@ == s@,
{
    let mut v: Vec<char> = Vec::new();
    for c in it: s.chars()
        invariant
            v@ == it.seq().take(it.index() as int),
            it.seq() == s@,
    {
        v.push(c);
    }
    v
}

/// The text made of `v[lo..hi]`.
pub fn text_of(v: &Vec<char>, lo: usize, hi: usize) -> (s: String)
    requires
        lo <= hi <= v.len(),
    ensures
        s@ == v@.subrange(lo as int, hi as int),
{
    let mut s = String::new();
    let mut i: usize = lo;
    while i < hi
        invariant
            lo <= i <= hi <= v.len(),
            s@ == v@.subrange(lo as int, i as int),
        decreases hi - i,
    {
        push_char(&mut s, v[i]);
        i += 1;
    }
    s
}

/// Whether `needle` stands in `hay` at index `i`.
pub fn starts_with_at(hay: &Vec<char>, needle: &Vec<char>, i: usize) -> (b: bool)
    ensures
        b == occurs_at(hay@, needle@, i as int),
{
    if needle.len() > hay.len() || i > hay.len() - needle.len() {
        return false;
    }
    let mut k: usize = 0;
    while k < needle.len()
        invariant
            0 <= k <= needle.len(),
            i + needle.len() <= hay.len(),
            forall|j: int| 0 <= j < k ==> hay@[i + j] == needle@[j],
        decreases needle.len() - k,
    {
        if hay[i + k] != needle[k] {
            assert(hay@.subrange(i as int, i + needle.len())[k as int] == hay@[i + k]);
            return false;
        }
        k += 1;
    }
    assert(hay@.subrange(i as int, i + needle.len()) =~= needle@);
    true
}

/// The least index at or after `from` at which `needle` stands in `hay`.
pub fn find_from(hay: &Vec<char>, needle: &Vec<char>, from: usize) -> (r: Option<usize>)
    ensures
        match r {
            Some(i) => {
                &&& first_index(hay@, needle@, from as int) == Some(i as int)
                &&& from <= i
                &&& i + needle.len() <= hay.len()
            },
            None => first_index(hay@, needle@, from as int) is None,
        },
{
    if needle.len() > hay.len() || from > hay.len() - needle.len() {
        return None;
    }
    let last: usize = hay.len() - needle.len();
    let mut i: usize = from;
    loop
        invariant
            from <= i <= last,
            last == hay.len() - needle.len(),
            first_index(hay@, needle@, from as int) == first_index(hay@, needle@, i as int),
        decreases last - i,
    {
        if starts_with_at(hay, needle, i) {
            return Some(i);
        }
        if i == last {
            assert(first_index(hay@, needle@, i + 1) is None);
            return None;
        }
        i += 1;
    }
}

/// The bounds of `v[lo..hi]` once its leading and trailing whitespace is cut.
pub fn trim_bounds(v: &Vec<char>, lo: usize, hi: usize) -> (r: (usize, usize))
    requires
        lo <= hi <= v.len(),
    ensures
        lo <= r.0 <= r.1 <= hi,
        v@.subrange(r.0 as int, r.1 as int) == trim(v@.subrange(lo as int, hi as int)),
{
    let ghost s = v@.subrange(lo as int, hi as int);
    let mut a: usize = lo;
    while a < hi && char_is_whitespace(v[a])
        invariant
            lo <= a <= hi <= v.len(),
            s == v@.subrange(lo as int, hi as int),
            all_whitespace(s.subrange(0, a - lo)),
        decreases hi - a,
    {
        proof {
            let nxt = s.subrange(0, a + 1 - lo);
            assert forall|i: int| 0 <= i < nxt.len() implies is_whitespace(#[trigger] nxt[i]) by {
                if i < a - lo {
                    assert(nxt[i] == s.subrange(0, a - lo)[i]);
                } else {
                    assert(nxt[i] == v@[a as int]);
                }
            }
        }
        a += 1;
    }
    let ghost t = s.subrange(a - lo, s.len() as int);
    proof {
        lemma_lead_split(s, a - lo);
        assert(t =~= v@.subrange(a as int, hi as int));
        if a < hi {
            assert(t[0] == v@[a as int]);
        }
        assert(lead(t) == 0);
        assert(lead(s) == a - lo);
    }
    let mut b: usize = hi;
    while b > a && char_is_whitespace(v[b - 1])
        invariant
            a <= b <= hi <= v.len(),
            t == v@.subrange(a as int, hi as int),
            all_whitespace(t.subrange(b - a, t.len() as int)),
        decreases b,
    {
        proof {
            let nxt = t.subrange(b - 1 - a, t.len() as int);
            assert forall|i: int| 0 <= i < nxt.len() implies is_whitespace(#[trigger] nxt[i]) by {
                if i == 0 {
                    assert(nxt[i] == v@[b - 1]);
                } else {
                    assert(nxt[i] == t.subrange(b - a, t.len() as int)[i - 1]);
                }
            }
        }
        b -= 1;
    }
    proof {
        lemma_trail_split(t, b - a);
        let u = t.subrange(0, b - a);
        assert(u =~= v@.subrange(a as int, b as int));
        if a < b {
            assert(u.last() == v@[b - 1]);
        }
        assert(trail(u) == 0);
        assert(trail(t) == hi - b);
        assert(t.subrange(0, t.len() - trail(t)) =~= v@.subrange(a as int, b as int));
    }
    (a, b)
}

/// `text` without its leading and trailing whitespace.
pub fn trimmed(text: &str) -> (s: String)
    ensures
        s@ == trim(text@),
{
    let v = chars_of(text);
    let (a, b) = trim_bounds(&v, 0, v.len());
    assert(v@.subrange(0, v.len() as int) =~= v@);
    text_of(&v, a, b)
}

/// Whether two texts are the same.
pub fn text_eq(a: &str, b: &str) -> (r: bool)
    ensures
        r == (a@ == b@),
{
    let x = chars_of(a);
    let y = chars_of(b);
    if x.len() != y.len() {
        return false;
    }
    let mut i: usize = 0;
    while i < x.len()
        invariant
            0 <= i <= x.len(),
            x.len() == y.len(),
            x@ == a@,
            y@ == b@,
            forall|j: int| 0 <= j < i ==> x[j] == y[j],
        decreases x.len() - i,
    {
        if x[i] != y[i] {
            assert(x@[i as int] != y@[i as int]);
            return false;
        }
        i += 1;
    }
    assert(x@ =~= y@);
    true
}

/// Whether `needle` stands somewhere in `hay`.
pub fn text_contains(hay: &str, needle: &str) -> (b: bool)
    ensures
        b == contains(hay@, needle@),
{
    let h = chars_of(hay);
    let n = chars_of(needle);
    find_from(&h, &n, 0).is_some()
}

/// Whether `hay` begins with `prefix`.
pub fn text_starts_with(hay: &str, prefix: &str) -> (b: bool)
    ensures
        b == occurs_at(hay@, prefix@, 0),
{
    let h = chars_of(hay);
    let p = chars_of(prefix);
    starts_with_at(&h, &p, 0)
}

/// `hay` with every occurrence of `from` replaced by `to`.
pub fn replace_all(hay: &str, from: &str, to: &str) -> (s: String)
    ensures
        s@ == replaced(hay@, from@, to@),
{
    let h = chars_of(hay);
    let f = chars_of(from);
    let mut out = String::new();
    if f.len() == 0 {
        out.append(hay);
        assert(out@ =~= hay@);
        return out;
    }
    let mut i: usize = 0;
    assert(h@.subrange(0, h.len() as int) =~= h@);
    assert(out@ + replaced(h@, from@, to@) =~= replaced(h@, from@, to@));
    while i < h.len()
        invariant
            0 <= i <= h.len(),
            h@ == hay@,
            f@ == from@,
            f.len() > 0,
            out@ + replaced(h@.subrange(i as int, h.len() as int), from@, to@) == replaced(
                hay@,
                from@,
                to@,
            ),
        decreases h.len() - i,
    {
        let ghost rest = h@.subrange(i as int, h.len() as int);
        let ghost before = out@;
        if starts_with_at(&h, &f, i) {
            proof {
                assert(rest.subrange(0, f.len() as int) =~= h@.subrange(i as int, i + f.len()));
                assert(occurs_at(rest, from@, 0));
                assert(rest.subrange(f.len() as int, rest.len() as int) =~= h@.subrange(
                    i + f.len(),
                    h.len() as int,
                ));
            }
            out.append(to);
            i += f.len();
            assert(out@ + replaced(h@.subrange(i as int, h.len() as int), from@, to@) =~= before
                + replaced(rest, from@, to@));
        } else {
            proof {
                if i + f.len() <= h.len() {
                    assert(rest.subrange(0, f.len() as int) =~= h@.subrange(
                        i as int,
                        i + f.len(),
                    ));
                }
                assert(!occurs_at(rest, from@, 0));
                assert(rest.drop_first() =~= h@.subrange(i + 1, h.len() as int));
            }
            push_char(&mut out, h[i]);
            i += 1;
            assert(out@ + replaced(h@.subrange(i as int, h.len() as int), from@, to@) =~= before
                + replaced(rest, from@, to@));
        }
    }
    assert(h@.subrange(i as int, h.len() as int) =~= Seq::<char>::empty());
    assert(out@ + Seq::<char>::empty() =~= out@);
    out
}

/// The digit character for `d < 10`.
pub fn digit_char(d: u8) -> (c: char)
    requires
        d < 10,
    ensures
        c == digit(d as nat),
{
    if d == 0 {
        '0'
    } else if d == 1 {
        '1'
    } else if d == 2 {
        '2'
    } else if d == 3 {
        '3'
    } else if d == 4 {
        '4'
    } else if d == 5 {
        '5'
    } else if d == 6 {
        '6'
    } else if d == 7 {
        '7'
    } else if d == 8 {
        '8'
    } else {
        '9'
    }
}

/// Appends `n` in base ten to `out`.
pub fn push_decimal(out: &mut String, n: u64)
    ensures
        final(out)@ == old(out)@ + decimal(n as nat),
    decreases n,
{
    if n >= 10 {
        push_decimal(out, n / 10);
    }
    let d: u8 = (n % 10) as u8;
    push_char(out, digit_char(d));
    assert(final(out)@ =~= old(out)@ + decimal(n as nat));
}

/// `n` in base ten.
pub fn decimal_text(n: u64) -> (s: String)
    ensures
        s@ == decimal(n as nat),
{
    let mut s = String::new();
    push_decimal(&mut s, n);
    assert(Seq::<char>::empty() + decimal(n as nat) =~= decimal(n as nat));
    s
}

/// `n` in base ten, with a minus sign when negative.
pub fn signed_decimal_text(n: i64) -> (s: String)
    ensures
        s@ == signed_decimal(n as int),
{
    let mut s = String::new();
    if n < 0 {
        push_char(&mut s, '-');
        let m: u64 = ((-(n + 1)) as u64) + 1;
        push_decimal(&mut s, m);
        assert(s@ =~= seq!['-'] + decimal((-n) as nat));
    } else {
        push_decimal(&mut s, n as u64);
        assert(s@ =~= decimal(n as nat));
    }
    s
}

} // verus!
