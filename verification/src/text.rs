//! Searching and trimming text, over its characters.
//!
//! The executable functions work on a window `[from, to)` of a vector of
//! characters, so that a caller can narrow a text step by step without
//! copying it; the specifications speak of the sequence inside the window.

use vstd::prelude::*;

verus! {

/// Whether `c` has the Unicode property `White_Space`.
pub open spec fn whitespace(c: char) -> bool {
    let u = c as u32;
    ||| 0x09 <= u <= 0x0D
    ||| u == 0x20
    ||| u == 0x85
    ||| u == 0xA0
    ||| u == 0x1680
    ||| 0x2000 <= u <= 0x200A
    ||| u == 0x2028
    ||| u == 0x2029
    ||| u == 0x202F
    ||| u == 0x205F
    ||| u == 0x3000
}

/// Whether `needle` stands in `hay` with its first character at `at`.
pub open spec fn occurs_at(hay: Seq<char>, needle: Seq<char>, at: int) -> bool {
    &&& 0 <= at
    &&& at + needle.len() <= hay.len()
    &&& hay.subrange(at, at + needle.len()) == needle
}

/// Whether `needle` stands anywhere in `hay`.
pub open spec fn contains(hay: Seq<char>, needle: Seq<char>) -> bool {
    exists|at: int| occurs_at(hay, needle, at)
}

/// Whether `needle` stands in `hay` at `at` and nowhere further left.
pub open spec fn is_first_occurrence(hay: Seq<char>, needle: Seq<char>, at: int) -> bool {
    &&& occurs_at(hay, needle, at)
    &&& forall|j: int| 0 <= j < at ==> !occurs_at(hay, needle, j)
}

/// Where `needle` stands leftmost in `hay`, if it stands there at all.
pub open spec fn first_occurrence(hay: Seq<char>, needle: Seq<char>) -> Option<int> {
    if contains(hay, needle) {
        Some(choose|at: int| is_first_occurrence(hay, needle, at))
    } else {
        None
    }
}

/// What is left of `s` once the whitespace at its start is gone.
pub open spec fn trim_start(s: Seq<char>) -> Seq<char>
    decreases s.len(),
{
    if s.len() > 0 && whitespace(s.first()) {
        trim_start(s.drop_first())
    } else {
        s
    }
}

/// What is left of `s` once the whitespace at its end is gone.
pub open spec fn trim_end(s: Seq<char>) -> Seq<char>
    decreases s.len(),
{
    if s.len() > 0 && whitespace(s.last()) {
        trim_end(s.drop_last())
    } else {
        s
    }
}

/// `s` without the whitespace around it.
pub open spec fn trim(s: Seq<char>) -> Seq<char> {
    trim_end(trim_start(s))
}

/// The part of `s` before the leftmost `mark`; all of `s` where it holds no
/// `mark`.
pub open spec fn before_first(s: Seq<char>, mark: Seq<char>) -> Seq<char> {
    match first_occurrence(s, mark) {
        Some(at) => s.take(at),
        None => s,
    }
}

/// Whether `s` ends in `tail`.
pub open spec fn ends_with(s: Seq<char>, tail: Seq<char>) -> bool {
    tail.len() <= s.len() && s.skip(s.len() - tail.len()) == tail
}

/// A leftmost occurrence is the one that `first_occurrence` names.
pub proof fn lemma_first_occurrence_is(hay: Seq<char>, needle: Seq<char>, at: int)
    requires
        is_first_occurrence(hay, needle, at),
    ensures
        first_occurrence(hay, needle) == Some(at),
{
    let chosen = choose|c: int| is_first_occurrence(hay, needle, c);
    assert(is_first_occurrence(hay, needle, chosen));
    assert(occurs_at(hay, needle, at));
    assert(occurs_at(hay, needle, chosen));
    if chosen < at {
        assert(!occurs_at(hay, needle, chosen));
    }
    if at < chosen {
        assert(!occurs_at(hay, needle, at));
    }
}

/// Where `needle` stands in `hay` at all, it stands somewhere leftmost, and
/// `first_occurrence` names that place.
pub proof fn lemma_first_occurrence_exists(hay: Seq<char>, needle: Seq<char>)
    requires
        contains(hay, needle),
    ensures
        first_occurrence(hay, needle) is Some,
        is_first_occurrence(hay, needle, first_occurrence(hay, needle)->0),
{
    let any = choose|at: int| occurs_at(hay, needle, at);
    lemma_leftmost_at_or_before(hay, needle, any);
}

/// Where `needle` stands at `at`, it stands leftmost at `at` or before.
proof fn lemma_leftmost_at_or_before(hay: Seq<char>, needle: Seq<char>, at: int)
    requires
        occurs_at(hay, needle, at),
    ensures
        exists|first: int| is_first_occurrence(hay, needle, first),
    decreases at,
{
    if exists|j: int| 0 <= j < at && occurs_at(hay, needle, j) {
        let j = choose|j: int| 0 <= j < at && occurs_at(hay, needle, j);
        lemma_leftmost_at_or_before(hay, needle, j);
    } else {
        assert(is_first_occurrence(hay, needle, at));
    }
}

/// What stands in a window of `text` stands in `text`.
pub proof fn lemma_contains_in_window(text: Seq<char>, from: int, to: int, needle: Seq<char>)
    requires
        0 <= from <= to <= text.len(),
        contains(text.subrange(from, to), needle),
    ensures
        contains(text, needle),
{
    let at = choose|at: int| occurs_at(text.subrange(from, to), needle, at);
    assert(text.subrange(from, to).subrange(at, at + needle.len()) =~= text.subrange(
        from + at,
        from + at + needle.len(),
    ));
    assert(occurs_at(text, needle, from + at));
}

/// Whether `c` has the Unicode property `White_Space`.
pub fn is_whitespace(c: char) -> (yes: bool)
    ensures
        yes == whitespace(c),
{
    let u: u32 = c as u32;
    (0x09 <= u && u <= 0x0D) || u == 0x20 || u == 0x85 || u == 0xA0 || u == 0x1680 || (0x2000 <= u
        && u <= 0x200A) || u == 0x2028 || u == 0x2029 || u == 0x202F || u == 0x205F || u == 0x3000
}

/// The characters of `s`, in order.
pub fn chars_of(s: &str) -> (chars: Vec<char>)
    ensures
        chars@ == s@,
{
    let mut chars: Vec<char> = Vec::new();
    for c in it: s.chars()
        invariant
            it.seq() == s@,
            chars@ == it.seq().take(it.index()),
    {
        chars.push(c);
    }
    chars
}

/// Whether `needle` stands in `text` at `at`, inside the window that ends
/// at `to`.
pub fn stands_at(text: &Vec<char>, at: usize, to: usize, needle: &Vec<char>) -> (yes: bool)
    requires
        at <= to <= text.len(),
    ensures
        yes == (at + needle.len() <= to && text@.subrange(at as int, at + needle.len())
            == needle@),
{
    let n: usize = needle.len();
    if n > to - at {
        return false;
    }
    let mut k: usize = 0;
    while k < n
        invariant
            n == needle.len(),
            at + n <= to <= text.len(),
            k <= n,
            forall|m: int| 0 <= m < k ==> text[at + m] == needle[m],
        decreases n - k,
    {
        if text[at + k] != needle[k] {
            assert(text@.subrange(at as int, at + n)[k as int] == text[at + k]);
            return false;
        }
        k += 1;
    }
    assert(text@.subrange(at as int, at + n) =~= needle@);
    true
}

/// The leftmost place where `needle` stands inside the window `[from, to)`
/// of `text`, as an index into `text`.
pub fn find_first(text: &Vec<char>, from: usize, to: usize, needle: &Vec<char>) -> (found: Option<
    usize,
>)
    requires
        from <= to <= text.len(),
    ensures
        match found {
            Some(at) => from <= at && at + needle.len() <= to && first_occurrence(
                text@.subrange(from as int, to as int),
                needle@,
            ) == Some(at - from),
            None => !contains(text@.subrange(from as int, to as int), needle@),
        },
{
    let n: usize = needle.len();
    let ghost window = text@.subrange(from as int, to as int);
    if n > to - from {
        assert forall|j: int| !occurs_at(window, needle@, j) by {}
        return None;
    }
    let last: usize = to - n;
    let mut at: usize = from;
    while at <= last
        invariant
            n == needle.len(),
            from <= to <= text.len(),
            last == to - n,
            from <= at <= last + 1,
            window == text@.subrange(from as int, to as int),
            forall|j: int| 0 <= j < at - from ==> !occurs_at(window, needle@, j),
        decreases last + 1 - at,
    {
        let here: bool = stands_at(text, at, to, needle);
        assert(window.subrange(at - from, at - from + n) =~= text@.subrange(at as int, at + n));
        if here {
            proof {
                assert(occurs_at(window, needle@, at - from));
                lemma_first_occurrence_is(window, needle@, at - from);
            }
            return Some(at);
        }
        assert(!occurs_at(window, needle@, at - from));
        assert(n > 0) by {
            if n == 0 {
                assert(text@.subrange(at as int, at + n) =~= needle@);
            }
        }
        at += 1;
    }
    assert forall|j: int| !occurs_at(window, needle@, j) by {
        if 0 <= j && j + n <= window.len() {
            assert(j < at - from);
        }
    }
    None
}

/// The window of `text` that is left of `[from, to)` once the whitespace
/// at both its ends is gone.
pub fn trim_window(text: &Vec<char>, from: usize, to: usize) -> (w: (usize, usize))
    requires
        from <= to <= text.len(),
    ensures
        from <= w.0 <= w.1 <= to,
        text@.subrange(w.0 as int, w.1 as int) == trim(text@.subrange(from as int, to as int)),
        w.0 == to - trim_start(text@.subrange(from as int, to as int)).len(),
        w.0 < w.1 ==> !whitespace(text[w.0 as int]) && !whitespace(text[w.1 - 1]),
{
    let mut a: usize = from;
    while a < to && is_whitespace(text[a])
        invariant
            from <= a <= to <= text.len(),
            trim_start(text@.subrange(from as int, to as int)) == trim_start(
                text@.subrange(a as int, to as int),
            ),
        decreases to - a,
    {
        assert(text@.subrange(a as int, to as int).drop_first() =~= text@.subrange(
            a + 1,
            to as int,
        ));
        a += 1;
    }
    assert(trim_start(text@.subrange(a as int, to as int)) == text@.subrange(a as int, to as int));
    let mut b: usize = to;
    while b > a && is_whitespace(text[b - 1])
        invariant
            a <= b <= to <= text.len(),
            trim_end(text@.subrange(a as int, to as int)) == trim_end(
                text@.subrange(a as int, b as int),
            ),
        decreases b - a,
    {
        assert(text@.subrange(a as int, b as int).drop_last() =~= text@.subrange(
            a as int,
            b - 1,
        ));
        b -= 1;
    }
    assert(trim_end(text@.subrange(a as int, b as int)) == text@.subrange(a as int, b as int));
    (a, b)
}

} // verus!
