//! Whole numbers in decimal notation, read and written.

use vstd::prelude::*;
use crate::text::chars_of;

verus! {

/// Whether `c` is one of the digits `0` to `9`.
pub open spec fn is_digit(c: char) -> bool {
    0x30 <= c as u32 <= 0x39
}

/// The number that the digit `c` stands for.
pub open spec fn digit_value(c: char) -> int {
    c as u32 - 0x30
}

/// The digit that stands for `d`, which is less than ten.
pub open spec fn digit_char(d: nat) -> char {
    (d + 0x30) as u8 as char
}

/// Whether `s` holds digits only.
pub open spec fn all_digits(s: Seq<char>) -> bool {
    forall|i: int| 0 <= i < s.len() ==> is_digit(#[trigger] s[i])
}

/// The number that the digits `s` write.
pub open spec fn digits_value(s: Seq<char>) -> int
    decreases s.len(),
{
    if s.len() == 0 {
        0
    } else {
        digits_value(s.drop_last()) * 10 + digit_value(s.last())
    }
}

/// `text` without a plus sign at its start.
pub open spec fn without_plus(text: Seq<char>) -> Seq<char> {
    if text.len() > 0 && text.first() == '+' {
        text.drop_first()
    } else {
        text
    }
}

/// The number that `text` writes: one digit or more, after at most one
/// plus sign and with nothing else before, between or after, whose value
/// fits 64 bits. Nothing for any other text.
pub open spec fn u64_in(text: Seq<char>) -> Option<u64> {
    let digits = without_plus(text);
    if digits.len() > 0 && all_digits(digits) && digits_value(digits) <= u64::MAX {
        Some(digits_value(digits) as u64)
    } else {
        None
    }
}

/// The digits that write `n`, without leading zeros.
pub open spec fn digits_of(n: nat) -> Seq<char>
    decreases n,
{
    if n < 10 {
        seq![digit_char(n)]
    } else {
        digits_of(n / 10).push(digit_char(n % 10))
    }
}

/// `n` in decimal notation, with a minus sign where it is negative.
pub open spec fn decimal_of(n: int) -> Seq<char> {
    if n < 0 {
        seq!['-'] + digits_of((-n) as nat)
    } else {
        digits_of(n as nat)
    }
}

/// Digits write a number that is at least the number that any of their
/// prefixes writes.
pub proof fn lemma_digits_value_grows(s: Seq<char>, k: int)
    requires
        all_digits(s),
        0 <= k <= s.len(),
    ensures
        0 <= digits_value(s.take(k)) <= digits_value(s),
    decreases s.len() - k,
{
    if k == s.len() {
        assert(s.take(k) =~= s);
        lemma_digits_value_nonnegative(s);
    } else {
        lemma_digits_value_grows(s, k + 1);
        assert(s.take(k + 1).drop_last() =~= s.take(k));
        assert(is_digit(s[k]));
        assert(s.take(k + 1).last() == s[k]);
        lemma_digits_value_nonnegative(s.take(k));
    }
}

/// Digits write a number that is not negative.
pub proof fn lemma_digits_value_nonnegative(s: Seq<char>)
    requires
        all_digits(s),
    ensures
        0 <= digits_value(s),
    decreases s.len(),
{
    if s.len() > 0 {
        assert(is_digit(s.last()));
        lemma_digits_value_nonnegative(s.drop_last());
    }
}

/// Reads the number that `text` writes, as `str::parse::<u64>` does: digits
/// only, after at most one plus sign, and no more than 64 bits hold.
pub fn parse_u64(text: &str) -> (value: Option<u64>)
    ensures
        value == u64_in(text@),
{
    let chars: Vec<char> = chars_of(text);
    let n: usize = chars.len();
    let start: usize = if n > 0 && chars[0] == '+' {
        1
    } else {
        0
    };
    let ghost digits = without_plus(text@);
    assert(digits =~= chars@.subrange(start as int, n as int));
    if start == n {
        return None;
    }
    let mut value: u64 = 0;
    let mut i: usize = start;
    assert(digits.take(0) =~= Seq::<char>::empty());
    while i < n
        invariant
            start <= i <= n == chars.len(),
            start < n,
            digits == without_plus(text@),
            digits == chars@.subrange(start as int, n as int),
            all_digits(digits.take(i - start)),
            value == digits_value(digits.take(i - start)),
        decreases n - i,
    {
        let u: u32 = chars[i] as u32;
        if u < 0x30 || u > 0x39 {
            assert(!is_digit(digits[i - start]));
            return None;
        }
        let d: u64 = (u - 0x30) as u64;
        proof {
            assert(digits.take(i - start + 1).drop_last() =~= digits.take(i - start));
            assert(digits.take(i - start + 1).last() == chars[i as int]);
            assert(digits_value(digits.take(i - start + 1)) == value * 10 + d);
        }
        if value > (u64::MAX - d) / 10 {
            proof {
                if all_digits(digits) {
                    lemma_digits_value_grows(digits, i - start + 1);
                }
            }
            return None;
        }
        value = value * 10 + d;
        assert forall|j: int| 0 <= j < i - start + 1 implies is_digit(
            #[trigger] digits.take(i - start + 1)[j],
        ) by {
            if j < i - start {
                assert(digits.take(i - start + 1)[j] == digits.take(i - start)[j]);
            }
        }
        i += 1;
    }
    assert(digits.take(n - start) =~= digits);
    Some(value)
}

/// The one digit that writes `d`.
fn digit_text(d: u8) -> (text: &'static str)
    requires
        d < 10,
    ensures
        text@ == seq![digit_char(d as nat)],
{
    proof {
        reveal_strlit("0");
        reveal_strlit("1");
        reveal_strlit("2");
        reveal_strlit("3");
        reveal_strlit("4");
        reveal_strlit("5");
        reveal_strlit("6");
        reveal_strlit("7");
        reveal_strlit("8");
        reveal_strlit("9");
    }
    let text: &'static str = if d == 0 {
        "0"
    } else if d == 1 {
        "1"
    } else if d == 2 {
        "2"
    } else if d == 3 {
        "3"
    } else if d == 4 {
        "4"
    } else if d == 5 {
        "5"
    } else if d == 6 {
        "6"
    } else if d == 7 {
        "7"
    } else if d == 8 {
        "8"
    } else {
        "9"
    };
    assert(text@ =~= seq![digit_char(d as nat)]);
    text
}

/// Writes `n` in decimal notation, as `i64::to_string` does: a minus sign
/// where it is negative, then its digits without leading zeros.
pub fn render_i64(n: i64) -> (text: String)
    ensures
        text@ == decimal_of(n as int),
{
    let size: u64 = if n < 0 {
        (-(n as i128)) as u64
    } else {
        n as u64
    };
    let mut low_first: Vec<u8> = Vec::new();
    let mut rest: u64 = size;
    proof {
        lemma_written_push(low_first@, (rest % 10) as u8);
        assert(written(low_first@) =~= Seq::<char>::empty());
    }
    low_first.push((rest % 10) as u8);
    rest = rest / 10;
    assert(digits_of(size as nat) =~= if rest > 0 {
        digits_of(rest as nat) + written(low_first@)
    } else {
        written(low_first@)
    });
    while rest > 0
        invariant
            low_first.len() >= 1,
            forall|j: int| 0 <= j < low_first.len() ==> low_first[j] < 10,
            digits_of(size as nat) == if rest > 0 {
                digits_of(rest as nat) + written(low_first@)
            } else {
                written(low_first@)
            },
        decreases rest,
    {
        let ghost before = low_first@;
        let ghost whole = rest;
        proof {
            lemma_written_push(low_first@, (rest % 10) as u8);
        }
        low_first.push((rest % 10) as u8);
        rest = rest / 10;
        assert(digits_of(whole as nat) + written(before) =~= if rest > 0 {
            digits_of(rest as nat) + written(low_first@)
        } else {
            written(low_first@)
        });
    }
    let mut text: String = if n < 0 {
        String::from_str("-")
    } else {
        String::new()
    };
    proof {
        reveal_strlit("-");
    }
    let ghost sign = text@;
    assert(sign =~= if n < 0 { seq!['-'] } else { Seq::<char>::empty() });
    let mut k: usize = low_first.len();
    assert(low_first@.take(k as int) =~= low_first@);
    while k > 0
        invariant
            k <= low_first.len(),
            forall|j: int| 0 <= j < low_first.len() ==> low_first[j] < 10,
            sign + written(low_first@) == text@ + written(low_first@.take(k as int)),
        decreases k,
    {
        k -= 1;
        let ghost so_far = text@;
        proof {
            let head = low_first@.take(k + 1);
            assert(head.drop_last() =~= low_first@.take(k as int));
            assert(head.last() == low_first[k as int]);
            assert(written(head) == seq![digit_char(low_first[k as int] as nat)] + written(
                low_first@.take(k as int),
            ));
        }
        text.append(digit_text(low_first[k]));
        assert(so_far + written(low_first@.take(k + 1)) =~= text@ + written(
            low_first@.take(k as int),
        ));
    }
    assert(written(low_first@.take(0)) =~= Seq::<char>::empty());
    assert(text@ =~= sign + written(low_first@));
    text
}

/// The digits that `low_first` lists from the lowest place up, written
/// from the highest place down.
pub open spec fn written(low_first: Seq<u8>) -> Seq<char>
    decreases low_first.len(),
{
    if low_first.len() == 0 {
        Seq::<char>::empty()
    } else {
        seq![digit_char(low_first.last() as nat)] + written(low_first.drop_last())
    }
}

/// One more digit at the low end is written last.
proof fn lemma_written_push(low_first: Seq<u8>, d: u8)
    ensures
        written(low_first.push(d)) == seq![digit_char(d as nat)] + written(low_first),
{
    assert(low_first.push(d).drop_last() =~= low_first);
}

} // verus!
