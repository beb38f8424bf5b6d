//! Natural numbers written in decimal, as ASCII digits.

use vstd::prelude::*;
use vstd::string::StringExecFns;

verus! {

/// Whether `b` is one of the ASCII digits `0` to `9`.
pub open spec fn is_digit(b: u8) -> bool {
    48 <= b <= 57
}

/// Whether every byte of `s` is an ASCII digit.
pub open spec fn all_digits(s: Seq<u8>) -> bool {
    forall|i: int| 0 <= i < s.len() ==> is_digit(#[trigger] s[i])
}

/// The decimal digits of `n`, most significant first, without leading zeros.
pub open spec fn decimal(n: nat) -> Seq<u8>
    decreases n,
{
    if n < 10 {
        seq![(48 + n) as u8]
    } else {
        decimal(n / 10).push((48 + n % 10) as u8)
    }
}

/// The number that a sequence of digits denotes; 0 for the empty sequence.
pub open spec fn decimal_value(s: Seq<u8>) -> nat
    decreases s.len(),
{
    if s.len() == 0 {
        0
    } else {
        (decimal_value(s.drop_last()) * 10 + (s.last() - 48)) as nat
    }
}

/// The digits of a number are digits, at least one of them, and none is a
/// sign, a blank or a line break.
pub proof fn lemma_decimal_digits(n: nat)
    ensures
        decimal(n).len() >= 1,
        all_digits(decimal(n)),
    decreases n,
{
    if n >= 10 {
        lemma_decimal_digits(n / 10);
    }
}

/// Reading the digits of a number gives the number back.
pub proof fn lemma_decimal_value(n: nat)
    ensures
        decimal_value(decimal(n)) == n,
    decreases n,
{
    if n < 10 {
        let s = decimal(n);
        assert(decimal_value(s.drop_last()) == 0);
    } else {
        lemma_decimal_value(n / 10);
        let s = decimal(n);
        assert(s.drop_last() =~= decimal(n / 10));
    }
}

/// A number with more digits in front is no smaller.
proof fn lemma_decimal_value_grows(s: Seq<u8>, k: int)
    requires
        all_digits(s),
        0 <= k <= s.len(),
    ensures
        decimal_value(s.subrange(0, k)) <= decimal_value(s),
    decreases s.len() - k,
{
    if k < s.len() {
        let t = s.subrange(0, k + 1);
        assert(t.drop_last() =~= s.subrange(0, k));
        lemma_decimal_value_grows(s, k + 1);
    } else {
        assert(s.subrange(0, k) =~= s);
    }
}

/// Writes `n` in decimal.
pub fn write_decimal(n: u64) -> (digits: Vec<u8>)
    ensures
        digits@ == decimal(n as nat),
    decreases n,
{
    if n < 10 {
        let mut digits: Vec<u8> = Vec::new();
        digits.push(48 + n as u8);
        digits
    } else {
        let mut digits = write_decimal(n / 10);
        digits.push(48 + (n % 10) as u8);
        digits
    }
}

/// The text of an integer as it is printed: a minus sign if it is negative,
/// and the decimal digits of its magnitude.
pub open spec fn int_text(n: int) -> Seq<char> {
    if n < 0 {
        seq!['-'] + digit_chars(decimal((-n) as nat))
    } else {
        digit_chars(decimal(n as nat))
    }
}

/// The characters of a sequence of ASCII digits.
pub open spec fn digit_chars(digits: Seq<u8>) -> Seq<char> {
    digits.map_values(|b: u8| b as char)
}

/// The text `0` to `9` of a digit.
fn digit_text(b: u8) -> (t: &'static str)
    requires
        is_digit(b),
    ensures
        t@ == seq![b as char],
{
    proof {
        reveal_strlit("0");
        reveal_strlit("1");
        reveal_strlit("2");
        reveal_strlit("3");
        reveal_strlit("4");
        reveal_strlit("5");
        reveal_strlit("6");
        reveal_strlit("7");
        reveal_strlit("8");
        reveal_strlit("9");
    }
    let t = if b == 48 {
        "0"
    } else if b == 49 {
        "1"
    } else if b == 50 {
        "2"
    } else if b == 51 {
        "3"
    } else if b == 52 {
        "4"
    } else if b == 53 {
        "5"
    } else if b == 54 {
        "6"
    } else if b == 55 {
        "7"
    } else if b == 56 {
        "8"
    } else {
        "9"
    };
    t
}

/// Appends the text of the integer `n` to `out`.
pub fn push_int(out: &mut String, n: i64)
    ensures
        final(out)@ == old(out)@ + int_text(n as int),
{
    let magnitude: u64 = if n >= 0 {
        n as u64
    } else {
        proof {
            reveal_strlit("-");
        }
        out.append("-");
        (-(n + 1)) as u64 + 1
    };
    let digits = write_decimal(magnitude);
    proof {
        lemma_decimal_digits(magnitude as nat);
    }
    let ghost start = out@;
    let mut i: usize = 0;
    while i < digits.len()
        invariant
            0 <= i <= digits.len(),
            all_digits(digits@),
            out@ == start + digit_chars(digits@.subrange(0, i as int)),
        decreases digits.len() - i,
    {
        out.append(digit_text(digits[i]));
        i += 1;
        assert(digit_chars(digits@.subrange(0, i as int)) =~= digit_chars(
            digits@.subrange(0, i - 1),
        ) + seq![digits@[i - 1] as char]);
    }
}

/// Reads a number written in decimal: `Some` exactly when `s` is one or more
/// ASCII digits whose value fits a `usize`.
pub fn read_decimal(s: &[u8]) -> (r: Option<usize>)
    ensures
        r is Some <==> s@.len() > 0 && all_digits(s@) && decimal_value(s@) <= usize::MAX,
        r is Some ==> r->0 == decimal_value(s@),
{
    if s.len() == 0 {
        return None;
    }
    let mut acc: usize = 0;
    let mut i: usize = 0;
    while i < s.len()
        invariant
            0 <= i <= s.len(),
            all_digits(s@.subrange(0, i as int)),
            acc == decimal_value(s@.subrange(0, i as int)),
        decreases s.len() - i,
    {
        let b = s[i];
        if b < 48 || b > 57 {
            return None;
        }
        proof {
            let t = s@.subrange(0, i + 1);
            assert(t.drop_last() =~= s@.subrange(0, i as int));
            assert forall|j: int| 0 <= j < t.len() implies is_digit(#[trigger] t[j]) by {
                if j < i {
                    assert(t[j] == s@.subrange(0, i as int)[j]);
                }
            }
            // where all of `s` are digits, `s` is worth no less than `t`, so
            // that `s` does not fit where `t` does not
            if all_digits(s@) {
                lemma_decimal_value_grows(s@, i + 1);
            }
        }
        let d: usize = (b - 48) as usize;
        let next = match acc.checked_mul(10) {
            Some(m) => m.checked_add(d),
            None => None,
        };
        match next {
            Some(v) => {
                acc = v;
            },
            None => {
                return None;
            },
        }
        i += 1;
    }
    assert(s@.subrange(0, i as int) =~= s@);
    Some(acc)
}

} // verus!
