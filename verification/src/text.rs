//! Text: white space, comparison, and reading bytes as text.

use vstd::prelude::*;
use vstd::string::StrSliceExecFns;
use vstd::utf8::{decode_utf8, encode_utf8, encode_utf8_decode_utf8, valid_utf8};

verus! {

/// Whether `c` is white space: one of the characters that Unicode classes as
/// `White_Space`.
pub open spec fn is_white_space(c: char) -> bool {
    let n = c as u32;
    ||| 0x09 <= n <= 0x0D
    ||| n == 0x20
    ||| n == 0x85
    ||| n == 0xA0
    ||| n == 0x1680
    ||| 0x2000 <= n <= 0x200A
    ||| n == 0x2028
    ||| n == 0x2029
    ||| n == 0x202F
    ||| n == 0x205F
    ||| n == 0x3000
}

/// A text without its trailing white space.
pub open spec fn trimmed_end(text: Seq<char>) -> Seq<char>
    decreases text.len(),
{
    if text.len() > 0 && is_white_space(text.last()) {
        trimmed_end(text.drop_last())
    } else {
        text
    }
}

/// A text without its leading white space.
pub open spec fn trimmed_start(text: Seq<char>) -> Seq<char>
    decreases text.len(),
{
    if text.len() > 0 && is_white_space(text.first()) {
        trimmed_start(text.drop_first())
    } else {
        text
    }
}

/// A text without its leading and trailing white space.
pub open spec fn trimmed(text: Seq<char>) -> Seq<char> {
    trimmed_start(trimmed_end(text))
}

/// Of a text that is all white space nothing is left.
pub proof fn lemma_trimmed_white_space(text: Seq<char>)
    requires
        forall|i: int| 0 <= i < text.len() ==> is_white_space(text[i]),
    ensures
        trimmed_end(text).len() == 0,
        trimmed(text).len() == 0,
    decreases text.len(),
{
    if text.len() > 0 {
        lemma_trimmed_white_space(text.drop_last());
    }
}

/// What `String::from_utf8_lossy` makes of bytes that are not valid UTF-8.
pub uninterp spec fn lossy_text(bytes: Seq<u8>) -> Seq<char>;

/// The text that bytes are read as: the text they encode where they are valid
/// UTF-8, and otherwise that text with each invalid part replaced as
/// `String::from_utf8_lossy` replaces it.
pub open spec fn utf8_text(bytes: Seq<u8>) -> Seq<char> {
    if valid_utf8(bytes) {
        decode_utf8(bytes)
    } else {
        lossy_text(bytes)
    }
}

/// `String::from_utf8_lossy`, as an owned string: valid UTF-8 is decoded as
/// it stands, and what is not valid is replaced in a way that depends on the
/// bytes alone.
#[verifier::external_body]
pub(crate) fn from_utf8_lossy(bytes: &[u8]) -> (s: String)
    ensures
        s@ == utf8_text(bytes@),
        !valid_utf8(bytes@) ==> s@ == lossy_text(bytes@),
{
    String::from_utf8_lossy(bytes).into_owned()
}

/// Whether `c` is white space.
pub fn white_space(c: char) -> (b: bool)
    ensures
        b == is_white_space(c),
{
    let n: u32 = c as u32;
    (0x09 <= n && n <= 0x0D) || n == 0x20 || n == 0x85 || n == 0xA0 || n == 0x1680 || (0x2000 <= n
        && n <= 0x200A) || n == 0x2028 || n == 0x2029 || n == 0x202F || n == 0x205F || n == 0x3000
}

/// Counts the characters of `s` that are left once its trailing white space
/// is left out.
fn trimmed_end_len(s: &str) -> (hi: usize)
    ensures
        hi <= s@.len(),
        trimmed_end(s@) == s@.subrange(0, hi as int),
{
    let mut hi: usize = s.unicode_len();
    assert(s@.subrange(0, hi as int) =~= s@);
    while hi > 0 && white_space(s.get_char(hi - 1))
        invariant
            hi <= s@.len(),
            trimmed_end(s@) == trimmed_end(s@.subrange(0, hi as int)),
        decreases hi,
    {
        assert(s@.subrange(0, hi as int).drop_last() =~= s@.subrange(0, hi - 1));
        hi -= 1;
    }
    hi
}

/// The text without its trailing white space.
pub fn trim_end(s: &str) -> (r: &str)
    ensures
        r@ == trimmed_end(s@),
{
    let hi = trimmed_end_len(s);
    s.substring_char(0, hi)
}

/// The text without its leading and trailing white space.
pub fn trim(s: &str) -> (r: &str)
    ensures
        r@ == trimmed(s@),
{
    let hi = trimmed_end_len(s);
    let ghost kept = s@.subrange(0, hi as int);
    let mut lo: usize = 0;
    assert(kept.subrange(0, kept.len() as int) =~= kept);
    while lo < hi && white_space(s.get_char(lo))
        invariant
            lo <= hi <= s@.len(),
            kept == s@.subrange(0, hi as int),
            trimmed_start(kept) == trimmed_start(kept.subrange(lo as int, hi as int)),
        decreases hi - lo,
    {
        assert(kept.subrange(lo as int, hi as int).drop_first() =~= kept.subrange(
            lo + 1,
            hi as int,
        ));
        lo += 1;
    }
    s.substring_char(lo, hi)
}

/// Whether two texts are the same, character by character.
pub fn same_text(a: &str, b: &str) -> (same: bool)
    ensures
        same == (a@ == b@),
{
    let x = a.as_bytes();
    let y = b.as_bytes();
    proof {
        encode_utf8_decode_utf8(a@);
        encode_utf8_decode_utf8(b@);
    }
    if x.len() != y.len() {
        return false;
    }
    let mut i: usize = 0;
    while i < x.len()
        invariant
            0 <= i <= x.len(),
            x.len() == y.len(),
            x@ == encode_utf8(a@),
            y@ == encode_utf8(b@),
            decode_utf8(encode_utf8(a@)) == a@,
            decode_utf8(encode_utf8(b@)) == b@,
            x@.subrange(0, i as int) == y@.subrange(0, i as int),
        decreases x.len() - i,
    {
        if x[i] != y[i] {
            return false;
        }
        i += 1;
    }
    assert(x@ =~= x@.subrange(0, i as int));
    assert(y@ =~= y@.subrange(0, i as int));
    true
}

} // verus!
