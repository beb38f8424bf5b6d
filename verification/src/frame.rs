//! The wire format: a header line that declares a length, a blank line, and a
//! body of exactly that many bytes.

use vstd::prelude::*;
use vstd::slice::{slice_subrange, slice_to_vec};
use crate::decimal::{all_digits, decimal, decimal_value, lemma_decimal_digits,
    lemma_decimal_value, read_decimal, write_decimal};

verus! {

/// The bytes of a text whose characters are all ASCII.
pub open spec fn ascii_bytes(text: Seq<char>) -> Seq<u8> {
    text.map_values(|c: char| c as u8)
}

/// The bytes that open a header line.
pub open spec fn header_token() -> Seq<u8> {
    ascii_bytes("Content-Length: "@)
}

/// The bytes between the declared length and the body: the end of the header
/// line and one blank line.
pub open spec fn delimiter() -> Seq<u8> {
    seq![13u8, 10u8, 13u8, 10u8]
}

/// The frame that carries `body`.
pub open spec fn frame(body: Seq<u8>) -> Seq<u8> {
    header_token() + decimal(body.len()) + delimiter() + body
}

/// A fault in the framing of a stream, as a value of specifications.
pub enum FramingFault {
    UnexpectedLine(Seq<u8>),
    BadLength,
    ShortRead,
}

/// A fault in the framing of a stream.
#[derive(Clone, Debug, PartialEq, Eq)]
pub enum FramingError {
    /// A line stood where a header was expected; it is carried as it was read.
    UnexpectedLine(Vec<u8>),
    /// A header line declared no valid length.
    BadLength,
    /// The stream ended before the delimiter and the declared number of bytes
    /// were there.
    ShortRead,
}

impl View for FramingError {
    type V = FramingFault;

    open spec fn view(&self) -> FramingFault {
        match self {
            FramingError::UnexpectedLine(line) => FramingFault::UnexpectedLine(line@),
            FramingError::BadLength => FramingFault::BadLength,
            FramingError::ShortRead => FramingFault::ShortRead,
        }
    }
}

/// Whether `s` continues with `p` from index `at` on.
pub open spec fn has_at(s: Seq<u8>, at: int, p: Seq<u8>) -> bool {
    0 <= at && at + p.len() <= s.len() && s.subrange(at, at + p.len()) == p
}

/// Whether `b` is a blank: a space, a tab, a line feed, a vertical tab, a form
/// feed or a carriage return.
pub open spec fn is_blank(b: u8) -> bool {
    b == 32 || 9 <= b <= 13
}

/// Where the part of `s` before `hi` ends once its trailing blanks are left out.
pub open spec fn blank_end(s: Seq<u8>, hi: int) -> int
    decreases hi,
{
    if hi > 0 && hi <= s.len() && is_blank(s[hi - 1]) {
        blank_end(s, hi - 1)
    } else {
        hi
    }
}

/// Where the part of `s` from `lo` to `hi` starts once its leading blanks are
/// left out.
pub open spec fn blank_start(s: Seq<u8>, lo: int, hi: int) -> int
    decreases hi - lo,
{
    if 0 <= lo < hi && hi <= s.len() && is_blank(s[lo]) {
        blank_start(s, lo + 1, hi)
    } else {
        lo
    }
}

/// `s` without its leading and trailing blanks.
pub open spec fn trim_blanks(s: Seq<u8>) -> Seq<u8> {
    let hi = blank_end(s, s.len() as int);
    let lo = blank_start(s, 0, hi);
    s.subrange(lo, hi)
}

/// The length that the rest of a header line declares: blanks around it
/// aside, an optional `+` and then one or more digits, whose value fits a
/// `usize`.
pub open spec fn declared_length(field: Seq<u8>) -> Option<nat> {
    let t = trim_blanks(field);
    let digits = if t.len() > 0 && t[0] == 43 {
        t.subrange(1, t.len() as int)
    } else {
        t
    };
    if digits.len() > 0 && all_digits(digits) && decimal_value(digits) <= usize::MAX {
        Some(decimal_value(digits))
    } else {
        None
    }
}

/// What a line says where a header is expected: `Ok(None)` for no line at all,
/// which is the end of the stream, `Ok(Some(n))` for a header that declares
/// the length `n`, and a fault for anything else.
pub open spec fn header_of(line: Seq<u8>) -> Result<Option<nat>, FramingFault> {
    if line.len() == 0 {
        Ok(None)
    } else if !has_at(line, 0, header_token()) {
        Err(FramingFault::UnexpectedLine(line))
    } else {
        match declared_length(line.subrange(header_token().len() as int, line.len() as int)) {
            Some(n) => Ok(Some(n)),
            None => Err(FramingFault::BadLength),
        }
    }
}

/// The header token has sixteen bytes. It begins with `C`, its last byte is
/// its only space, and no byte of it is a line feed.
pub(crate) proof fn lemma_header_token()
    ensures
        header_token().len() == 16,
        forall|i: int| 0 <= i < 16 ==> #[trigger] header_token()[i] != 10,
        forall|i: int| 0 <= i < 15 ==> #[trigger] header_token()[i] != 32,
        header_token()[0] == 67,
        header_token()[15] == 32,
{
    reveal_strlit("Content-Length: ");
}

/// The bytes of the header token.
fn token_bytes() -> (t: &'static [u8])
    ensures
        t@ == header_token(),
{
    let s = "Content-Length: ";
    proof {
        reveal_strlit("Content-Length: ");
        vstd::string::is_ascii_spec_bytes(s);
    }
    s.as_bytes()
}

/// Appends `src` to `out`.
pub fn append_bytes(out: &mut Vec<u8>, src: &[u8])
    ensures
        final(out)@ == old(out)@ + src@,
{
    let mut i: usize = 0;
    while i < src.len()
        invariant
            0 <= i <= src.len(),
            out@ == old(out)@ + src@.subrange(0, i as int),
        decreases src.len() - i,
    {
        out.push(src[i]);
        i += 1;
    }
}

/// Puts `body` into a frame: the header with the length of `body` in bytes,
/// the delimiter, and `body` itself.
pub fn encode_frame(body: &[u8]) -> (bytes: Vec<u8>)
    ensures
        bytes@ == frame(body@),
{
    let mut bytes: Vec<u8> = Vec::new();
    append_bytes(&mut bytes, token_bytes());
    let digits = write_decimal(body.len() as u64);
    append_bytes(&mut bytes, digits.as_slice());
    bytes.push(13);
    bytes.push(10);
    bytes.push(13);
    bytes.push(10);
    append_bytes(&mut bytes, body);
    bytes
}

/// Whether `s` starts with the header token.
pub fn starts_with_token(s: &[u8]) -> (b: bool)
    ensures
        b == has_at(s@, 0, header_token()),
{
    has_token_at(s, 0)
}

/// Whether the header token stands in `s` at index `at`.
pub fn has_token_at(s: &[u8], at: usize) -> (b: bool)
    ensures
        b == has_at(s@, at as int, header_token()),
{
    let token = token_bytes();
    if s.len() < token.len() || at > s.len() - token.len() {
        return false;
    }
    let mut i: usize = 0;
    while i < token.len()
        invariant
            0 <= i <= token.len(),
            token@ == header_token(),
            at + token.len() <= s.len(),
            s@.subrange(at as int, at + i) == token@.subrange(0, i as int),
        decreases token.len() - i,
    {
        if s[at + i] != token[i] {
            return false;
        }
        i += 1;
        assert(s@.subrange(at as int, at + i) =~= token@.subrange(0, i as int));
    }
    assert(token@.subrange(0, i as int) =~= token@);
    true
}

/// Reads the length that the rest of a header line declares.
pub fn read_declared_length(field: &[u8]) -> (r: Option<usize>)
    ensures
        r is Some <==> declared_length(field@) is Some,
        r is Some ==> r->0 == declared_length(field@)->0,
{
    let mut hi: usize = field.len();
    while hi > 0 && is_blank_byte(field[hi - 1])
        invariant
            0 <= hi <= field.len(),
            blank_end(field@, field.len() as int) == blank_end(field@, hi as int),
        decreases hi,
    {
        hi -= 1;
    }
    let mut lo: usize = 0;
    while lo < hi && is_blank_byte(field[lo])
        invariant
            0 <= lo <= hi <= field.len(),
            blank_start(field@, 0, hi as int) == blank_start(field@, lo as int, hi as int),
        decreases hi - lo,
    {
        lo += 1;
    }
    let from: usize = if lo < hi && field[lo] == 43 {
        lo + 1
    } else {
        lo
    };
    assert(field@.subrange(lo as int, hi as int).subrange(from - lo, hi - lo) =~= field@.subrange(
        from as int,
        hi as int,
    ));
    read_decimal(slice_subrange(field, from, hi))
}

/// Whether `b` is a blank.
pub fn is_blank_byte(b: u8) -> (r: bool)
    ensures
        r == is_blank(b),
{
    b == 32 || (9 <= b && b <= 13)
}

/// Reads a line where a header is expected. An empty `line` stands for the
/// end of the stream.
pub fn read_header(line: &[u8]) -> (r: Result<Option<usize>, FramingError>)
    ensures
        match r {
            Ok(Some(n)) => header_of(line@) == Ok::<Option<nat>, FramingFault>(Some(n as nat)),
            Ok(None) => header_of(line@) == Ok::<Option<nat>, FramingFault>(None),
            Err(e) => header_of(line@) == Err::<Option<nat>, FramingFault>(e@),
        },
{
    if line.len() == 0 {
        return Ok(None);
    }
    if !starts_with_token(line) {
        return Err(FramingError::UnexpectedLine(slice_to_vec(line)));
    }
    proof {
        lemma_header_token();
    }
    match read_declared_length(slice_subrange(line, 16, line.len())) {
        Some(n) => Ok(Some(n)),
        None => Err(FramingError::BadLength),
    }
}

/// The index just past the first line feed of `s` at or after `from`, or the
/// length of `s` if there is none: where the line that starts at `from` ends.
pub open spec fn line_end(s: Seq<u8>, from: int) -> int
    decreases s.len() - from,
{
    if from < 0 || from >= s.len() {
        s.len() as int
    } else if s[from] == 10 {
        from + 1
    } else {
        line_end(s, from + 1)
    }
}

/// A line ends after where it starts, and inside the stream.
pub(crate) proof fn lemma_line_end_bounds(s: Seq<u8>, from: int)
    requires
        0 <= from < s.len(),
    ensures
        from < line_end(s, from) <= s.len(),
    decreases s.len() - from,
{
    if s[from] != 10 {
        if from + 1 < s.len() {
            lemma_line_end_bounds(s, from + 1);
        } else {
            assert(line_end(s, from + 1) == s.len());
        }
    }
}

/// Finds where the line that starts at `from` ends.
pub fn find_line_end(s: &[u8], from: usize) -> (end: usize)
    ensures
        end == line_end(s@, from as int),
        end <= s.len(),
        from <= s.len() ==> from <= end,
{
    if from >= s.len() {
        return s.len();
    }
    let mut i: usize = from;
    while i < s.len() && s[i] != 10
        invariant
            from <= i <= s.len(),
            line_end(s@, from as int) == line_end(s@, i as int),
        decreases s.len() - i,
    {
        i += 1;
    }
    if i < s.len() {
        i + 1
    } else {
        i
    }
}

/// What one attempt to read a frame from `s` at `pos` finds, and where the
/// next attempt starts. `Ok(None)` is the end of the stream, `Ok(Some(body))`
/// a frame with that body.
pub open spec fn next_frame_spec(s: Seq<u8>, pos: int) -> (Result<Option<Seq<u8>>, FramingFault>, int) {
    if pos < 0 || pos >= s.len() {
        (Ok(None), pos)
    } else {
        let end = line_end(s, pos);
        match header_of(s.subrange(pos, end)) {
            Ok(None) => (Ok(None), pos),
            Err(fault) => (Err(fault), end),
            Ok(Some(n)) => if end + 2 + n <= s.len() {
                (Ok(Some(s.subrange(end + 2, end + 2 + n))), end + 2 + n)
            } else {
                (Err(FramingFault::ShortRead), s.len() as int)
            },
        }
    }
}

/// The content of what an attempt to read a frame returns.
pub open spec fn framed_view(r: Result<Option<Vec<u8>>, FramingError>) -> Result<
    Option<Seq<u8>>,
    FramingFault,
> {
    match r {
        Ok(Some(body)) => Ok(Some(body@)),
        Ok(None) => Ok(None),
        Err(e) => Err(e@),
    }
}

/// Reads one frame from `stream` at `pos`: the header line, two delimiter
/// bytes, which are not looked at, and as many bytes as the header declares.
/// Returns what was found and where to go on.
pub fn next_frame(stream: &[u8], pos: usize) -> (r: (Result<Option<Vec<u8>>, FramingError>, usize))
    ensures
        framed_view(r.0) == next_frame_spec(stream@, pos as int).0,
        r.1 == next_frame_spec(stream@, pos as int).1,
{
    if pos >= stream.len() {
        return (Ok(None), pos);
    }
    let end = find_line_end(stream, pos);
    proof {
        lemma_line_end_bounds(stream@, pos as int);
    }
    match read_header(slice_subrange(stream, pos, end)) {
        Ok(None) => (Ok(None), pos),
        Err(e) => (Err(e), end),
        Ok(Some(n)) => {
            let left: usize = stream.len() - end;
            if left >= 2 && left - 2 >= n {
                let body = slice_to_vec(slice_subrange(stream, end + 2, end + 2 + n));
                (Ok(Some(body)), end + 2 + n)
            } else {
                (Err(FramingError::ShortRead), stream.len())
            }
        },
    }
}

/// The first index at or after `from` where the header token stands in `s`,
/// or the length of `s` if it stands nowhere from there on.
pub open spec fn next_header(s: Seq<u8>, from: int) -> int
    decreases s.len() - from,
{
    if from < 0 || from >= s.len() {
        s.len() as int
    } else if has_at(s, from, header_token()) {
        from
    } else {
        next_header(s, from + 1)
    }
}

/// The search for a header goes forward and stays inside the stream.
pub(crate) proof fn lemma_next_header_bounds(s: Seq<u8>, from: int)
    requires
        0 <= from <= s.len(),
    ensures
        from <= next_header(s, from) <= s.len(),
    decreases s.len() - from,
{
    if from < s.len() && !has_at(s, from, header_token()) {
        lemma_next_header_bounds(s, from + 1);
    }
}

/// Finds the next header token in `s` at or after `from`: where reading goes
/// on after a frame had to be given up.
pub fn find_header(s: &[u8], from: usize) -> (at: usize)
    ensures
        at == next_header(s@, from as int),
        at <= s.len(),
        from <= s.len() ==> from <= at,
{
    if from >= s.len() {
        return s.len();
    }
    let mut i: usize = from;
    while i < s.len()
        invariant
            from <= i <= s.len(),
            next_header(s@, from as int) == next_header(s@, i as int),
        decreases s.len() - i,
    {
        if has_token_at(s, i) {
            return i;
        }
        i += 1;
    }
    i
}

/// Where reading goes on after the attempt at `pos`: behind what the attempt
/// took, and after a header without a valid length at the next header token,
/// so that the rest of the frame that is given up is passed over.
pub open spec fn resume_at(s: Seq<u8>, pos: int) -> int {
    let step = next_frame_spec(s, pos);
    if step.0 == Err::<Option<Seq<u8>>, FramingFault>(FramingFault::BadLength) {
        next_header(s, step.1)
    } else {
        step.1
    }
}

/// Inside the stream every attempt moves forward.
pub proof fn lemma_resume_advances(s: Seq<u8>, pos: int)
    requires
        0 <= pos < s.len(),
    ensures
        pos < resume_at(s, pos) <= s.len(),
        !(next_frame_spec(s, pos).0 == Ok::<Option<Seq<u8>>, FramingFault>(None)),
{
    lemma_line_end_bounds(s, pos);
    let end = line_end(s, pos);
    lemma_next_header_bounds(s, end);
}

/// Everything that reading `s` from `pos` to its end finds, in order: the
/// body of each frame, and each fault.
pub open spec fn frames_from(s: Seq<u8>, pos: int) -> Seq<Result<Seq<u8>, FramingFault>>
    decreases s.len() - pos,
{
    if pos < 0 || pos >= s.len() {
        Seq::empty()
    } else {
        proof {
            lemma_resume_advances(s, pos);
        }
        match next_frame_spec(s, pos).0 {
            Ok(None) => Seq::empty(),
            Ok(Some(body)) => seq![Ok(body)] + frames_from(s, resume_at(s, pos)),
            Err(fault) => seq![Err(fault)] + frames_from(s, resume_at(s, pos)),
        }
    }
}

/// A line ends just past its first line feed.
proof fn lemma_line_end_at(s: Seq<u8>, from: int, feed: int)
    requires
        0 <= from <= feed < s.len(),
        s[feed] == 10,
        forall|i: int| from <= i < feed ==> s[i] != 10,
    ensures
        line_end(s, from) == feed + 1,
    decreases feed - from,
{
    if from < feed {
        lemma_line_end_at(s, from + 1, feed);
    }
}

/// Where a frame stands in a stream, its first line runs to the middle of the
/// delimiter, and that line is a header that declares the length of the body.
proof fn lemma_frame_header(s: Seq<u8>, pos: int, body: Seq<u8>)
    requires
        has_at(s, pos, frame(body)),
        body.len() <= usize::MAX,
    ensures
        line_end(s, pos) == pos + header_token().len() + decimal(body.len()).len() + 2,
        header_of(s.subrange(pos, line_end(s, pos))) == Ok::<Option<nat>, FramingFault>(
            Some(body.len()),
        ),
{
    let f = frame(body);
    let n = body.len();
    let digits = decimal(n);
    let k = digits.len() as int;
    lemma_header_token();
    lemma_decimal_digits(n);
    lemma_decimal_value(n);
    assert forall|i: int| 0 <= i < f.len() implies s[pos + i] == f[i] by {}
    assert forall|i: int| pos <= i < pos + 16 + k + 1 implies s[i] != 10 by {
        let j = i - pos;
        assert(s[pos + j] == f[j]);
    }
    assert(s[pos + (16 + k + 1)] == f[16 + k + 1]);
    lemma_line_end_at(s, pos, pos + 16 + k + 1);
    let end = line_end(s, pos);
    let line = s.subrange(pos, end);
    assert(line =~= header_token() + digits + seq![13u8, 10u8]) by {
        assert forall|i: int| 0 <= i < line.len() implies line[i] == (header_token() + digits
            + seq![13u8, 10u8])[i] by {}
    }
    assert(line.subrange(0, 16) =~= header_token());
    let field = line.subrange(16, line.len() as int);
    assert(field[k + 1] == 10 && field[k] == 13 && field[k - 1] == digits[k - 1] && field[0]
        == digits[0]);
    assert(blank_end(field, k) == k);
    assert(blank_end(field, k + 1) == k);
    assert(trim_blanks(field) =~= digits);
}

/// Reading a frame gives back the body that was put into it, and leaves off
/// right behind it, whatever stands before and after the frame.
pub proof fn lemma_frame_round_trip(s: Seq<u8>, pos: int, body: Seq<u8>)
    requires
        has_at(s, pos, frame(body)),
        body.len() <= usize::MAX,
    ensures
        next_frame_spec(s, pos) == (
            Ok::<Option<Seq<u8>>, FramingFault>(Some(body)),
            pos + frame(body).len(),
        ),
{
    let f = frame(body);
    lemma_frame_header(s, pos, body);
    lemma_header_token();
    let k = decimal(body.len()).len() as int;
    let end = line_end(s, pos);
    assert(s.subrange(end + 2, end + 2 + body.len()) =~= body) by {
        assert forall|i: int| 0 <= i < body.len() implies s[end + 2 + i] == body[i] by {
            assert(s.subrange(pos, pos + f.len())[16 + k + 4 + i] == f[16 + k + 4 + i]);
        }
    }
}

/// The length that a frame declares is the exact number of bytes of the body
/// that follows its delimiter, and nothing follows the body.
pub proof fn lemma_declared_length_is_body_length(body: Seq<u8>)
    requires
        body.len() <= usize::MAX,
    ensures
        header_of(frame(body).subrange(0, line_end(frame(body), 0))) == Ok::<
            Option<nat>,
            FramingFault,
        >(Some(body.len())),
        frame(body).subrange(line_end(frame(body), 0) + 2, frame(body).len() as int) == body,
{
    let f = frame(body);
    assert(f.subrange(0, f.len() as int) =~= f);
    lemma_frame_header(f, 0, body);
    lemma_header_token();
}

/// Whether the header token stands nowhere in `s`.
pub open spec fn token_free(s: Seq<u8>) -> bool {
    forall|i: int| !has_at(s, i, header_token())
}

/// The search for a header stops at the first place where the token stands.
pub(crate) proof fn lemma_next_header_at(s: Seq<u8>, from: int, at: int)
    requires
        0 <= from <= at < s.len(),
        has_at(s, at, header_token()),
        forall|i: int| from <= i < at ==> !has_at(s, i, header_token()),
    ensures
        next_header(s, from) == at,
    decreases at - from,
{
    if from < at {
        lemma_next_header_at(s, from + 1, at);
    }
}

/// Where a sequence stands that is made of two parts, each part stands.
proof fn lemma_has_at_parts(s: Seq<u8>, at: int, a: Seq<u8>, b: Seq<u8>)
    requires
        has_at(s, at, a + b),
    ensures
        has_at(s, at, a),
        has_at(s, at + a.len(), b),
{
    let ab = a + b;
    assert forall|i: int| 0 <= i < ab.len() implies s[at + i] == ab[i] by {}
    assert(s.subrange(at, at + a.len()) =~= a) by {
        assert forall|i: int| 0 <= i < a.len() implies s[at + i] == a[i] by {
            assert(ab[i] == a[i]);
        }
    }
    assert(s.subrange(at + a.len(), at + a.len() + b.len()) =~= b) by {
        assert forall|i: int| 0 <= i < b.len() implies s[at + a.len() + i] == b[i] by {
            assert(ab[a.len() + i] == b[i]);
        }
    }
}

/// A header line whose length field is no valid length is read as that
/// fault, and reading leaves off behind the line.
proof fn lemma_bad_length_at(s: Seq<u8>, pos: int, field: Seq<u8>)
    requires
        has_at(s, pos, header_token() + field + seq![13u8, 10u8]),
        forall|i: int| 0 <= i < field.len() ==> field[i] != 10,
        declared_length(field + seq![13u8, 10u8]) is None,
    ensures
        next_frame_spec(s, pos) == (
            Err::<Option<Seq<u8>>, FramingFault>(FramingFault::BadLength),
            pos + header_token().len() + field.len() + 2,
        ),
{
    let token = header_token();
    let l = token + field + seq![13u8, 10u8];
    let end = pos + 16 + field.len() + 2;
    lemma_header_token();
    assert forall|i: int| 0 <= i < l.len() implies s[pos + i] == l[i] by {}
    assert forall|i: int| pos <= i < end - 1 implies s[i] != 10 by {
        let j = i - pos;
        assert(s[pos + j] == l[j]);
    }
    assert(s[pos + (end - 1 - pos)] == l[end - 1 - pos]);
    lemma_line_end_at(s, pos, end - 1);
    let line = s.subrange(pos, end);
    assert(line.subrange(0, 16) =~= token);
    assert(line.subrange(16, line.len() as int) =~= field + seq![13u8, 10u8]);
}

/// Behind a header line that was given up, the search for the next header
/// passes over the blank line and over a body that holds no header token, and
/// stops where the token stands next.
proof fn lemma_skip_lost_body(s: Seq<u8>, from: int, lost: Seq<u8>)
    requires
        has_at(s, from, seq![13u8, 10u8] + lost + header_token()),
        token_free(lost),
    ensures
        next_header(s, from) == from + 2 + lost.len(),
{
    let token = header_token();
    let x = seq![13u8, 10u8] + lost + token;
    let at = from + 2 + lost.len();
    lemma_header_token();
    assert forall|i: int| 0 <= i < x.len() implies s[from + i] == x[i] by {}
    lemma_has_at_parts(s, from, seq![13u8, 10u8] + lost, token);
    assert forall|i: int| from <= i < at implies !has_at(s, i, token) by {
        if has_at(s, i, token) {
            if i < from + 2 {
                assert(s[from + (i - from)] == x[i - from]);
            } else if i + 16 <= at {
                let j = i - from - 2;
                assert(lost.subrange(j, j + 16) =~= token) by {
                    assert forall|k: int| 0 <= k < 16 implies lost[j + k] == token[k] by {
                        assert(s[from + (i + k - from)] == x[i + k - from]);
                    }
                }
                assert(has_at(lost, j, token));
            } else {
                assert(s[from + (i + 15 - from)] == x[i + 15 - from]);
            }
        }
    }
    lemma_next_header_at(s, from, at);
}

/// A stream of a frame, a frame whose length field is no valid length, and
/// another frame is read as the first body, one fault for the second frame,
/// and the third body. The corrupted field stands on the header line, and
/// what follows it up to the third frame holds no header token.
pub proof fn lemma_recovery_after_bad_length(
    first: Seq<u8>,
    field: Seq<u8>,
    lost: Seq<u8>,
    third: Seq<u8>,
)
    requires
        first.len() <= usize::MAX,
        third.len() <= usize::MAX,
        forall|i: int| 0 <= i < field.len() ==> field[i] != 10,
        declared_length(field + seq![13u8, 10u8]) is None,
        token_free(lost),
    ensures
        frames_from(
            frame(first) + (header_token() + field + delimiter() + lost) + frame(third),
            0,
        ) == seq![
            Ok::<Seq<u8>, FramingFault>(first),
            Err::<Seq<u8>, FramingFault>(FramingFault::BadLength),
            Ok::<Seq<u8>, FramingFault>(third),
        ],
{
    let token = header_token();
    let crlf = seq![13u8, 10u8];
    let a = frame(first);
    let c = frame(third);
    let s = a + (token + field + delimiter() + lost) + c;
    let bad_at = a.len() as int;
    let rest_at = bad_at + 16 + field.len() + 2;
    let third_at = rest_at + 2 + lost.len();
    lemma_header_token();
    let line = token + field + crlf;
    let rest = crlf + lost + token;
    assert(s.subrange(0, bad_at) =~= a);
    assert(s.subrange(bad_at, bad_at + line.len()) =~= line);
    assert(s.subrange(rest_at, rest_at + rest.len()) =~= rest);
    assert(s.subrange(third_at, third_at + c.len()) =~= c);

    lemma_frame_round_trip(s, 0, first);
    lemma_bad_length_at(s, bad_at, field);
    lemma_skip_lost_body(s, rest_at, lost);
    lemma_frame_round_trip(s, third_at, third);
    assert(resume_at(s, 0) == bad_at);
    assert(resume_at(s, bad_at) == third_at);
    assert(resume_at(s, third_at) == s.len());

    assert(frames_from(s, s.len() as int) =~= Seq::empty());
    assert(frames_from(s, third_at) =~= seq![Ok::<Seq<u8>, FramingFault>(third)]);
    assert(frames_from(s, bad_at) =~= seq![
        Err::<Seq<u8>, FramingFault>(FramingFault::BadLength),
        Ok::<Seq<u8>, FramingFault>(third),
    ]);
    assert(frames_from(s, 0) =~= seq![
        Ok::<Seq<u8>, FramingFault>(first),
        Err::<Seq<u8>, FramingFault>(FramingFault::BadLength),
        Ok::<Seq<u8>, FramingFault>(third),
    ]);
}

/// A line holds no line feed before its last byte, and ends with a line feed
/// unless it ends with the stream.
pub(crate) proof fn lemma_line_end_is_first(s: Seq<u8>, from: int)
    requires
        0 <= from < s.len(),
    ensures
        forall|i: int| from <= i < line_end(s, from) - 1 ==> s[i] != 10,
        s[line_end(s, from) - 1] == 10 || line_end(s, from) == s.len(),
    decreases s.len() - from,
{
    lemma_line_end_bounds(s, from);
    if s[from] != 10 {
        if from + 1 < s.len() {
            lemma_line_end_is_first(s, from + 1);
        }
    }
}

/// From anywhere inside a line, the line ends at the same place.
pub(crate) proof fn lemma_line_end_within(s: Seq<u8>, from: int, inside: int)
    requires
        0 <= from <= inside < line_end(s, from),
        from < s.len(),
    ensures
        line_end(s, inside) == line_end(s, from),
    decreases inside - from,
{
    lemma_line_end_bounds(s, from);
    if from < inside {
        lemma_line_end_is_first(s, from);
        lemma_line_end_within(s, from + 1, inside);
    }
}

/// The search for a header passes only places where the token does not
/// stand, and stops inside the stream only where it stands.
pub(crate) proof fn lemma_next_header_is_first(s: Seq<u8>, from: int)
    requires
        0 <= from <= s.len(),
    ensures
        forall|i: int| from <= i < next_header(s, from) ==> !has_at(s, i, header_token()),
        next_header(s, from) < s.len() ==> has_at(s, next_header(s, from), header_token()),
    decreases s.len() - from,
{
    lemma_next_header_bounds(s, from);
    if from < s.len() && !has_at(s, from, header_token()) {
        lemma_next_header_is_first(s, from + 1);
    }
}

/// Where the token stands nowhere between two places, the search from the
/// first goes on as the search from the second.
pub(crate) proof fn lemma_next_header_skips(s: Seq<u8>, from: int, to: int)
    requires
        0 <= from <= to <= s.len(),
        forall|i: int| from <= i < to ==> !has_at(s, i, header_token()),
    ensures
        next_header(s, from) == next_header(s, to),
    decreases to - from,
{
    if from < to {
        lemma_next_header_skips(s, from + 1, to);
    }
}

/// The token does not reach over the end of a line: where it stands in a
/// stream at a place inside a line, it stands in that line.
pub(crate) proof fn lemma_token_stays_in_line(s: Seq<u8>, from: int, at: int)
    requires
        0 <= from <= at < line_end(s, from),
        from < s.len(),
        has_at(s, at, header_token()),
    ensures
        at + header_token().len() <= line_end(s, from),
        has_at(s.subrange(from, line_end(s, from)), at - from, header_token()),
{
    let end = line_end(s, from);
    lemma_header_token();
    lemma_line_end_bounds(s, from);
    lemma_line_end_is_first(s, from);
    if at + 16 > end {
        assert(s.subrange(at, at + 16)[end - 1 - at] == header_token()[end - 1 - at]);
    }
    assert(s.subrange(from, end).subrange(at - from, at - from + 16) =~= s.subrange(at, at + 16));
}

} // verus!
