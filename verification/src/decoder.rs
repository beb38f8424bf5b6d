//! Decoding a stream piece by piece.
//!
//! A stream that comes through a pipe cannot be held as a whole. The decoder
//! here says what it needs next, a line or a number of bytes, takes what the
//! reader got, and hands out what it has decoded. Reading from the pipe
//! happens outside this library.

use vstd::prelude::*;
use vstd::slice::slice_subrange;
use crate::codec::{body_outcome, decode_body, decoded_view, messages_from, Decoded, DecodedView};
use crate::frame::{find_header, has_at, header_of, header_token, lemma_header_token,
    lemma_line_end_bounds, lemma_line_end_within, lemma_next_header_at, lemma_next_header_bounds,
    lemma_next_header_is_first, lemma_next_header_skips, lemma_resume_advances,
    lemma_token_stays_in_line, line_end, next_frame_spec, next_header, read_header, resume_at,
    FramingError, FramingFault};

verus! {

/// What the decoder needs from the stream next.
#[derive(Clone, Copy, Debug, PartialEq, Eq)]
pub enum Want {
    /// The bytes up to and with the next line feed, or up to the end of the
    /// stream if no line feed comes; nothing only at the end of the stream.
    Line,
    /// This many bytes, or as many as the stream still has if it has fewer.
    Bytes(usize),
    /// Nothing more.
    Nothing,
}

/// Where the decoder stands.
#[derive(Clone, Copy, Debug, PartialEq, Eq)]
pub enum DecoderState {
    /// A header line is expected.
    AwaitingHeader,
    /// A frame was given up; the next header token is looked for.
    Recovering,
    /// The two delimiter bytes are expected, before a body of this length.
    AwaitingDelimiter(usize),
    /// A body of this length is expected.
    AwaitingBody(usize),
    /// The stream has ended.
    Ended,
}

/// What the decoder needs in a state.
pub open spec fn want_in(state: DecoderState) -> Want {
    match state {
        DecoderState::AwaitingHeader => Want::Line,
        DecoderState::Recovering => Want::Line,
        DecoderState::AwaitingDelimiter(_) => Want::Bytes(2),
        DecoderState::AwaitingBody(n) => Want::Bytes(n),
        DecoderState::Ended => Want::Nothing,
    }
}

/// What a line leads to where a header is expected: the state that follows,
/// and what is handed out, if anything.
pub open spec fn header_step(line: Seq<u8>) -> (DecoderState, Option<Result<DecodedView, FramingFault>>) {
    match header_of(line) {
        Ok(None) => (DecoderState::Ended, Some(Ok(DecodedView::EndOfStream))),
        Ok(Some(n)) => (DecoderState::AwaitingDelimiter(n as usize), None),
        Err(FramingFault::BadLength) => (
            DecoderState::Recovering,
            Some(Err(FramingFault::BadLength)),
        ),
        Err(fault) => (DecoderState::AwaitingHeader, Some(Err(fault))),
    }
}

/// One step of the decoder: from a state and what the reader got for what
/// the state needs, to the state that follows and what is handed out.
pub open spec fn fed(state: DecoderState, data: Seq<u8>) -> (DecoderState, Option<Result<DecodedView, FramingFault>>) {
    match state {
        DecoderState::AwaitingHeader => header_step(data),
        DecoderState::Recovering => {
            let at = next_header(data, 0);
            if data.len() == 0 {
                (DecoderState::Ended, Some(Ok(DecodedView::EndOfStream)))
            } else if at >= data.len() {
                (DecoderState::Recovering, None)
            } else {
                header_step(data.subrange(at, data.len() as int))
            }
        },
        DecoderState::AwaitingDelimiter(n) => if data.len() < 2 {
            (DecoderState::AwaitingHeader, Some(Err(FramingFault::ShortRead)))
        } else {
            (DecoderState::AwaitingBody(n), None)
        },
        DecoderState::AwaitingBody(n) => if data.len() < n {
            (DecoderState::AwaitingHeader, Some(Err(FramingFault::ShortRead)))
        } else {
            (DecoderState::AwaitingHeader, Some(Ok(body_outcome(data.subrange(0, n as int)))))
        },
        DecoderState::Ended => (DecoderState::Ended, None),
    }
}

/// The content of what a step hands out.
pub open spec fn handed_out(r: Option<Result<Decoded, FramingError>>) -> Option<
    Result<DecodedView, FramingFault>,
> {
    match r {
        Some(found) => Some(decoded_view(found)),
        None => None,
    }
}

impl DecoderState {
    /// The state in which decoding starts.
    pub fn new() -> (state: DecoderState)
        ensures
            state == DecoderState::AwaitingHeader,
    {
        DecoderState::AwaitingHeader
    }

    /// What the decoder needs next.
    pub fn wants(&self) -> (want: Want)
        ensures
            want == want_in(*self),
    {
        match self {
            DecoderState::AwaitingHeader => Want::Line,
            DecoderState::Recovering => Want::Line,
            DecoderState::AwaitingDelimiter(_) => Want::Bytes(2),
            DecoderState::AwaitingBody(n) => Want::Bytes(*n),
            DecoderState::Ended => Want::Nothing,
        }
    }

    /// Takes what the reader got and returns the state that follows and what
    /// was decoded, if anything. Fewer bytes than were asked for mean that
    /// the stream has ended; of more, only as many as were asked for count.
    pub fn feed(self, data: &[u8]) -> (r: (DecoderState, Option<Result<Decoded, FramingError>>))
        ensures
            (r.0, handed_out(r.1)) == fed(self, data@),
    {
        match self {
            DecoderState::AwaitingHeader => feed_header(data),
            DecoderState::Recovering => {
                if data.len() == 0 {
                    return (DecoderState::Ended, Some(Ok(Decoded::EndOfStream)));
                }
                let at = find_header(data, 0);
                if at >= data.len() {
                    (DecoderState::Recovering, None)
                } else {
                    feed_header(slice_subrange(data, at, data.len()))
                }
            },
            DecoderState::AwaitingDelimiter(n) => {
                if data.len() < 2 {
                    (DecoderState::AwaitingHeader, Some(Err(FramingError::ShortRead)))
                } else {
                    (DecoderState::AwaitingBody(n), None)
                }
            },
            DecoderState::AwaitingBody(n) => {
                if data.len() < n {
                    (DecoderState::AwaitingHeader, Some(Err(FramingError::ShortRead)))
                } else {
                    let body = decode_body(slice_subrange(data, 0, n));
                    (DecoderState::AwaitingHeader, Some(Ok(body)))
                }
            },
            DecoderState::Ended => (DecoderState::Ended, None),
        }
    }
}

/// Takes a line where a header is expected.
fn feed_header(line: &[u8]) -> (r: (DecoderState, Option<Result<Decoded, FramingError>>))
    ensures
        (r.0, handed_out(r.1)) == header_step(line@),
{
    match read_header(line) {
        Ok(None) => (DecoderState::Ended, Some(Ok(Decoded::EndOfStream))),
        Ok(Some(n)) => (DecoderState::AwaitingDelimiter(n), None),
        Err(FramingError::BadLength) => (
            DecoderState::Recovering,
            Some(Err(FramingError::BadLength)),
        ),
        Err(fault) => (DecoderState::AwaitingHeader, Some(Err(fault))),
    }
}

/// What a reader that stands at `pos` in the stream `s` gets when it is asked
/// for `want`.
pub open spec fn supplied(s: Seq<u8>, pos: int, want: Want) -> Seq<u8> {
    if pos < 0 || pos >= s.len() {
        Seq::empty()
    } else {
        match want {
            Want::Line => s.subrange(pos, line_end(s, pos)),
            Want::Bytes(n) => if pos + n <= s.len() {
                s.subrange(pos, pos + n)
            } else {
                s.subrange(pos, s.len() as int)
            },
            Want::Nothing => Seq::empty(),
        }
    }
}

/// How far a state is from the end when the reader has nothing more to give.
pub open spec fn steps_left(state: DecoderState) -> nat {
    match state {
        DecoderState::Ended => 0,
        DecoderState::AwaitingHeader => 1,
        DecoderState::Recovering => 1,
        DecoderState::AwaitingDelimiter(_) => 2,
        DecoderState::AwaitingBody(_) => 2,
    }
}

/// What a step hands out, as a list: the end of the stream is not listed.
pub open spec fn listed(emitted: Option<Result<DecodedView, FramingFault>>) -> Seq<
    Result<DecodedView, FramingFault>,
> {
    match emitted {
        None => Seq::empty(),
        Some(Ok(DecodedView::EndOfStream)) => Seq::empty(),
        Some(found) => seq![found],
    }
}

/// The reader gives no more than the stream has; and where it gives nothing,
/// the step brings the decoder nearer to the end.
pub proof fn lemma_step_goes_on(state: DecoderState, s: Seq<u8>, pos: int)
    requires
        0 <= pos <= s.len(),
        state != DecoderState::Ended,
    ensures
        pos + supplied(s, pos, want_in(state)).len() <= s.len(),
        supplied(s, pos, want_in(state)).len() == 0 ==> steps_left(
            fed(state, supplied(s, pos, want_in(state))).0,
        ) < steps_left(state),
{
    if pos < s.len() {
        lemma_line_end_bounds(s, pos);
    }
}

/// Everything that the decoder hands out when it is run from `state` on the
/// stream `s` from `pos` on, in order.
pub open spec fn pumped(state: DecoderState, s: Seq<u8>, pos: int) -> Seq<
    Result<DecodedView, FramingFault>,
>
    decreases s.len() - pos, steps_left(state),
{
    if state == DecoderState::Ended || pos < 0 || pos > s.len() {
        Seq::empty()
    } else {
        proof {
            lemma_step_goes_on(state, s, pos);
        }
        let data = supplied(s, pos, want_in(state));
        let step = fed(state, data);
        listed(step.1) + pumped(step.0, s, pos + data.len())
    }
}

/// At the end of the stream the decoder hands out nothing more.
proof fn lemma_pumped_at_end(s: Seq<u8>)
    ensures
        pumped(DecoderState::AwaitingHeader, s, s.len() as int) == Seq::<
            Result<DecodedView, FramingFault>,
        >::empty(),
        pumped(DecoderState::Recovering, s, s.len() as int) == Seq::<
            Result<DecodedView, FramingFault>,
        >::empty(),
        messages_from(s, s.len() as int) == Seq::<Result<DecodedView, FramingFault>>::empty(),
{
    assert(pumped(DecoderState::Ended, s, s.len() as int) =~= Seq::empty());
}

/// What decoding finds from a place on is what it finds there, and then what
/// it finds from where it resumes.
proof fn lemma_messages_unfold(s: Seq<u8>, pos: int)
    requires
        0 <= pos < s.len(),
    ensures
        messages_from(s, pos) == seq![
            match next_frame_spec(s, pos).0 {
                Ok(Some(body)) => Ok::<DecodedView, FramingFault>(body_outcome(body)),
                Ok(None) => Ok::<DecodedView, FramingFault>(DecodedView::EndOfStream),
                Err(fault) => Err::<DecodedView, FramingFault>(fault),
            },
        ] + messages_from(s, resume_at(s, pos)),
{
    lemma_resume_advances(s, pos);
    match next_frame_spec(s, pos).0 {
        Ok(None) => {},
        Ok(Some(body)) => {
            assert(messages_from(s, pos) =~= seq![
                Ok::<DecodedView, FramingFault>(body_outcome(body)),
            ] + messages_from(s, resume_at(s, pos)));
        },
        Err(fault) => {
            assert(messages_from(s, pos) =~= seq![Err::<DecodedView, FramingFault>(fault)]
                + messages_from(s, resume_at(s, pos)));
        },
    }
}

/// Run from a place where a header is expected, the decoder hands out what
/// decoding the stream as a whole finds from that place on.
pub proof fn lemma_pumped_from_header(s: Seq<u8>, pos: int)
    requires
        0 <= pos <= s.len(),
    ensures
        pumped(DecoderState::AwaitingHeader, s, pos) == messages_from(s, pos),
    decreases s.len() - pos, 0int,
{
    lemma_pumped_at_end(s);
    if pos < s.len() {
        let len = s.len() as int;
        let end = line_end(s, pos);
        let line = s.subrange(pos, end);
        lemma_line_end_bounds(s, pos);
        lemma_messages_unfold(s, pos);
        match header_of(line) {
            Ok(None) => {},
            Err(FramingFault::BadLength) => {
                lemma_next_header_bounds(s, end);
                lemma_pumped_recovering(s, end);
            },
            Err(fault) => {
                lemma_pumped_from_header(s, end);
            },
            Ok(Some(n)) => {
                let waiting = DecoderState::AwaitingDelimiter(n as usize);
                assert(pumped(DecoderState::AwaitingHeader, s, pos) =~= pumped(waiting, s, end));
                if len - end < 2 {
                    assert(pumped(waiting, s, end) =~= seq![
                        Err::<DecodedView, FramingFault>(FramingFault::ShortRead),
                    ]);
                } else {
                    let reading = DecoderState::AwaitingBody(n as usize);
                    let got = supplied(s, end + 2, Want::Bytes(n as usize));
                    if end + 2 + n <= len {
                        assert(got.subrange(0, n as int) =~= got);
                        lemma_pumped_from_header(s, end + 2 + n);
                        assert(pumped(reading, s, end + 2) =~= seq![
                            Ok::<DecodedView, FramingFault>(body_outcome(got)),
                        ] + pumped(DecoderState::AwaitingHeader, s, end + 2 + n));
                    } else {
                        assert(pumped(reading, s, end + 2) =~= seq![
                            Err::<DecodedView, FramingFault>(FramingFault::ShortRead),
                        ]);
                    }
                }
            },
        }
    }
}

/// Run from a place behind a frame that was given up, the decoder hands out
/// what decoding the stream as a whole finds from the next header token on.
pub proof fn lemma_pumped_recovering(s: Seq<u8>, pos: int)
    requires
        0 <= pos <= s.len(),
    ensures
        pumped(DecoderState::Recovering, s, pos) == messages_from(s, next_header(s, pos)),
    decreases s.len() - pos, 1int,
{
    lemma_pumped_at_end(s);
    if pos < s.len() {
        let end = line_end(s, pos);
        let line = s.subrange(pos, end);
        let at = next_header(line, 0);
        lemma_line_end_bounds(s, pos);
        lemma_next_header_bounds(line, 0);
        lemma_next_header_is_first(line, 0);
        assert forall|i: int| pos <= i < pos + at implies !has_at(s, i, header_token()) by {
            if has_at(s, i, header_token()) {
                lemma_token_stays_in_line(s, pos, i);
            }
        }
        if at >= line.len() {
            lemma_next_header_skips(s, pos, end);
            lemma_pumped_recovering(s, end);
        } else {
            lemma_header_token();
            assert(s.subrange(pos + at, pos + at + 16) =~= line.subrange(at, at + 16));
            lemma_next_header_at(s, pos, pos + at);
            lemma_line_end_within(s, pos, pos + at);
            assert(supplied(s, pos + at, Want::Line) =~= line.subrange(at, line.len() as int));
            lemma_pumped_from_header(s, pos + at);
        }
    }
}

/// The decoder that is fed piece by piece decodes a stream as decoding the
/// stream as a whole does: it hands out the same messages and the same
/// faults, in the same order.
pub proof fn lemma_piecewise_decoding(s: Seq<u8>)
    ensures
        pumped(DecoderState::AwaitingHeader, s, 0) == messages_from(s, 0),
{
    lemma_pumped_from_header(s, 0);
}

} // verus!
