//! A debugging client for language servers that speak JSON-RPC over their
//! standard streams.
//!
//! The library holds everything of the client that decides or computes, and
//! nothing that reads or writes: a program around it starts the server, moves
//! bytes between the pipes, the console and the library, and prints.
//!
//! - [`frame`] is the wire format: a header that declares a length, a
//!   delimiter, and a body of that many bytes.
//! - [`codec`] puts JSON values into frames and reads them back, one frame
//!   at a time or a stream as a whole; [`decoder`] does the same piece by
//!   piece, for a stream that comes through a pipe.
//! - [`request`] builds the messages that the client sends.
//! - [`correlator`] keeps the requests that wait for a response, each under
//!   the identifier that [`counter`] numbered it with.
//! - [`console`] is the loop that turns the operator's commands into requests.
//! - [`pump`] relays what the server writes, and [`display`] says what the
//!   operator is shown for a response.
//! - [`json`] states what the library trusts of `serde_json`; [`text`] and
//!   [`decimal`] hold what is needed of text and of numbers in decimal.

pub mod codec;
pub mod console;
pub mod correlator;
pub mod counter;
pub mod decimal;
pub mod decoder;
pub mod display;
pub mod frame;
pub mod json;
pub mod pump;
pub mod request;
pub mod text;
