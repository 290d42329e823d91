//! Message layer of a framed, WebSocket-style protocol.
//!
//! A [`message::Message`] is the application-level unit: text, binary,
//! close (optionally with a status code and reason), ping or pong.  The
//! encoder side turns a message into the single data frame that carries
//! it on the wire; the reassembler side validates an ordered sequence of
//! received frames and folds it back into one message.  The framing
//! invariants — continuation rules, reserved-bit validation,
//! opcode-specific payload decoding and close-status-code encoding — are
//! stated as contracts and proved here.

pub mod dataframe;
pub mod encoding;
pub mod error;
pub mod message;
pub mod opcode;
