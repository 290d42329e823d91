//! The opcode vocabulary of the frame layer.

use vstd::prelude::*;

verus! {

/// Protocol-level tag identifying the type of a frame or message.
///
/// The wire format reserves a four-bit field for the opcode, so besides
/// the six assigned values there are five non-control and five control
/// values that no message type uses; the reassembler rejects them.
#[derive(Clone, Copy, PartialEq, Eq, Structural, Debug)]
pub enum Opcode {
    Continuation,
    Text,
    Binary,
    NonControl1,
    NonControl2,
    NonControl3,
    NonControl4,
    NonControl5,
    Close,
    Ping,
    Pong,
    Control1,
    Control2,
    Control3,
    Control4,
    Control5,
}

impl Opcode {
    /// True for the opcodes that a reassembled message may carry.
    pub open spec fn is_message_opcode(self) -> bool {
        ||| self == Opcode::Text
        ||| self == Opcode::Binary
        ||| self == Opcode::Close
        ||| self == Opcode::Ping
        ||| self == Opcode::Pong
    }
}

} // verus!
