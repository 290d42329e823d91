//! The wire-level data frame that carries a message, or part of one.

use crate::opcode::Opcode;
use vstd::prelude::*;

verus! {

/// One wire-level unit of a message: an opcode, three reserved bits, a
/// last-frame flag and payload bytes.  Raw byte-level parsing and
/// serialization of the header happen below this layer; here a frame is
/// already structured.
#[derive(Debug)]
pub struct DataFrame {
    /// True when this frame is the last one of its message.
    pub finished: bool,
    /// The three protocol-reserved bits; extensions may set them, this
    /// layer requires them clear.
    pub reserved: [bool; 3],
    /// The frame's opcode.
    pub opcode: Opcode,
    /// The frame's payload bytes.
    pub data: Vec<u8>,
}

/// The mathematical model of a [`DataFrame`].
pub ghost struct DataFrameView {
    pub finished: bool,
    pub reserved: Seq<bool>,
    pub opcode: Opcode,
    pub data: Seq<u8>,
}

impl View for DataFrame {
    type V = DataFrameView;

    open spec fn view(&self) -> DataFrameView {
        DataFrameView {
            finished: self.finished,
            reserved: self.reserved@,
            opcode: self.opcode,
            data: self.data@,
        }
    }
}

impl DataFrameView {
    /// True when none of the three reserved bits is set.
    pub open spec fn reserved_clear(self) -> bool {
        &&& !self.reserved[0]
        &&& !self.reserved[1]
        &&& !self.reserved[2]
    }
}

impl DataFrame {
    /// True when none of the three reserved bits is set.
    pub fn reserved_clear(&self) -> (clear: bool)
        ensures
            clear == self@.reserved_clear(),
    {
        !self.reserved[0] && !self.reserved[1] && !self.reserved[2]
    }
}

} // verus!
