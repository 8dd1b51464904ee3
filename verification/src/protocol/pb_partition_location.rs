//! The mode of a partition location in its protobuf form.

use vstd::prelude::*;

verus! {

/// Partition mode in its protobuf form.
#[derive(Debug, Clone, Copy, PartialEq, Eq, Hash, PartialOrd, Ord, Structural)]
pub enum Mode {
    Primary,
    Replica,
}

impl Mode {
    /// The number of the mode on the wire.
    pub fn code(&self) -> (r: i32)
        ensures
            r == (match *self {
                Mode::Primary => 0i32,
                Mode::Replica => 1i32,
            }),
    {
        match self {
            Mode::Primary => 0,
            Mode::Replica => 1,
        }
    }
}

} // verus!
