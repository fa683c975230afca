use vstd::prelude::*;

verus! {

/// The conditions that end a run abnormally. None of them can be recovered
/// from: the operation that reports one has changed nothing, and the machine
/// is not meant to execute further.
#[derive(Clone, Copy, Debug, PartialEq, Eq, Structural)]
pub enum Fault {
    /// The opcode bits of an instruction word name none of the fourteen
    /// operations.
    InvalidOpcode,
    /// A segment identifier that is not mapped, or an offset past the end of
    /// a mapped segment.
    SegmentFault,
    /// A division whose divisor is zero.
    DivisionByZero,
    /// An output value that does not fit in one byte.
    InvalidOutputValue,
    /// A new segment was asked for while all 2^32 identifiers are in use.
    OutOfSegments,
}

} // verus!
