use vstd::prelude::*;

verus! {

/// The ways an encode or decode call can fail.
#[derive(Clone, Copy, Debug, PartialEq, Eq, Structural)]
pub enum CodecError {
    /// The input ended before a fixed or length-prefixed field was complete.
    Truncated,
    /// A value is too large for the encoding chosen for it.
    OutOfRange,
    /// The bytes break a field's own rules (a connection ID length outside
    /// `1..=20`, a reason phrase that is not UTF-8, an ACK range count of 0).
    InvalidEncoding,
    /// A fixed-width field was asked for with a width it does not support.
    UnsupportedLength,
}

} // verus!
