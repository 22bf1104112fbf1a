//! The errors of an exchange with the module.
use vstd::prelude::*;

verus! {

/// What can go wrong with the module on its serial line.
///
/// The exchanges of this library end with `IoError`, `DecodeError`,
/// `ResponseError`, `ChanError` or `AddrError`. `SerialError` and
/// `StatusError` are for the driver that owns the port.
#[derive(Clone, Copy, Debug, PartialEq, Eq, Structural)]
pub enum Error {
    /// The serial port could not be opened or configured.
    SerialError,
    /// The write of the command or the read of the reply failed.
    IoError,
    /// The reply is framed as it should be, but it is no ASCII text, or one
    /// of its fields is no decimal literal.
    DecodeError,
    /// The reply has not the length that its kind has, or does not begin
    /// with the marker.
    ResponseError,
    /// The exchange was out of step: what was asked of it has no place in
    /// the phase that it is in.
    StatusError,
    /// The channel index is above 15.
    ChanError,
    /// The device address is above 99.
    AddrError,
}

impl Error {
    /// Whether it was an argument of the caller that was out of range.
    pub open spec fn is_range(self) -> bool {
        self == Error::ChanError || self == Error::AddrError
    }
}

} // verus!
