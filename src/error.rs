use vstd::prelude::*;

verus! {

/// Every way in which one wake-up can fail.
#[derive(Debug, Clone, PartialEq, Eq)]
pub enum WolError {
    /// An interface was named, but the platform has none of that name.
    InterfaceNotFound,
    /// No interface was named, and none is up, non-loopback and addressed.
    NoDefaultInterface,
    /// The chosen interface reports no hardware address.
    MissingInterfaceMac,
    /// An ASCII text password is longer than six bytes.
    PasswordTooLong,
    /// A text password holds a byte of 0x80 or above.
    PasswordNotAscii,
    /// A text password is shorter than six bytes; it is not padded.
    PasswordTooShort,
    /// The frame buffer cannot hold the header and the payload.
    FrameTooSmall,
    /// The interface could not be opened for raw sending.
    ChannelOpenError(String),
    /// The opened channel does not carry Ethernet frames.
    UnsupportedChannelType,
    /// The platform refused to send the frame.
    SendError(String),
}

} // verus!
