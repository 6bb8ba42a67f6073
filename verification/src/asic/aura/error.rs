//! Error types for the Aura ASIC protocol.

use vstd::prelude::*;

verus! {

/// `std::io::Error`, carried through unread.
#[verifier::external_type_specification]
#[verifier::external_body]
pub struct ExIoError(std::io::Error);

/// What can be wrong with a frame or a register number.
#[allow(inconsistent_fields)]
#[derive(Debug)]
pub enum ProtocolError {
    /// The frame has the wrong number of bytes.
    InvalidFrameLength {
        /// Length of a frame of this kind.
        expected: usize,
        /// Length of the frame at hand.
        found: usize,
    },
    /// The frame does not begin with its magic word.
    BadMagic {
        /// Magic word of a frame of this kind.
        expected: u32,
        /// Word that the frame begins with.
        found: u32,
    },
    /// The trailing CRC word does not match the bytes before it.
    BadCrc {
        /// CRC of the bytes.
        expected: u32,
        /// CRC word that the frame carries.
        found: u32,
    },
    /// No register has this number.
    InvalidRegister(u8),
    /// The transport failed.
    Io(std::io::Error),
}

impl From<std::io::Error> for ProtocolError {
    fn from(error: std::io::Error) -> (r: ProtocolError) {
        ProtocolError::Io(error)
    }
}

impl vstd::std_specs::convert::FromSpecImpl<std::io::Error> for ProtocolError {
    open spec fn obeys_from_spec() -> bool {
        true
    }

    open spec fn from_spec(error: std::io::Error) -> ProtocolError {
        ProtocolError::Io(error)
    }
}

} // verus!
