use vstd::prelude::*;

verus! {

/// Errors encounterable while parsing an option from bytes
#[derive(Copy, Clone, Debug, PartialEq, Eq, PartialOrd, Ord, Structural)]
pub enum OptParseError {
    /// Reached end of stream before parsing was finished
    UnexpectedEndOfStream,
    /// Option value was longer than the fixed capacity
    OptionValueTooLong { capacity: usize, actual: usize },
    /// Parsed more options than reserved capacity
    TooManyOptions(usize),
    /// Option Delta was set to 15, which is invalid.
    OptionDeltaReservedValue(u8),
    /// Value Length was set to 15, which is invalid.
    ValueLengthReservedValue(u8),
    /// Not a true failure case; only means we tried to read the payload marker byte (0xFF)
    /// as an option header.
    OptionsExhausted,
}

impl OptParseError {
    /// Shorthand for [`OptParseError::UnexpectedEndOfStream`]
    pub fn eof() -> (e: Self)
        ensures
            e == OptParseError::UnexpectedEndOfStream,
    {
        OptParseError::UnexpectedEndOfStream
    }
}

/// Errors encounterable while parsing a message from bytes
#[derive(Copy, Clone, Debug, PartialEq, Eq, PartialOrd, Ord, Structural)]
pub enum MessageParseError {
    /// Reached end of stream before parsing was finished
    UnexpectedEndOfStream,
    /// Token length was > 8
    InvalidTokenLength(u8),
    /// Error parsing option
    OptParseError(OptParseError),
    /// The rest of the message contained more bytes than there was capacity for
    PayloadTooLong(usize),
    /// The message type is invalid (see [`crate::msg::Type`] for information & valid values)
    InvalidType(u8),
}

impl MessageParseError {
    /// Shorthand for [`MessageParseError::UnexpectedEndOfStream`]
    pub fn eof() -> (e: Self)
        ensures
            e == MessageParseError::UnexpectedEndOfStream,
    {
        MessageParseError::UnexpectedEndOfStream
    }
}

} // verus!
