use vstd::prelude::*;
use vstd::std_specs::convert::{FromSpecImpl, TryFromSpecImpl};

use super::parse_error::MessageParseError;

verus! {

/// Indicates if this message is of
/// type Confirmable (0), Non-confirmable (1), Acknowledgement (2), or Reset (3).
#[derive(Copy, Clone, Hash, PartialEq, Eq, PartialOrd, Ord, Structural, Debug)]
pub enum Type {
    /// A message that does not require an acknowledgement
    Non,
    /// A message that requires an acknowledgement
    Con,
    /// Acknowledges that a specific Confirmable message arrived
    Ack,
    /// A specific message was received but some context is missing to process it
    Reset,
}

/// The 2-bit number of a message type.
pub open spec fn spec_type_num(t: Type) -> u8 {
    match t {
        Type::Con => 0,
        Type::Non => 1,
        Type::Ack => 2,
        Type::Reset => 3,
    }
}

/// The message type with a given 2-bit number.
pub open spec fn spec_type_of_num(b: u8) -> Option<Type> {
    if b == 0 {
        Some(Type::Con)
    } else if b == 1 {
        Some(Type::Non)
    } else if b == 2 {
        Some(Type::Ack)
    } else if b == 3 {
        Some(Type::Reset)
    } else {
        None
    }
}

impl TryFrom<u8> for Type {
    type Error = MessageParseError;

    fn try_from(b: u8) -> (r: Result<Type, MessageParseError>) {
        match b {
            0 => Ok(Type::Con),
            1 => Ok(Type::Non),
            2 => Ok(Type::Ack),
            3 => Ok(Type::Reset),
            _ => Err(MessageParseError::InvalidType(b)),
        }
    }
}

impl TryFromSpecImpl<u8> for Type {
    open spec fn obeys_try_from_spec() -> bool {
        true
    }

    open spec fn try_from_spec(b: u8) -> Result<Type, MessageParseError> {
        match spec_type_of_num(b) {
            Some(t) => Ok(t),
            None => Err(MessageParseError::InvalidType(b)),
        }
    }
}

impl From<Type> for u8 {
    fn from(t: Type) -> (r: u8) {
        match t {
            Type::Con => 0,
            Type::Non => 1,
            Type::Ack => 2,
            Type::Reset => 3,
        }
    }
}

impl FromSpecImpl<Type> for u8 {
    open spec fn obeys_from_spec() -> bool {
        true
    }

    open spec fn from_spec(t: Type) -> u8 {
        spec_type_num(t)
    }
}

/// Reading a type back from its number gives the same type.
pub proof fn lemma_type_num_roundtrip(t: Type)
    ensures
        spec_type_num(t) < 4,
        spec_type_of_num(spec_type_num(t)) == Some(t),
{
}

} // verus!
