use vstd::prelude::*;
use vstd::std_specs::convert::FromSpecImpl;

verus! {

/// The value of the Observe option in a GET request: `0` registers the
/// client as an observer of the resource, `1` removes it.
#[derive(Hash, Debug, PartialEq, Eq, Structural, Clone, Copy)]
pub enum Action {
    /// Observe updates to the resource
    Register,
    /// Stop observing updates to the resource
    Deregister,
}

/// The action with a given byte, if any.
pub open spec fn spec_action_of(n: u8) -> Option<Action> {
    if n == 0 {
        Some(Action::Register)
    } else if n == 1 {
        Some(Action::Deregister)
    } else {
        None
    }
}

/// The byte of an action.
pub open spec fn spec_action_byte(a: Action) -> u8 {
    match a {
        Action::Register => 0,
        Action::Deregister => 1,
    }
}

impl Action {
    /// Try to parse from a single byte
    pub fn from_byte(n: u8) -> (r: Option<Self>)
        ensures
            r == spec_action_of(n),
    {
        match n {
            0 => Some(Action::Register),
            1 => Some(Action::Deregister),
            _ => None,
        }
    }
}

impl From<Action> for u8 {
    fn from(a: Action) -> (r: u8) {
        match a {
            Action::Register => 0,
            Action::Deregister => 1,
        }
    }
}

impl FromSpecImpl<Action> for u8 {
    open spec fn obeys_from_spec() -> bool {
        true
    }

    open spec fn from_spec(a: Action) -> u8 {
        spec_action_byte(a)
    }
}

/// An action read back from its byte is itself.
pub proof fn lemma_action_roundtrip(a: Action)
    ensures
        spec_action_of(spec_action_byte(a)) == Some(a),
{
}

} // verus!
