use vstd::prelude::*;

verus! {

/// Version of the CoAP protocol that the message adheres to; currently always 1.
#[derive(Copy, Clone, PartialEq, Eq, PartialOrd, Hash, Structural, Debug)]
pub struct Version(pub u8);

impl Default for Version {
    fn default() -> (r: Version)
        ensures
            r == Version(1),
    {
        Version(1)
    }
}

} // verus!
