//! ECN codepoints and the type-of-service value carried on each datagram.

use vstd::prelude::*;

verus! {

/// The four ECN codepoints of the IP header's two ECN bits.
#[derive(Debug, Clone, Copy, PartialEq, Eq, Structural)]
pub enum Ecn {
    /// The packet is not ECN-capable.
    NotEct,
    /// ECN-capable transport, codepoint 1.
    Ect1,
    /// ECN-capable transport, codepoint 0; the codepoint this engine sends.
    Ect0,
    /// Congestion experienced, set by a router on the path.
    Ce,
}

impl Ecn {
    pub open spec fn spec_is_ecn_marked(self) -> bool {
        self != Ecn::NotEct
    }

    pub fn is_ecn_marked(&self) -> (r: bool)
        ensures
            r == self.spec_is_ecn_marked(),
    {
        match self {
            Ecn::NotEct => false,
            _ => true,
        }
    }
}

/// The type-of-service of a datagram; this engine only uses the ECN bits.
#[derive(Debug, Clone, Copy, PartialEq, Eq, Structural)]
pub struct Tos {
    pub ecn: Ecn,
}

impl Tos {
    pub fn new(ecn: Ecn) -> (r: Tos)
        ensures
            r == (Tos { ecn }),
    {
        Tos { ecn }
    }

    pub fn ecn(&self) -> (r: Ecn)
        ensures
            r == self.ecn,
    {
        self.ecn
    }

    pub fn is_ecn_marked(&self) -> (r: bool)
        ensures
            r == self.ecn.spec_is_ecn_marked(),
    {
        self.ecn.is_ecn_marked()
    }
}

impl From<Ecn> for Tos {
    fn from(ecn: Ecn) -> (r: Tos) {
        Tos { ecn }
    }
}

impl vstd::std_specs::convert::FromSpecImpl<Ecn> for Tos {
    open spec fn obeys_from_spec() -> bool {
        true
    }

    open spec fn from_spec(ecn: Ecn) -> Tos {
        Tos { ecn }
    }
}

impl Default for Tos {
    fn default() -> (r: Tos)
        ensures
            r == (Tos { ecn: Ecn::NotEct }),
    {
        Tos { ecn: Ecn::NotEct }
    }
}

} // verus!
