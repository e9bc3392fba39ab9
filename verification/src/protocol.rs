//! Routing protocols and route types shared between them.

use vstd::prelude::*;

use crate::collections::Key;

verus! {

#[derive(Clone, Copy, Debug, PartialEq, Eq, Structural)]
pub enum Protocol {
    BFD,
    BGP,
    DIRECT,
    IGMP,
    ISIS,
    LDP,
    OSPFV2,
    OSPFV3,
    RIPV2,
    RIPNG,
    STATIC,
    VRRP,
}

impl View for Protocol {
    type V = Protocol;

    open spec fn view(&self) -> Protocol {
        *self
    }
}

impl Protocol {
    pub open spec fn rank(self) -> u128 {
        match self {
            Protocol::BFD => 0,
            Protocol::BGP => 1,
            Protocol::DIRECT => 2,
            Protocol::IGMP => 3,
            Protocol::ISIS => 4,
            Protocol::LDP => 5,
            Protocol::OSPFV2 => 6,
            Protocol::OSPFV3 => 7,
            Protocol::RIPV2 => 8,
            Protocol::RIPNG => 9,
            Protocol::STATIC => 10,
            Protocol::VRRP => 11,
        }
    }

    pub fn to_rank(&self) -> (r: u128)
        ensures
            r == self.rank(),
    {
        match self {
            Protocol::BFD => 0,
            Protocol::BGP => 1,
            Protocol::DIRECT => 2,
            Protocol::IGMP => 3,
            Protocol::ISIS => 4,
            Protocol::LDP => 5,
            Protocol::OSPFV2 => 6,
            Protocol::OSPFV3 => 7,
            Protocol::RIPV2 => 8,
            Protocol::RIPNG => 9,
            Protocol::STATIC => 10,
            Protocol::VRRP => 11,
        }
    }
}

impl Key for Protocol {
    open spec fn code(v: Protocol) -> Seq<u128> {
        seq![v.rank()]
    }

    proof fn code_injective(a: Protocol, b: Protocol) {
        assert(Self::code(a)[0] == a.rank());
        assert(Self::code(b)[0] == b.rank());
    }

    fn to_code(&self) -> Vec<u128> {
        let c: Vec<u128> = vec![self.to_rank()];
        assert(c@ =~= Self::code(self@));
        c
    }

    fn copy_key(&self) -> Protocol {
        *self
    }
}

} // verus!
