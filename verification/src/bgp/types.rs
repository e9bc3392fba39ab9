//! Plain types shared by the BGP modules.

use vstd::prelude::*;

use crate::collections::Key;
use crate::ip::IpAddr;

verus! {

/// A point in time, in nanoseconds of a monotonic clock.
pub type Instant = u64;

/// Number that identifies a neighbor.
pub type PeerIndex = u32;

#[derive(Clone, Copy, Debug, PartialEq, Eq, Structural)]
pub enum AfiSafi {
    Ipv4Unicast,
    Ipv6Unicast,
}

#[derive(Clone, Copy, Debug, PartialEq, Eq, Structural)]
pub enum RouteType {
    Internal,
    External,
}

#[derive(Clone, Copy, Debug, PartialEq, Eq, Structural)]
pub enum PeerType {
    Internal,
    External,
}

/// The ends of a TCP connection.
#[derive(Clone, Copy, Debug, PartialEq, Eq, Structural)]
pub struct TcpConnInfo {
    pub local_addr: IpAddr,
    pub remote_addr: IpAddr,
}

impl View for AfiSafi {
    type V = AfiSafi;

    open spec fn view(&self) -> AfiSafi {
        *self
    }
}

impl AfiSafi {
    pub open spec fn rank(self) -> u128 {
        match self {
            AfiSafi::Ipv4Unicast => 0,
            AfiSafi::Ipv6Unicast => 1,
        }
    }

    pub fn to_rank(&self) -> (r: u128)
        ensures
            r == self.rank(),
    {
        match self {
            AfiSafi::Ipv4Unicast => 0,
            AfiSafi::Ipv6Unicast => 1,
        }
    }
}

impl Key for AfiSafi {
    open spec fn code(v: AfiSafi) -> Seq<u128> {
        seq![v.rank()]
    }

    proof fn code_injective(a: AfiSafi, b: AfiSafi) {
        assert(Self::code(a)[0] == a.rank());
        assert(Self::code(b)[0] == b.rank());
    }

    fn to_code(&self) -> Vec<u128> {
        let c: Vec<u128> = vec![self.to_rank()];
        assert(c@ =~= Self::code(self@));
        c
    }

    fn copy_key(&self) -> AfiSafi {
        *self
    }
}

impl RouteType {
    pub open spec fn rank(self) -> u128 {
        match self {
            RouteType::Internal => 0,
            RouteType::External => 1,
        }
    }

    pub fn to_rank(&self) -> (r: u128)
        ensures
            r == self.rank(),
    {
        match self {
            RouteType::Internal => 0,
            RouteType::External => 1,
        }
    }
}

#[derive(Clone, Copy, Debug, PartialEq, Eq, Structural)]
pub struct DistanceCfg {
    pub external: u8,
    pub internal: u8,
}

#[derive(Clone, Copy, Debug, PartialEq, Eq, Structural)]
pub struct MultipathCfg {
    pub enabled: bool,
    pub ebgp_allow_multiple_as: bool,
    pub ebgp_max_paths: u32,
    pub ibgp_max_paths: u32,
}

#[derive(Clone, Copy, Debug, PartialEq, Eq, Structural)]
pub struct RouteSelectionCfg {
    pub always_compare_med: bool,
    pub ignore_as_path_length: bool,
    pub external_compare_router_id: bool,
    pub ignore_next_hop_igp_metric: bool,
    pub enable_med: bool,
}

} // verus!
