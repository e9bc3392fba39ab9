//! Neighbors, as far as route processing looks at them.

use vstd::prelude::*;

use crate::bgp::attribute::{Attrs, AttrsView};
use crate::bgp::types::{AfiSafi, PeerIndex, PeerType, TcpConnInfo};
use crate::collections::OrdSet;
use crate::ip::{IpAddr, IpNetwork, Ipv4Addr, Ipv6Addr};

verus! {

/// State of the session with a neighbor.
#[derive(Clone, Copy, Debug, PartialEq, Eq, Structural)]
pub enum State {
    Idle,
    Connect,
    Active,
    OpenSent,
    OpenConfirm,
    Established,
}

/// What the session with a neighbor was set up with.
#[derive(Clone, Copy, Debug, PartialEq, Eq, Structural)]
pub struct Session {
    pub index: PeerIndex,
    pub remote_addr: IpAddr,
    pub peer_type: PeerType,
    pub state: State,
    pub identifier: Option<Ipv4Addr>,
    pub conn_info: Option<TcpConnInfo>,
    pub shared_subnet: bool,
    pub ipv4_unicast_enabled: bool,
    pub ipv6_unicast_enabled: bool,
}

/// Prefixes to advertise with the same attributes.
pub struct ReachQueue {
    pub attrs: Attrs,
    pub prefixes: OrdSet<IpNetwork>,
}

/// Updates waiting to be sent to a neighbor, for one address family.
pub struct NeighborUpdateQueue {
    pub reach: Vec<ReachQueue>,
    pub unreach: OrdSet<IpNetwork>,
}

/// Updates waiting to be sent to a neighbor.
pub struct NeighborUpdateQueues {
    pub ipv4_unicast: NeighborUpdateQueue,
    pub ipv6_unicast: NeighborUpdateQueue,
}

pub struct ReachNlri {
    pub prefixes: Vec<IpNetwork>,
    pub nexthop: Ipv4Addr,
}

pub struct UnreachNlri {
    pub prefixes: Vec<IpNetwork>,
}

#[allow(inconsistent_fields)]
pub enum MpReachNlri {
    Ipv4Unicast { prefixes: Vec<IpNetwork>, nexthop: Ipv4Addr },
    Ipv6Unicast { prefixes: Vec<IpNetwork>, nexthop: Ipv6Addr, ll_nexthop: Option<Ipv6Addr> },
}

pub enum MpUnreachNlri {
    Ipv4Unicast { prefixes: Vec<IpNetwork> },
    Ipv6Unicast { prefixes: Vec<IpNetwork> },
}

pub struct UpdateMsg {
    pub reach: Option<ReachNlri>,
    pub unreach: Option<UnreachNlri>,
    pub mp_reach: Option<MpReachNlri>,
    pub mp_unreach: Option<MpUnreachNlri>,
    pub attrs: Option<Attrs>,
}

// ===== views =====

#[verifier::ext_equal]
#[allow(inconsistent_fields)]
pub enum MpReachView {
    Ipv4Unicast { prefixes: Seq<IpNetwork>, nexthop: Ipv4Addr },
    Ipv6Unicast { prefixes: Seq<IpNetwork>, nexthop: Ipv6Addr, ll_nexthop: Option<Ipv6Addr> },
}

#[verifier::ext_equal]
pub enum MpUnreachView {
    Ipv4Unicast { prefixes: Seq<IpNetwork> },
    Ipv6Unicast { prefixes: Seq<IpNetwork> },
}

#[verifier::ext_equal]
pub struct UpdateView {
    pub reach: Option<(Seq<IpNetwork>, Ipv4Addr)>,
    pub unreach: Option<Seq<IpNetwork>>,
    pub mp_reach: Option<MpReachView>,
    pub mp_unreach: Option<MpUnreachView>,
    pub attrs: Option<AttrsView>,
}

impl View for UpdateMsg {
    type V = UpdateView;

    open spec fn view(&self) -> UpdateView {
        UpdateView {
            reach: match self.reach {
                Some(r) => Some((r.prefixes@, r.nexthop)),
                None => None,
            },
            unreach: match self.unreach {
                Some(r) => Some(r.prefixes@),
                None => None,
            },
            mp_reach: match self.mp_reach {
                Some(MpReachNlri::Ipv4Unicast { prefixes, nexthop }) => Some(
                    MpReachView::Ipv4Unicast { prefixes: prefixes@, nexthop },
                ),
                Some(MpReachNlri::Ipv6Unicast { prefixes, nexthop, ll_nexthop }) => Some(
                    MpReachView::Ipv6Unicast { prefixes: prefixes@, nexthop, ll_nexthop },
                ),
                None => None,
            },
            mp_unreach: match self.mp_unreach {
                Some(MpUnreachNlri::Ipv4Unicast { prefixes }) => Some(
                    MpUnreachView::Ipv4Unicast { prefixes: prefixes@ },
                ),
                Some(MpUnreachNlri::Ipv6Unicast { prefixes }) => Some(
                    MpUnreachView::Ipv6Unicast { prefixes: prefixes@ },
                ),
                None => None,
            },
            attrs: match self.attrs {
                Some(a) => Some(a@),
                None => None,
            },
        }
    }
}

impl State {
    pub open spec fn rank(self) -> int {
        match self {
            State::Idle => 0,
            State::Connect => 1,
            State::Active => 2,
            State::OpenSent => 3,
            State::OpenConfirm => 4,
            State::Established => 5,
        }
    }
}

impl Session {
    pub open spec fn af_enabled(self, af: AfiSafi) -> bool {
        match af {
            AfiSafi::Ipv4Unicast => self.ipv4_unicast_enabled,
            AfiSafi::Ipv6Unicast => self.ipv6_unicast_enabled,
        }
    }

    /// Whether an address family is enabled for the session.
    pub fn is_af_enabled(&self, af: AfiSafi) -> (b: bool)
        ensures
            b == self.af_enabled(af),
    {
        match af {
            AfiSafi::Ipv4Unicast => self.ipv4_unicast_enabled,
            AfiSafi::Ipv6Unicast => self.ipv6_unicast_enabled,
        }
    }
}

} // verus!
