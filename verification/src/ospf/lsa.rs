//! Link State Advertisements of OSPFv2.

use std::sync::Arc;

use vstd::prelude::*;

use crate::collections::{Key, Table};
use crate::ip::{IpNetwork, Ipv4Addr};

verus! {

#[derive(Clone, Copy, Debug, PartialEq, Eq, Structural)]
pub enum LsaRouterLinkType {
    PointToPoint,
    TransitNetwork,
    StubNetwork,
    VirtualLink,
}

#[derive(Clone, Copy, Debug, PartialEq, Eq, Structural)]
pub struct LsaRouterLink {
    pub link_type: LsaRouterLinkType,
    pub link_id: Ipv4Addr,
    pub link_data: Ipv4Addr,
    pub metric: u16,
}

#[derive(Clone, Copy, Debug, PartialEq, Eq, Structural)]
pub enum LsaTypeCode {
    Router,
    Network,
    SummaryNetwork,
    SummaryRouter,
    AsExternal,
    OpaqueLink,
    OpaqueArea,
    OpaqueAs,
    Unknown,
}

/// Header of a Link State Advertisement.
#[derive(Clone, Copy, Debug, PartialEq, Eq, Structural)]
pub struct LsaHdr {
    /// Whether the age has reached its maximum.
    pub maxage: bool,
    pub options: u8,
    pub lsa_id: Ipv4Addr,
    pub adv_rtr: Ipv4Addr,
}

#[derive(Clone, Copy, Debug, PartialEq, Eq, Structural)]
pub enum IgpAlgoType {
    Spf,
    StrictSpf,
}

#[derive(Clone, Copy, Debug, PartialEq, Eq, Structural)]
pub enum Sid {
    Index(u32),
    Label(u32),
}

#[derive(Clone, Copy, Debug, PartialEq, Eq, Structural)]
pub struct PrefixSid {
    pub flags: u8,
    pub sid: Sid,
}

#[derive(Clone, Copy, Debug, PartialEq, Eq, Structural)]
pub enum ExtPrefixRouteType {
    Unspecified,
    IntraArea,
    InterArea,
    AsExternal,
    NssaExternal,
}

/// Extended Prefix TLV.
pub struct ExtPrefixTlv {
    pub route_type: ExtPrefixRouteType,
    pub prefix_sids: Table<IgpAlgoType, PrefixSid>,
}

/// SR-Algorithm TLV.
pub struct SrAlgoTlv {
    pub algos: Vec<u8>,
}

/// SID/Label Range TLV.
#[derive(Clone, Copy, Debug, PartialEq, Eq, Structural)]
pub struct SidLabelRangeTlv {
    pub first: Sid,
    pub range: u32,
}

#[allow(inconsistent_fields)]
pub enum LsaOpaque {
    RouterInfo { sr_algo: Option<SrAlgoTlv>, srgb: Vec<SidLabelRangeTlv> },
    ExtPrefix { prefixes: Table<IpNetwork, Arc<ExtPrefixTlv>> },
    ExtLink,
    Grace,
    Unknown,
}

#[allow(inconsistent_fields)]
pub enum LsaBody {
    Router { flags: u8, links: Vec<LsaRouterLink> },
    Network { mask: Ipv4Addr, attached_rtrs: Vec<Ipv4Addr> },
    SummaryNetwork { mask: Ipv4Addr, metric: u32 },
    SummaryRouter { metric: u32 },
    AsExternal { mask: Ipv4Addr, e_bit: bool, metric: u32, fwd_addr: Option<Ipv4Addr>, tag: u32 },
    OpaqueLink(LsaOpaque),
    OpaqueArea(LsaOpaque),
    OpaqueAs(LsaOpaque),
    Unknown,
}

pub struct Lsa {
    pub hdr: LsaHdr,
    pub body: LsaBody,
}

impl Lsa {
    pub open spec fn code(self) -> LsaTypeCode {
        match self.body {
            LsaBody::Router { .. } => LsaTypeCode::Router,
            LsaBody::Network { .. } => LsaTypeCode::Network,
            LsaBody::SummaryNetwork { .. } => LsaTypeCode::SummaryNetwork,
            LsaBody::SummaryRouter { .. } => LsaTypeCode::SummaryRouter,
            LsaBody::AsExternal { .. } => LsaTypeCode::AsExternal,
            LsaBody::OpaqueLink(_) => LsaTypeCode::OpaqueLink,
            LsaBody::OpaqueArea(_) => LsaTypeCode::OpaqueArea,
            LsaBody::OpaqueAs(_) => LsaTypeCode::OpaqueAs,
            LsaBody::Unknown => LsaTypeCode::Unknown,
        }
    }

    pub fn type_code(&self) -> (r: LsaTypeCode)
        ensures
            r == self.code(),
    {
        match &self.body {
            LsaBody::Router { .. } => LsaTypeCode::Router,
            LsaBody::Network { .. } => LsaTypeCode::Network,
            LsaBody::SummaryNetwork { .. } => LsaTypeCode::SummaryNetwork,
            LsaBody::SummaryRouter { .. } => LsaTypeCode::SummaryRouter,
            LsaBody::AsExternal { .. } => LsaTypeCode::AsExternal,
            LsaBody::OpaqueLink(_) => LsaTypeCode::OpaqueLink,
            LsaBody::OpaqueArea(_) => LsaTypeCode::OpaqueArea,
            LsaBody::OpaqueAs(_) => LsaTypeCode::OpaqueAs,
            LsaBody::Unknown => LsaTypeCode::Unknown,
        }
    }
}

impl View for IgpAlgoType {
    type V = IgpAlgoType;

    open spec fn view(&self) -> IgpAlgoType {
        *self
    }
}

impl IgpAlgoType {
    pub open spec fn rank(self) -> u128 {
        match self {
            IgpAlgoType::Spf => 0,
            IgpAlgoType::StrictSpf => 1,
        }
    }
}

impl Key for IgpAlgoType {
    open spec fn code(v: IgpAlgoType) -> Seq<u128> {
        seq![v.rank()]
    }

    proof fn code_injective(a: IgpAlgoType, b: IgpAlgoType) {
        assert(Self::code(a)[0] == a.rank());
        assert(Self::code(b)[0] == b.rank());
    }

    fn to_code(&self) -> Vec<u128> {
        let c: Vec<u128> = match self {
            IgpAlgoType::Spf => vec![0],
            IgpAlgoType::StrictSpf => vec![1],
        };
        assert(c@ =~= Self::code(self@));
        c
    }

    fn copy_key(&self) -> IgpAlgoType {
        *self
    }
}

/// An LSA is of the type that its body is of.
pub proof fn lsas_are_of_the_type_of_their_body(lsa: Lsa)
    ensures
        lsa.body is Router ==> lsa.code() == LsaTypeCode::Router,
        lsa.body is Network ==> lsa.code() == LsaTypeCode::Network,
        lsa.body is SummaryNetwork ==> lsa.code() == LsaTypeCode::SummaryNetwork,
        lsa.body is SummaryRouter ==> lsa.code() == LsaTypeCode::SummaryRouter,
        lsa.body is AsExternal ==> lsa.code() == LsaTypeCode::AsExternal,
        lsa.body is OpaqueLink ==> lsa.code() == LsaTypeCode::OpaqueLink,
        lsa.body is OpaqueArea ==> lsa.code() == LsaTypeCode::OpaqueArea,
        lsa.body is OpaqueAs ==> lsa.code() == LsaTypeCode::OpaqueAs,
        lsa.body is Unknown ==> lsa.code() == LsaTypeCode::Unknown,
{
}

} // verus!
