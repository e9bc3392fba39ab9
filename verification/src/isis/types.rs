//! Types of IS-IS.

use vstd::prelude::*;

use crate::collections::Key;
use crate::protocol::Protocol;

verus! {

/// Identifies an interface for as long as it is configured.
pub type InterfaceIndex = u32;

/// The six octets of a MAC address, most significant first.
pub type MacAddr = u64;

/// The six octets of a System ID, most significant first.
pub type SystemId = u64;

/// Levels.
#[derive(Clone, Copy, Debug, PartialEq, Eq, Structural)]
pub enum LevelNumber {
    L1,
    L2,
}

impl View for LevelNumber {
    type V = LevelNumber;

    open spec fn view(&self) -> LevelNumber {
        *self
    }
}

impl LevelNumber {
    pub open spec fn rank(self) -> u128 {
        match self {
            LevelNumber::L1 => 1,
            LevelNumber::L2 => 2,
        }
    }

    pub fn to_rank(&self) -> (r: u128)
        ensures
            r == self.rank(),
    {
        match self {
            LevelNumber::L1 => 1,
            LevelNumber::L2 => 2,
        }
    }
}

impl Key for LevelNumber {
    open spec fn code(v: LevelNumber) -> Seq<u128> {
        seq![v.rank()]
    }

    proof fn code_injective(a: LevelNumber, b: LevelNumber) {
        assert(Self::code(a)[0] == a.rank() && Self::code(b)[0] == b.rank());
    }

    fn to_code(&self) -> Vec<u128> {
        let c: Vec<u128> = vec![self.to_rank()];
        assert(c@ =~= Self::code(self@));
        c
    }

    fn copy_key(&self) -> LevelNumber {
        *self
    }
}

/// The levels that an instance or an interface takes part in.
#[derive(Clone, Copy, Debug, PartialEq, Eq, Structural)]
pub enum LevelType {
    L1,
    L2,
    All,
}

impl LevelType {
    /// The levels, in order.
    pub open spec fn levels(self) -> Seq<LevelNumber> {
        match self {
            LevelType::L1 => seq![LevelNumber::L1],
            LevelType::L2 => seq![LevelNumber::L2],
            LevelType::All => seq![LevelNumber::L1, LevelNumber::L2],
        }
    }

    /// Whether a level is among them.
    pub open spec fn has(self, level: LevelNumber) -> bool {
        match self {
            LevelType::L1 => level is L1,
            LevelType::L2 => level is L2,
            LevelType::All => true,
        }
    }

    pub fn to_vec(&self) -> (r: Vec<LevelNumber>)
        ensures
            r@ == self.levels(),
    {
        let r: Vec<LevelNumber> = match self {
            LevelType::L1 => vec![LevelNumber::L1],
            LevelType::L2 => vec![LevelNumber::L2],
            LevelType::All => vec![LevelNumber::L1, LevelNumber::L2],
        };
        assert(r@ =~= self.levels());
        r
    }
}

impl LevelNumber {
    /// The level as a set of levels.
    pub open spec fn only(self) -> LevelType {
        match self {
            LevelNumber::L1 => LevelType::L1,
            LevelNumber::L2 => LevelType::L2,
        }
    }

    pub fn to_level_type(&self) -> (r: LevelType)
        ensures
            r == self.only(),
    {
        match self {
            LevelNumber::L1 => LevelType::L1,
            LevelNumber::L2 => LevelType::L2,
        }
    }
}

/// The levels of a set are those that it has, each once.
pub proof fn levels_are_members(t: LevelType, level: LevelNumber)
    ensures
        t.levels().contains(level) == t.has(level),
        t.levels().no_duplicates(),
        level.only().levels() == seq![level],
{
    if t.has(level) {
        if t.levels()[0] != level {
            assert(t.levels()[1] == level);
        } else {
            assert(t.levels()[0] == level);
        }
    }
}

/// Topologies.
#[derive(Clone, Copy, Debug, PartialEq, Eq, Structural)]
pub enum MtId {
    Standard,
    Ipv6Unicast,
}

impl View for MtId {
    type V = MtId;

    open spec fn view(&self) -> MtId {
        *self
    }
}

impl MtId {
    pub open spec fn rank(self) -> u128 {
        match self {
            MtId::Standard => 0,
            MtId::Ipv6Unicast => 1,
        }
    }

    pub fn to_rank(&self) -> (r: u128)
        ensures
            r == self.rank(),
    {
        match self {
            MtId::Standard => 0,
            MtId::Ipv6Unicast => 1,
        }
    }
}

impl Key for MtId {
    open spec fn code(v: MtId) -> Seq<u128> {
        seq![v.rank()]
    }

    proof fn code_injective(a: MtId, b: MtId) {
        assert(Self::code(a)[0] == a.rank() && Self::code(b)[0] == b.rank());
    }

    fn to_code(&self) -> Vec<u128> {
        let c: Vec<u128> = vec![self.to_rank()];
        assert(c@ =~= Self::code(self@));
        c
    }

    fn copy_key(&self) -> MtId {
        *self
    }
}

/// Standard applications using application-specific link attributes (RFC 9479).
#[derive(Clone, Copy, Debug, PartialEq, Eq, Structural)]
pub enum StandardApp {
    RsvpTe,
    SrPolicy,
    Lfa,
}

impl View for StandardApp {
    type V = StandardApp;

    open spec fn view(&self) -> StandardApp {
        *self
    }
}

impl StandardApp {
    pub open spec fn rank(self) -> u128 {
        match self {
            StandardApp::RsvpTe => 0,
            StandardApp::SrPolicy => 1,
            StandardApp::Lfa => 2,
        }
    }

    pub fn to_rank(&self) -> (r: u128)
        ensures
            r == self.rank(),
    {
        match self {
            StandardApp::RsvpTe => 0,
            StandardApp::SrPolicy => 1,
            StandardApp::Lfa => 2,
        }
    }
}

impl Key for StandardApp {
    open spec fn code(v: StandardApp) -> Seq<u128> {
        seq![v.rank()]
    }

    proof fn code_injective(a: StandardApp, b: StandardApp) {
        assert(Self::code(a)[0] == a.rank() && Self::code(b)[0] == b.rank());
    }

    fn to_code(&self) -> Vec<u128> {
        let c: Vec<u128> = vec![self.to_rank()];
        assert(c@ =~= Self::code(self@));
        c
    }

    fn copy_key(&self) -> StandardApp {
        *self
    }
}

/// An area address: its octets, most significant first, filled up to thirteen
/// with zeros, and how many there are.
#[derive(Clone, Copy, Debug, PartialEq, Eq, Structural)]
pub struct AreaAddr {
    pub value: u128,
    pub len: u8,
}

impl View for AreaAddr {
    type V = AreaAddr;

    open spec fn view(&self) -> AreaAddr {
        *self
    }
}

impl Key for AreaAddr {
    open spec fn code(v: AreaAddr) -> Seq<u128> {
        seq![v.value, v.len as u128]
    }

    proof fn code_injective(a: AreaAddr, b: AreaAddr) {
        let (x, y) = (Self::code(a), Self::code(b));
        assert(x[0] == a.value && y[0] == b.value);
        assert(x[1] == a.len as u128 && y[1] == b.len as u128);
    }

    fn to_code(&self) -> Vec<u128> {
        let c: Vec<u128> = vec![self.value, self.len as u128];
        assert(c@ =~= Self::code(self@));
        c
    }

    fn copy_key(&self) -> AreaAddr {
        *self
    }
}

/// Key for SPB service entries (B-MAC + Base VID).
#[derive(Clone, Copy, Debug, PartialEq, Eq, Structural)]
pub struct SpbServiceKey {
    pub bmac: MacAddr,
    pub base_vid: u16,
}

impl View for SpbServiceKey {
    type V = SpbServiceKey;

    open spec fn view(&self) -> SpbServiceKey {
        *self
    }
}

impl Key for SpbServiceKey {
    open spec fn code(v: SpbServiceKey) -> Seq<u128> {
        seq![v.bmac as u128, v.base_vid as u128]
    }

    proof fn code_injective(a: SpbServiceKey, b: SpbServiceKey) {
        let (x, y) = (Self::code(a), Self::code(b));
        assert(x[0] == a.bmac as u128 && y[0] == b.bmac as u128);
        assert(x[1] == a.base_vid as u128 && y[1] == b.base_vid as u128);
    }

    fn to_code(&self) -> Vec<u128> {
        let c: Vec<u128> = vec![self.bmac as u128, self.base_vid as u128];
        assert(c@ =~= Self::code(self@));
        c
    }

    fn copy_key(&self) -> SpbServiceKey {
        *self
    }
}

/// What redistribution is configured for.
#[derive(Clone, Copy, Debug, PartialEq, Eq, Structural)]
pub struct RedistributionKey {
    pub level: LevelNumber,
    pub protocol: Protocol,
}

impl View for RedistributionKey {
    type V = RedistributionKey;

    open spec fn view(&self) -> RedistributionKey {
        *self
    }
}

impl Key for RedistributionKey {
    open spec fn code(v: RedistributionKey) -> Seq<u128> {
        seq![v.level.rank(), v.protocol.rank()]
    }

    proof fn code_injective(a: RedistributionKey, b: RedistributionKey) {
        let (x, y) = (Self::code(a), Self::code(b));
        assert(x[0] == a.level.rank() && y[0] == b.level.rank());
        assert(x[1] == a.protocol.rank() && y[1] == b.protocol.rank());
    }

    fn to_code(&self) -> Vec<u128> {
        let c: Vec<u128> = vec![self.level.to_rank(), self.protocol.to_rank()];
        assert(c@ =~= Self::code(self@));
        c
    }

    fn copy_key(&self) -> RedistributionKey {
        *self
    }
}

/// Flooding reduction algorithms.
#[derive(Clone, Copy, Debug, PartialEq, Eq, Structural)]
pub enum FloodingAlgo {
    ZeroPruner,
    ModifiedManet,
}

/// Types of interfaces.
#[derive(Clone, Copy, Debug, PartialEq, Eq, Structural)]
pub enum InterfaceType {
    Broadcast,
    PointToPoint,
}

/// Types of PDUs.
#[derive(Clone, Copy, Debug, PartialEq, Eq, Structural)]
pub enum PduType {
    HelloLanL1,
    HelloLanL2,
    HelloP2P,
    LspL1,
    LspL2,
    CsnpL1,
    CsnpL2,
    PsnpL1,
    PsnpL2,
}

/// Bits of the Standard Application Identifier Bit Mask.
#[derive(Clone, Copy, Debug, PartialEq, Eq, Structural)]
pub enum AslaSabmFlags {
    R,
    S,
    F,
}

impl StandardApp {
    /// The Standard Application Identifier Bit Mask bit associated with this
    /// application.
    pub fn sabm(&self) -> (r: AslaSabmFlags)
        ensures
            r == (match *self {
                StandardApp::RsvpTe => AslaSabmFlags::R,
                StandardApp::SrPolicy => AslaSabmFlags::S,
                StandardApp::Lfa => AslaSabmFlags::F,
            }),
    {
        match self {
            StandardApp::RsvpTe => AslaSabmFlags::R,
            StandardApp::SrPolicy => AslaSabmFlags::S,
            StandardApp::Lfa => AslaSabmFlags::F,
        }
    }
}

} // verus!
