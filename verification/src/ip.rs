//! IP addresses and networks.

use vstd::arithmetic::power2::{
    lemma2_to64, lemma_pow2_pos, lemma_pow2_strictly_increases, lemma_pow2_unfold, pow2,
};
use vstd::prelude::*;

use crate::collections::Key;

verus! {

pub type Ipv4Addr = u32;

pub type Ipv6Addr = u128;

#[derive(Clone, Copy, Debug, PartialEq, Eq, Structural)]
pub enum AddressFamily {
    Ipv4,
    Ipv6,
}

#[derive(Clone, Copy, Debug, PartialEq, Eq, Structural)]
pub enum IpAddr {
    V4(Ipv4Addr),
    V6(Ipv6Addr),
}

/// An address together with the number of leading bits that name its network.
#[derive(Clone, Copy, Debug, PartialEq, Eq, Structural)]
pub struct IpNetwork {
    pub addr: IpAddr,
    pub plen: u8,
}

/// An IP socket address.
#[derive(Clone, Copy, Debug, PartialEq, Eq, Structural)]
pub struct SocketAddr {
    pub ip: IpAddr,
    pub port: u16,
}

impl View for AddressFamily {
    type V = AddressFamily;

    open spec fn view(&self) -> AddressFamily {
        *self
    }
}

impl View for IpAddr {
    type V = IpAddr;

    open spec fn view(&self) -> IpAddr {
        *self
    }
}

impl View for IpNetwork {
    type V = IpNetwork;

    open spec fn view(&self) -> IpNetwork {
        *self
    }
}

// ===== masks =====

/// The number of addresses in an IPv4 network of the given prefix length.
pub open spec fn v4_block(plen: u8) -> int {
    pow2((32 - plen) as nat) as int
}

/// The number of addresses in an IPv6 network of the given prefix length.
pub open spec fn v6_block(plen: u8) -> int {
    pow2((128 - plen) as nat) as int
}

/// The IPv4 netmask of the given prefix length.
pub open spec fn v4_mask(plen: u8) -> int {
    0x1_0000_0000 - v4_block(plen)
}

/// The first address of an IPv4 network.
pub open spec fn v4_network(addr: u32, plen: u8) -> int {
    addr - addr as int % v4_block(plen)
}

/// The first address of an IPv6 network.
pub open spec fn v6_network(addr: u128, plen: u8) -> int {
    addr - addr as int % v6_block(plen)
}

/// Calls `ipnetwork::Ipv4Network::with_netmask`: the prefix length is the one
/// whose netmask is `mask`, and there is none when `mask` is not a netmask.
#[verifier::external_body]
fn netmask_len(addr: u32, mask: u32) -> (r: Option<u8>)
    ensures
        match r {
            Some(plen) => plen <= 32 && v4_mask(plen) == mask,
            None => forall|plen: u8| plen <= 32 ==> #[trigger] v4_mask(plen) != mask,
        },
{
    ipnetwork::Ipv4Network::with_netmask(addr.into(), mask.into()).ok().map(|net| net.prefix())
}

/// Calls `ipnetwork::Ipv4Network::network`: the bits behind the prefix length
/// are zeroed.
#[verifier::external_body]
fn network_v4(addr: u32, plen: u8) -> (r: u32)
    requires
        plen <= 32,
    ensures
        r == v4_network(addr, plen),
{
    ipnetwork::Ipv4Network::new(addr.into(), plen).unwrap().network().into()
}

/// Calls `ipnetwork::Ipv6Network::network`: the bits behind the prefix length
/// are zeroed.
#[verifier::external_body]
fn network_v6(addr: u128, plen: u8) -> (r: u128)
    requires
        plen <= 128,
    ensures
        r == v6_network(addr, plen),
{
    ipnetwork::Ipv6Network::new(addr.into(), plen).unwrap().network().into()
}

/// Calls `ipnetwork::Ipv4Network::contains`: an address is in a network if it
/// agrees with the network's address on every bit of the prefix.
#[verifier::external_body]
fn contains_v4(addr: u32, plen: u8, other: u32) -> (r: bool)
    requires
        plen <= 32,
    ensures
        r == (v4_network(addr, plen) == v4_network(other, plen)),
{
    ipnetwork::Ipv4Network::new(addr.into(), plen).unwrap().contains(other.into())
}

/// Whether some prefix length has the given netmask.
pub open spec fn is_netmask(mask: u32) -> bool {
    exists|plen: u8| plen <= 32 && #[trigger] v4_mask(plen) == mask
}

/// The network that an address and a netmask describe.
pub open spec fn is_v4_with_netmask(net: IpNetwork, addr: u32, mask: u32) -> bool {
    &&& net.addr == IpAddr::V4(addr)
    &&& net.plen <= 32
    &&& v4_mask(net.plen) == mask
}

/// The prefix length that a netmask stands for.
pub open spec fn netmask_plen(mask: u32) -> u8 {
    choose|plen: u8| plen <= 32 && #[trigger] v4_mask(plen) == mask
}

/// The IPv4 network that an address and a mask describe, if the mask is a
/// netmask.
pub open spec fn v4_net(addr: u32, mask: u32) -> Option<IpNetwork> {
    if is_netmask(mask) {
        Some(IpNetwork { addr: IpAddr::V4(addr), plen: netmask_plen(mask) })
    } else {
        None
    }
}

/// Different prefix lengths have different netmasks.
pub proof fn v4_mask_injective(a: u8, b: u8)
    requires
        a <= 32,
        b <= 32,
        v4_mask(a) == v4_mask(b),
    ensures
        a == b,
{
    if a < b {
        lemma_pow2_strictly_increases((32 - b) as nat, (32 - a) as nat);
    } else if b < a {
        lemma_pow2_strictly_increases((32 - a) as nat, (32 - b) as nat);
    }
}

// ===== impl AddressFamily =====

impl AddressFamily {
    pub open spec fn rank(self) -> u128 {
        match self {
            AddressFamily::Ipv4 => 0,
            AddressFamily::Ipv6 => 1,
        }
    }

    pub fn to_rank(&self) -> (r: u128)
        ensures
            r == self.rank(),
    {
        match self {
            AddressFamily::Ipv4 => 0,
            AddressFamily::Ipv6 => 1,
        }
    }
}

impl Key for AddressFamily {
    open spec fn code(v: AddressFamily) -> Seq<u128> {
        seq![v.rank()]
    }

    proof fn code_injective(a: AddressFamily, b: AddressFamily) {
        assert(Self::code(a)[0] == a.rank());
        assert(Self::code(b)[0] == b.rank());
    }

    fn to_code(&self) -> Vec<u128> {
        let c: Vec<u128> = vec![self.to_rank()];
        assert(c@ =~= Self::code(self@));
        c
    }

    fn copy_key(&self) -> AddressFamily {
        *self
    }
}

// ===== impl IpAddr =====

impl IpAddr {
    pub open spec fn family(self) -> AddressFamily {
        match self {
            IpAddr::V4(_) => AddressFamily::Ipv4,
            IpAddr::V6(_) => AddressFamily::Ipv6,
        }
    }

    pub fn address_family(&self) -> (af: AddressFamily)
        ensures
            af == self.family(),
    {
        match self {
            IpAddr::V4(_) => AddressFamily::Ipv4,
            IpAddr::V6(_) => AddressFamily::Ipv6,
        }
    }

    /// The address as two numbers: its family and its value.
    pub open spec fn parts(self) -> (u128, u128) {
        match self {
            IpAddr::V4(a) => (0, a as u128),
            IpAddr::V6(a) => (1, a),
        }
    }

    pub fn to_parts(&self) -> (r: (u128, u128))
        ensures
            r == self.parts(),
    {
        match self {
            IpAddr::V4(a) => (0, *a as u128),
            IpAddr::V6(a) => (1, *a),
        }
    }

    /// The unspecified address of a family.
    pub fn unspecified(af: AddressFamily) -> (addr: IpAddr)
        ensures
            addr == (match af {
                AddressFamily::Ipv4 => IpAddr::V4(0),
                AddressFamily::Ipv6 => IpAddr::V6(0),
            }),
    {
        match af {
            AddressFamily::Ipv4 => IpAddr::V4(0),
            AddressFamily::Ipv6 => IpAddr::V6(0),
        }
    }

    /// Whether an address comes before another: IPv4 before IPv6, and within
    /// a family by number.
    pub open spec fn before(self, other: IpAddr) -> bool {
        match (self, other) {
            (IpAddr::V4(a), IpAddr::V4(b)) => a < b,
            (IpAddr::V4(_), IpAddr::V6(_)) => true,
            (IpAddr::V6(_), IpAddr::V4(_)) => false,
            (IpAddr::V6(a), IpAddr::V6(b)) => a < b,
        }
    }

    pub fn is_before(&self, other: &IpAddr) -> (b: bool)
        ensures
            b == self.before(*other),
    {
        match (*self, *other) {
            (IpAddr::V4(a), IpAddr::V4(b)) => a < b,
            (IpAddr::V4(_), IpAddr::V6(_)) => true,
            (IpAddr::V6(_), IpAddr::V4(_)) => false,
            (IpAddr::V6(a), IpAddr::V6(b)) => a < b,
        }
    }
}

impl Key for IpAddr {
    open spec fn code(v: IpAddr) -> Seq<u128> {
        match v {
            IpAddr::V4(a) => seq![0u128, a as u128],
            IpAddr::V6(a) => seq![1u128, a],
        }
    }

    proof fn code_injective(a: IpAddr, b: IpAddr) {
        assert(Self::code(a)[0] == Self::code(b)[0]);
        assert(Self::code(a)[1] == Self::code(b)[1]);
    }

    fn to_code(&self) -> Vec<u128> {
        match self {
            IpAddr::V4(a) => vec![0, *a as u128],
            IpAddr::V6(a) => vec![1, *a],
        }
    }

    fn copy_key(&self) -> IpAddr {
        *self
    }
}

// ===== impl IpNetwork =====

impl IpNetwork {
    /// Whether the prefix length fits the address.
    pub open spec fn valid(self) -> bool {
        match self.addr {
            IpAddr::V4(_) => self.plen <= 32,
            IpAddr::V6(_) => self.plen <= 128,
        }
    }

    /// The network with the bits behind the prefix length zeroed.
    pub open spec fn masked(self) -> IpNetwork {
        match self.addr {
            IpAddr::V4(a) => IpNetwork { addr: IpAddr::V4(v4_network(a, self.plen) as u32), plen: self.plen },
            IpAddr::V6(a) => IpNetwork { addr: IpAddr::V6(v6_network(a, self.plen) as u128), plen: self.plen },
        }
    }

    pub open spec fn family(self) -> AddressFamily {
        self.addr.family()
    }

    /// A network, if the prefix length fits the address.
    pub fn new(addr: IpAddr, plen: u8) -> (r: Option<IpNetwork>)
        ensures
            r == (if (IpNetwork { addr, plen }).valid() { Some(IpNetwork { addr, plen }) } else { None }),
    {
        let max: u8 = match addr {
            IpAddr::V4(_) => 32,
            IpAddr::V6(_) => 128,
        };
        if plen <= max {
            Some(IpNetwork { addr, plen })
        } else {
            None
        }
    }

    /// The IPv4 network that an address and a netmask describe, if the mask
    /// is a netmask.
    pub fn with_netmask(addr: Ipv4Addr, mask: Ipv4Addr) -> (r: Option<IpNetwork>)
        ensures
            r == v4_net(addr, mask),
            r matches Some(net) ==> net.valid() && is_v4_with_netmask(net, addr, mask),
    {
        match netmask_len(addr, mask) {
            Some(plen) => {
                proof {
                    v4_mask_injective(plen, netmask_plen(mask));
                }
                Some(IpNetwork { addr: IpAddr::V4(addr), plen })
            },
            None => None,
        }
    }

    pub fn apply_mask(&self) -> (net: IpNetwork)
        requires
            self.valid(),
        ensures
            net == self.masked(),
    {
        match self.addr {
            IpAddr::V4(a) => IpNetwork { addr: IpAddr::V4(network_v4(a, self.plen)), plen: self.plen },
            IpAddr::V6(a) => IpNetwork { addr: IpAddr::V6(network_v6(a, self.plen)), plen: self.plen },
        }
    }

    /// Whether an IPv4 address belongs to the network.
    pub open spec fn has_v4(self, addr: Ipv4Addr) -> bool {
        self.addr matches IpAddr::V4(a) && v4_network(a, self.plen) == v4_network(addr, self.plen)
    }

    pub fn contains_v4(&self, addr: Ipv4Addr) -> (b: bool)
        requires
            self.valid(),
        ensures
            b == self.has_v4(addr),
    {
        match self.addr {
            IpAddr::V4(a) => contains_v4(a, self.plen, addr),
            IpAddr::V6(_) => false,
        }
    }

    pub fn address_family(&self) -> (af: AddressFamily)
        ensures
            af == self.family(),
    {
        self.addr.address_family()
    }
}

impl Key for IpNetwork {
    open spec fn code(v: IpNetwork) -> Seq<u128> {
        match v.addr {
            IpAddr::V4(a) => seq![0u128, a as u128, v.plen as u128],
            IpAddr::V6(a) => seq![1u128, a, v.plen as u128],
        }
    }

    proof fn code_injective(a: IpNetwork, b: IpNetwork) {
        assert(Self::code(a)[0] == Self::code(b)[0]);
        assert(Self::code(a)[1] == Self::code(b)[1]);
        assert(Self::code(a)[2] == Self::code(b)[2]);
    }

    fn to_code(&self) -> Vec<u128> {
        match self.addr {
            IpAddr::V4(a) => vec![0, a as u128, self.plen as u128],
            IpAddr::V6(a) => vec![1, a, self.plen as u128],
        }
    }

    fn copy_key(&self) -> IpNetwork {
        *self
    }
}

// ===== laws =====

/// A network begins at a multiple of its size, not after its address, and its address is
/// in it.
pub proof fn networks_hold_their_address(a: u32, b: u128, plen: u8, qlen: u8)
    requires
        plen <= 32,
        qlen <= 128,
    ensures
        v4_block(plen) * (v4_network(a, plen) / v4_block(plen)) == v4_network(a, plen),
        0 <= v4_network(a, plen) <= a < v4_network(a, plen) + v4_block(plen),
        v6_block(qlen) * (v6_network(b, qlen) / v6_block(qlen)) == v6_network(b, qlen),
        0 <= v6_network(b, qlen) <= b < v6_network(b, qlen) + v6_block(qlen),
{
    let m = v4_block(plen);
    let n = v6_block(qlen);
    lemma_pow2_pos((32 - plen) as nat);
    lemma_pow2_pos((128 - qlen) as nat);
    network_is_a_multiple(a as int, m);
    network_is_a_multiple(b as int, n);
}

proof fn network_is_a_multiple(a: int, m: int)
    requires
        a >= 0,
        m > 0,
    ensures
        m * ((a - a % m) / m) == a - a % m,
        0 <= a - a % m <= a < a - a % m + m,
{
    assert(a - a % m == m * (a / m)) by (nonlinear_arith)
        requires
            m > 0,
    ;
    assert((m * (a / m)) / m == a / m) by (nonlinear_arith)
        requires
            m > 0,
    ;
    assert(0 <= a % m < m) by (nonlinear_arith)
        requires
            m > 0,
    ;
    assert(m * (a / m) >= 0) by (nonlinear_arith)
        requires
            m > 0,
            a >= 0,
    ;
}

/// Each bit less of the prefix doubles a network; a full prefix is one address.
pub proof fn networks_double_with_each_bit(plen: u8, qlen: u8)
    ensures
        v4_block(32) == 1,
        v6_block(128) == 1,
        0 < plen <= 32 ==> v4_block((plen - 1) as u8) == 2 * v4_block(plen),
        0 < qlen <= 128 ==> v6_block((qlen - 1) as u8) == 2 * v6_block(qlen),
        v4_mask(plen) + v4_block(plen) == 0x1_0000_0000,
{
    lemma2_to64();
    if 0 < plen <= 32 {
        lemma_pow2_unfold((33 - plen) as nat);
    }
    if 0 < qlen <= 128 {
        lemma_pow2_unfold((129 - qlen) as nat);
    }
}

/// Two addresses are in the same network if what they have in front of the bits that the
/// prefix leaves out is the same.
pub proof fn networks_hold_their_block(net: IpNetwork, a: u32, b: u32)
    requires
        net.addr == IpAddr::V4(a),
        net.plen <= 32,
    ensures
        net.has_v4(b) == (v4_network(a, net.plen) <= b < v4_network(a, net.plen) + v4_block(net.plen)),
        net.has_v4(a),
{
    let m = v4_block(net.plen);
    lemma_pow2_pos((32 - net.plen) as nat);
    network_is_a_multiple(a as int, m);
    network_is_a_multiple(b as int, m);
    let x = v4_network(a, net.plen) / m;
    let y = v4_network(b, net.plen) / m;
    assert(m * x <= b < m * x + m && m * y <= b < m * y + m ==> x == y) by (nonlinear_arith)
        requires
            m > 0,
    ;
}

/// Masking keeps the length and the family, and takes the address to the beginning of its
/// network. Lengths go up to the bits of the family.
pub proof fn masking_keeps_length_and_family(a: u32, b: u128, plen: u8)
    ensures
        ({
            let v4 = IpNetwork { addr: IpAddr::V4(a), plen };
            let v6 = IpNetwork { addr: IpAddr::V6(b), plen };
            &&& v4.valid() == (plen <= 32) && v6.valid() == (plen <= 128)
            &&& v4.masked().plen == plen && v6.masked().plen == plen
            &&& v4.family() == AddressFamily::Ipv4 && v6.family() == AddressFamily::Ipv6
            &&& v4.masked().family() == AddressFamily::Ipv4 && v6.masked().family() == AddressFamily::Ipv6
            &&& plen <= 32 ==> v4.masked().addr == IpAddr::V4(v4_network(a, plen) as u32) && v4_network(a, plen)
                <= a
            &&& plen <= 128 ==> v6.masked().addr == IpAddr::V6(v6_network(b, plen) as u128) && v6_network(b, plen)
                <= b
            &&& plen == 32 ==> v4.masked() == v4
            &&& plen == 128 ==> v6.masked() == v6
        }),
{
    if plen <= 32 {
        networks_hold_their_address(a, b, plen, plen);
    } else if plen <= 128 {
        networks_hold_their_address(a, b, 0, plen);
    }
    lemma2_to64();
}

} // verus!
