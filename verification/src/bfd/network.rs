//! Sockets and packets of BFD.

use vstd::prelude::*;

use crate::bfd::error::{Error, IoError, SystemError};
use crate::ip::{AddressFamily, IpAddr, Ipv4Addr, Ipv6Addr, SocketAddr};
use crate::text::{decimal, join, owned, push_decimal};

verus! {

pub const PORT_DST_ECHO: u16 = 3785;

/// The first source port of control packets.
pub const PORT_SRC_FIRST: u16 = 49152;

/// The last source port of control packets.
pub const PORT_SRC_LAST: u16 = 65535;

/// The destination port of multihop sessions, unless configured otherwise.
pub const PORT_DST_MULTIHOP: u16 = 4784;

/// The largest TTL.
pub const TTL_MAX: u8 = 255;

#[derive(Clone, Copy, Debug, PartialEq, Eq, Structural)]
pub enum PathType {
    IpSingleHop,
    IpMultihop,
}

/// The destination ports of control packets.
#[derive(Clone, Copy, Debug, PartialEq, Eq, Structural)]
pub struct BfdSocketPolicy {
    pub single_hop_port: u16,
    pub multihop_port: u16,
}

impl BfdSocketPolicy {
    /// The ports of RFC 5881 and RFC 5883.
    pub open spec fn standard() -> BfdSocketPolicy {
        BfdSocketPolicy { single_hop_port: 3784, multihop_port: 4784 }
    }

    pub open spec fn port_of(self, path_type: PathType) -> u16 {
        match path_type {
            PathType::IpSingleHop => self.single_hop_port,
            PathType::IpMultihop => self.multihop_port,
        }
    }

    pub fn port(&self, path_type: PathType) -> (port: u16)
        ensures
            port == self.port_of(path_type),
    {
        match path_type {
            PathType::IpSingleHop => self.single_hop_port,
            PathType::IpMultihop => self.multihop_port,
        }
    }
}

impl Default for BfdSocketPolicy {
    fn default() -> (r: BfdSocketPolicy)
        ensures
            r == BfdSocketPolicy::standard(),
    {
        BfdSocketPolicy { single_hop_port: 3784, multihop_port: 4784 }
    }
}

/// Ancillary data about a received packet.
#[allow(inconsistent_fields)]
#[derive(Clone, Copy, Debug, PartialEq, Eq, Structural)]
pub enum PacketInfo {
    IpSingleHop { src: SocketAddr },
    IpMultihop { src: IpAddr, dst: IpAddr, ttl: u8 },
}

// ===== sockets =====

/// The wildcard address of a family.
pub open spec fn wildcard(af: AddressFamily) -> IpAddr {
    match af {
        AddressFamily::Ipv4 => IpAddr::V4(0),
        AddressFamily::Ipv6 => IpAddr::V6(0),
    }
}

/// The wildcard address the Rx socket for this path type and address family is
/// bound to.
pub fn rx_sockaddr(path_type: PathType, af: AddressFamily, policy: &BfdSocketPolicy) -> (r: SocketAddr)
    ensures
        r == (SocketAddr { ip: wildcard(af), port: policy.port_of(path_type) }),
{
    SocketAddr { ip: IpAddr::unspecified(af), port: policy.port(path_type) }
}

/// Options of a socket.
#[derive(Clone, Copy, Debug, PartialEq, Eq, Structural)]
pub enum SocketOption {
    Ipv4Pktinfo,
    Ipv4MinTtl(u8),
    Ipv6Pktinfo,
    Ipv6MinHopcount(u8),
    /// Precedence of internetwork control.
    Ipv4TosInternetControl,
    Ipv4Ttl(u8),
    Ipv6TclassInternetControl,
    Ipv6UnicastHops(u8),
}

/// The options of an Rx socket, in order. Since the same Rx socket is used for
/// all multihop sessions, incoming TTL checking should be done in the userspace
/// given that different peers might have different TTL settings.
pub fn rx_socket_options(path_type: PathType, af: AddressFamily) -> (r: Vec<SocketOption>)
    ensures
        r@ == (match (path_type, af) {
            (PathType::IpSingleHop, AddressFamily::Ipv4) => seq![
                SocketOption::Ipv4Pktinfo,
                SocketOption::Ipv4MinTtl(TTL_MAX),
            ],
            (PathType::IpSingleHop, AddressFamily::Ipv6) => seq![
                SocketOption::Ipv6Pktinfo,
                SocketOption::Ipv6MinHopcount(TTL_MAX),
            ],
            (PathType::IpMultihop, AddressFamily::Ipv4) => seq![SocketOption::Ipv4Pktinfo],
            (PathType::IpMultihop, AddressFamily::Ipv6) => seq![SocketOption::Ipv6Pktinfo],
        }),
{
    let mut r: Vec<SocketOption> = Vec::new();
    match af {
        AddressFamily::Ipv4 => {
            r.push(SocketOption::Ipv4Pktinfo);
            if let PathType::IpSingleHop = path_type {
                r.push(SocketOption::Ipv4MinTtl(TTL_MAX));
            }
        },
        AddressFamily::Ipv6 => {
            r.push(SocketOption::Ipv6Pktinfo);
            if let PathType::IpSingleHop = path_type {
                r.push(SocketOption::Ipv6MinHopcount(TTL_MAX));
            }
        },
    }
    r
}

/// The options of a Tx socket, in order.
pub fn tx_socket_options(af: AddressFamily, ttl: u8) -> (r: Vec<SocketOption>)
    ensures
        r@ == (match af {
            AddressFamily::Ipv4 => seq![SocketOption::Ipv4TosInternetControl, SocketOption::Ipv4Ttl(ttl)],
            AddressFamily::Ipv6 => seq![SocketOption::Ipv6TclassInternetControl, SocketOption::Ipv6UnicastHops(ttl)],
        }),
{
    let mut r: Vec<SocketOption> = Vec::new();
    match af {
        AddressFamily::Ipv4 => {
            r.push(SocketOption::Ipv4TosInternetControl);
            r.push(SocketOption::Ipv4Ttl(ttl));
        },
        AddressFamily::Ipv6 => {
            r.push(SocketOption::Ipv6TclassInternetControl);
            r.push(SocketOption::Ipv6UnicastHops(ttl));
        },
    }
    r
}

/// How an attempt to bind a Tx socket ended.
#[derive(Clone, Copy, Debug, PartialEq, Eq, Structural)]
pub enum BindOutcome {
    Bound,
    AddrInUse,
    Failed,
}

/// What follows an attempt to bind a Tx socket.
#[derive(Clone, Copy, Debug, PartialEq, Eq, Structural)]
pub enum BindStep {
    /// The socket is bound.
    Done,
    /// The next port is to be tried.
    Try(u16),
    /// No port of the range is free.
    Exhausted,
    /// The error is final.
    Fail,
}

/// What follows an attempt to bind a Tx socket on a port: the first free port of
/// the range is taken.
pub open spec fn bind_step_after(port: u16, outcome: BindOutcome) -> BindStep {
    match outcome {
        BindOutcome::Bound => BindStep::Done,
        BindOutcome::AddrInUse => if port < PORT_SRC_LAST {
            BindStep::Try((port + 1) as u16)
        } else {
            BindStep::Exhausted
        },
        BindOutcome::Failed => BindStep::Fail,
    }
}

pub fn bind_step(port: u16, outcome: BindOutcome) -> (r: BindStep)
    ensures
        r == bind_step_after(port, outcome),
{
    match outcome {
        BindOutcome::Bound => BindStep::Done,
        BindOutcome::AddrInUse => {
            if port < PORT_SRC_LAST {
                BindStep::Try(port + 1)
            } else {
                BindStep::Exhausted
            }
        },
        BindOutcome::Failed => BindStep::Fail,
    }
}

/// The error when no source port is free.
pub fn no_free_port(addr: &String, error: &String) -> (r: String)
    ensures
        r@ == "no free BFD source port for "@ + addr@ + " in "@ + decimal(PORT_SRC_FIRST as nat) + "-"@ + decimal(
            PORT_SRC_LAST as nat,
        ) + ": "@ + error@,
{
    let mut r = join("no free BFD source port for ", addr.as_str());
    r.append(" in ");
    push_decimal(&mut r, PORT_SRC_FIRST as u64);
    r.append("-");
    push_decimal(&mut r, PORT_SRC_LAST as u64);
    r.append(": ");
    r.append(error.as_str());
    r
}

// ===== received packets =====

/// A control message that came with a packet.
#[derive(Clone, Copy, Debug, PartialEq, Eq, Structural)]
pub enum ControlMessage {
    Ipv4PacketInfo(Ipv4Addr),
    Ipv6PacketInfo(Ipv6Addr),
    Other,
}

/// The destination that control messages give: that of the first one that has
/// one.
pub open spec fn destination(cmsgs: Seq<ControlMessage>) -> Option<IpAddr>
    decreases cmsgs.len(),
{
    if cmsgs.len() == 0 {
        None
    } else {
        match cmsgs[0] {
            ControlMessage::Ipv4PacketInfo(addr) => Some(IpAddr::V4(addr)),
            ControlMessage::Ipv6PacketInfo(addr) => Some(IpAddr::V6(addr)),
            ControlMessage::Other => destination(cmsgs.skip(1)),
        }
    }
}

pub fn get_packet_dst(cmsgs: &Vec<ControlMessage>) -> (r: Option<IpAddr>)
    ensures
        r == destination(cmsgs@),
{
    let mut i: usize = 0;
    assert(cmsgs@.skip(0) =~= cmsgs@);
    while i < cmsgs.len()
        invariant
            i <= cmsgs@.len(),
            destination(cmsgs@) == destination(cmsgs@.skip(i as int)),
        decreases cmsgs@.len() - i,
    {
        assert(cmsgs@.skip(i as int)[0] == cmsgs@[i as int]);
        assert(cmsgs@.skip(i as int).skip(1) =~= cmsgs@.skip(i + 1));
        match cmsgs[i] {
            ControlMessage::Ipv4PacketInfo(addr) => {
                return Some(IpAddr::V4(addr));
            },
            ControlMessage::Ipv6PacketInfo(addr) => {
                return Some(IpAddr::V6(addr));
            },
            ControlMessage::Other => {},
        }
        i = i + 1;
    }
    None
}

/// What is done about a received packet.
pub enum RxStep {
    /// Logs the error and stops receiving.
    Stop(IoError),
    /// Logs the error and waits for the next packet.
    Reject(Error),
    /// Waits for the next packet.
    Skip,
    /// Hands the packet on.
    Deliver(PacketInfo),
}

/// What a receive operation gave, when it gave a packet.
#[derive(Clone, Copy, Debug, PartialEq, Eq, Structural)]
pub struct Received {
    pub src: Option<SocketAddr>,
    pub dst: Option<IpAddr>,
    /// Whether the source address is one that packets can come from.
    pub src_usable: bool,
    /// Whether the packet could be decoded.
    pub decoded: bool,
}

/// The ancillary data of a packet. The TTL is taken to be the largest one.
pub open spec fn packet_info(path_type: PathType, src: SocketAddr, dst: IpAddr) -> PacketInfo {
    match path_type {
        PathType::IpSingleHop => PacketInfo::IpSingleHop { src },
        PathType::IpMultihop => PacketInfo::IpMultihop { src: src.ip, dst, ttl: TTL_MAX },
    }
}

/// Decides what is done about a received packet. Addresses are a must, packets
/// from unusable sources are reported, and malformed ones dropped.
pub fn rx_step(path_type: PathType, received: Received) -> (r: RxStep)
    ensures
        r == (match (received.src, received.dst) {
            (None, _) => RxStep::Stop(IoError::UdpRecvMissingSourceAddr),
            (Some(_), None) => RxStep::Stop(IoError::UdpRecvMissingAncillaryData),
            (Some(src), Some(dst)) => if !received.src_usable {
                RxStep::Reject(Error::UdpInvalidSourceAddr(src.ip))
            } else if !received.decoded {
                RxStep::Skip
            } else {
                RxStep::Deliver(packet_info(path_type, src, dst))
            },
        }),
{
    let src = match received.src {
        Some(src) => src,
        None => {
            return RxStep::Stop(IoError::UdpRecvMissingSourceAddr);
        },
    };
    let dst = match received.dst {
        Some(dst) => dst,
        None => {
            return RxStep::Stop(IoError::UdpRecvMissingAncillaryData);
        },
    };

    // Validate packet's source address.
    if !received.src_usable {
        return RxStep::Reject(Error::UdpInvalidSourceAddr(src.ip));
    }

    // Discard malformed packets.
    if !received.decoded {
        return RxStep::Skip;
    }

    // Notify the BFD main task about the received packet.
    let packet_info = match path_type {
        PathType::IpSingleHop => PacketInfo::IpSingleHop { src },
        PathType::IpMultihop => PacketInfo::IpMultihop { src: src.ip, dst, ttl: TTL_MAX },
    };
    RxStep::Deliver(packet_info)
}

/// Decides what is done about a failed receive operation: it is tried again
/// silently if it was interrupted.
pub fn rx_error_step(interrupted: bool, error: SystemError) -> (r: RxStep)
    ensures
        r == (if interrupted {
            RxStep::Skip
        } else {
            RxStep::Reject(Error::IoError(IoError::UdpRecvError(error)))
        }),
{
    // Retry if the syscall was interrupted.
    if interrupted {
        RxStep::Skip
    } else {
        RxStep::Reject(Error::IoError(IoError::UdpRecvError(error)))
    }
}

// ===== holders of ports =====

/// The file that lists the UDP sockets of an address family.
pub fn udp_table(sockaddr: &SocketAddr) -> (r: String)
    ensures
        r@ == (if sockaddr.ip is V4 {
            "/proc/net/udp"@
        } else {
            "/proc/net/udp6"@
        }),
{
    match sockaddr.ip {
        IpAddr::V4(_) => owned("/proc/net/udp"),
        IpAddr::V6(_) => owned("/proc/net/udp6"),
    }
}

/// The description of a process, e.g. "bfdd pid 1234".
pub fn holder_text(comm: &String, pid: u32) -> (r: String)
    ensures
        r@ == comm@ + " pid "@ + decimal(pid as nat),
{
    let mut r = join(comm.as_str(), " pid ");
    push_decimal(&mut r, pid as u64);
    r
}

/// The name of the file descriptors of a socket.
pub fn socket_link(inode: u64) -> (r: String)
    ensures
        r@ == "socket:["@ + decimal(inode as nat) + "]"@,
{
    let mut r = owned("socket:[");
    push_decimal(&mut r, inode);
    r.append("]");
    r
}

/// Whether a character is white space.
pub open spec fn is_space(c: char) -> bool {
    let n = c as u32;
    ||| 9 <= n <= 13
    ||| n == 0x20
    ||| n == 0x85
    ||| n == 0xa0
    ||| n == 0x1680
    ||| 0x2000 <= n <= 0x200a
    ||| n == 0x2028
    ||| n == 0x2029
    ||| n == 0x202f
    ||| n == 0x205f
    ||| n == 0x3000
}

fn space(c: char) -> (b: bool)
    ensures
        b == is_space(c),
{
    let n: u32 = c as u32;
    (9 <= n && n <= 13) || n == 0x20 || n == 0x85 || n == 0xa0 || n == 0x1680 || (0x2000 <= n && n <= 0x200a) || n
        == 0x2028 || n == 0x2029 || n == 0x202f || n == 0x205f || n == 0x3000
}

/// The value of a digit.
pub open spec fn digit_value(c: char, radix: nat) -> Option<nat> {
    let n = c as u32;
    let d: nat = if 0x30 <= n <= 0x39 {
        (n - 0x30) as nat
    } else if 0x61 <= n <= 0x7a {
        (n - 0x61 + 10) as nat
    } else if 0x41 <= n <= 0x5a {
        (n - 0x41 + 10) as nat
    } else {
        radix
    };
    if d < radix {
        Some(d)
    } else {
        None
    }
}

fn to_digit(c: char, radix: u128) -> (r: Option<u128>)
    requires
        radix <= 36,
    ensures
        match r {
            Some(d) => digit_value(c, radix as nat) == Some(d as nat) && d < radix,
            None => digit_value(c, radix as nat) is None,
        },
{
    let n: u32 = c as u32;
    let d: u128 = if 0x30 <= n && n <= 0x39 {
        (n - 0x30) as u128
    } else if 0x61 <= n && n <= 0x7a {
        (n - 0x61 + 10) as u128
    } else if 0x41 <= n && n <= 0x5a {
        (n - 0x41 + 10) as u128
    } else {
        radix
    };
    if d < radix {
        Some(d)
    } else {
        None
    }
}

/// The number that digits stand for, if that is all there is.
pub open spec fn digits_value(s: Seq<char>, radix: nat) -> Option<nat>
    decreases s.len(),
{
    if s.len() == 0 {
        Some(0)
    } else {
        match (digits_value(s.drop_last(), radix), digit_value(s.last(), radix)) {
            (Some(n), Some(d)) => Some(n * radix + d),
            _ => None,
        }
    }
}

/// The digits of a number, without its sign.
pub open spec fn unsigned_part(s: Seq<char>) -> Seq<char> {
    if s.len() > 1 && s[0] == '+' {
        s.skip(1)
    } else {
        s
    }
}

/// The number that a text stands for, if it is not larger than the limit.
pub open spec fn number(s: Seq<char>, radix: nat, max: nat) -> Option<nat> {
    if s.len() == 0 {
        None
    } else {
        match digits_value(unsigned_part(s), radix) {
            Some(n) => if n <= max {
                Some(n)
            } else {
                None
            },
            None => None,
        }
    }
}

proof fn digits_grow(s: Seq<char>, i: int, radix: nat)
    requires
        0 <= i <= s.len(),
        radix >= 1,
    ensures
        digits_value(s, radix) is Some ==> digits_value(s.take(i), radix) is Some,
        digits_value(s, radix) matches Some(n) ==> digits_value(s.take(i), radix)->0 <= n,
    decreases s.len() - i,
{
    if i < s.len() {
        digits_grow(s, i + 1, radix);
        assert(s.take(i + 1).drop_last() =~= s.take(i));
        if digits_value(s.take(i + 1), radix) is Some {
            let m = digits_value(s.take(i), radix)->0;
            assert(m <= m * radix) by (nonlinear_arith)
                requires
                    radix >= 1,
            ;
        }
    } else {
        assert(s.take(i) =~= s);
    }
}

fn parse_number(s: &Vec<char>, from: usize, radix: u128, max: u128) -> (r: Option<u128>)
    requires
        from <= s@.len(),
        2 <= radix <= 36,
        max <= u64::MAX,
    ensures
        match r {
            Some(n) => number(s@.skip(from as int), radix as nat, max as nat) == Some(n as nat),
            None => number(s@.skip(from as int), radix as nat, max as nat) is None,
        },
{
    let ghost t = s@.skip(from as int);
    if from == s.len() {
        return None;
    }
    let mut i: usize = from;
    if s.len() - from > 1 && s[from] == '+' {
        i = from + 1;
    }
    let ghost u = unsigned_part(t);
    let ghost start = i as int;
    assert(u =~= s@.skip(start));
    let mut n: u128 = 0;
    assert(u.take(0) =~= Seq::empty());
    while i < s.len()
        invariant
            0 <= start <= i <= s@.len(),
            u == s@.skip(start),
            2 <= radix <= 36,
            max <= u64::MAX,
            n <= max,
            digits_value(u.take(i - start), radix as nat) == Some(n as nat),
            t == s@.skip(from as int),
            t.len() > 0,
            u == unsigned_part(t),
        decreases s@.len() - i,
    {
        let ghost j = i - start;
        proof {
            assert(u.take(j + 1).drop_last() =~= u.take(j));
            assert(u.take(j + 1).last() == s@[i as int]);
            digits_grow(u, j + 1, radix as nat);
        }
        let d: u128 = match to_digit(s[i], radix) {
            Some(d) => d,
            None => {
                return None;
            },
        };
        assert(n * radix <= u64::MAX * 36) by (nonlinear_arith)
            requires
                n <= u64::MAX,
                radix <= 36,
        ;
        n = n * radix + d;
        if n > max {
            return None;
        }
        i = i + 1;
    }
    assert(u.take(i - start) =~= u);
    Some(n)
}

/// The lines of a text.
pub open spec fn text_lines(s: Seq<char>) -> Seq<Seq<char>>
    decreases s.len(),
{
    if s.len() == 0 {
        seq![Seq::empty()]
    } else {
        let r = text_lines(s.drop_last());
        if s.last() == '\n' {
            r.push(Seq::empty())
        } else {
            r.drop_last().push(r.last().push(s.last()))
        }
    }
}

/// The words that are complete, and the one that is not, if it has begun.
pub open spec fn words_so_far(s: Seq<char>) -> (Seq<Seq<char>>, Seq<char>)
    decreases s.len(),
{
    if s.len() == 0 {
        (Seq::empty(), Seq::empty())
    } else {
        let r = words_so_far(s.drop_last());
        if is_space(s.last()) {
            if r.1.len() == 0 {
                r
            } else {
                (r.0.push(r.1), Seq::empty())
            }
        } else {
            (r.0, r.1.push(s.last()))
        }
    }
}

/// The words of a line.
pub open spec fn words(s: Seq<char>) -> Seq<Seq<char>> {
    let r = words_so_far(s);
    if r.1.len() == 0 {
        r.0
    } else {
        r.0.push(r.1)
    }
}

/// What follows the last colon.
pub open spec fn after_colon(s: Seq<char>) -> Option<Seq<char>>
    decreases s.len(),
{
    if s.len() == 0 {
        None
    } else if s.last() == ':' {
        Some(Seq::empty())
    } else {
        match after_colon(s.drop_last()) {
            Some(r) => Some(r.push(s.last())),
            None => None,
        }
    }
}

/// The inode of a socket, if the line is about one that is bound to the port.
/// The second word ends in the port and the tenth one is the inode.
pub open spec fn line_inode(line: Seq<char>, port: u16) -> Option<u64> {
    let fields = words(line);
    if fields.len() < 10 {
        None
    } else {
        match after_colon(fields[1]) {
            Some(local_port) => if number(local_port, 16, u16::MAX as nat) == Some(port as nat) {
                match number(fields[9], 10, u64::MAX as nat) {
                    Some(inode) => Some(inode as u64),
                    None => None,
                }
            } else {
                None
            },
            None => None,
        }
    }
}

/// The inode that the first line gives that gives one.
pub open spec fn first_inode(lines: Seq<Seq<char>>, port: u16) -> Option<u64>
    decreases lines.len(),
{
    if lines.len() == 0 {
        None
    } else {
        match line_inode(lines[0], port) {
            Some(inode) => Some(inode),
            None => first_inode(lines.skip(1), port),
        }
    }
}

pub open spec fn texts(s: Seq<Vec<char>>) -> Seq<Seq<char>> {
    Seq::new(s.len(), |j: int| s[j]@)
}

proof fn lines_exist(s: Seq<char>)
    ensures
        text_lines(s).len() >= 1,
    decreases s.len(),
{
    if s.len() > 0 {
        lines_exist(s.drop_last());
    }
}

fn split_lines(s: &Vec<char>) -> (r: Vec<Vec<char>>)
    ensures
        texts(r@) == text_lines(s@),
{
    let mut r: Vec<Vec<char>> = Vec::new();
    let mut cur: Vec<char> = Vec::new();
    let mut i: usize = 0;
    assert(s@.take(0) =~= Seq::empty());
    assert(texts(r@).push(cur@) =~= text_lines(s@.take(0)));
    while i < s.len()
        invariant
            i <= s@.len(),
            texts(r@).push(cur@) == text_lines(s@.take(i as int)),
        decreases s@.len() - i,
    {
        let ghost before = text_lines(s@.take(i as int));
        proof {
            assert(s@.take(i + 1).drop_last() =~= s@.take(i as int));
            assert(before.drop_last() =~= texts(r@));
            assert(before.last() == cur@);
        }
        let c: char = s[i];
        if c == '\n' {
            let ghost r0 = r@;
            let ghost c0 = cur@;
            r.push(cur);
            cur = Vec::new();
            assert(texts(r@) =~= texts(r0).push(c0));
        } else {
            cur.push(c);
        }
        i = i + 1;
        assert(texts(r@).push(cur@) =~= text_lines(s@.take(i as int)));
    }
    assert(s@.take(i as int) =~= s@);
    let ghost r0 = r@;
    let ghost c0 = cur@;
    r.push(cur);
    assert(texts(r@) =~= texts(r0).push(c0));
    r
}

fn split_words(s: &Vec<char>) -> (r: Vec<Vec<char>>)
    ensures
        texts(r@) == words(s@),
{
    let mut r: Vec<Vec<char>> = Vec::new();
    let mut cur: Vec<char> = Vec::new();
    let mut i: usize = 0;
    assert(s@.take(0) =~= Seq::empty());
    assert(texts(r@) =~= Seq::empty());
    while i < s.len()
        invariant
            i <= s@.len(),
            texts(r@) == words_so_far(s@.take(i as int)).0,
            cur@ == words_so_far(s@.take(i as int)).1,
        decreases s@.len() - i,
    {
        proof {
            assert(s@.take(i + 1).drop_last() =~= s@.take(i as int));
        }
        let c: char = s[i];
        if space(c) {
            if cur.len() > 0 {
                let ghost r0 = r@;
                let ghost c0 = cur@;
                r.push(cur);
                cur = Vec::new();
                assert(texts(r@) =~= texts(r0).push(c0));
            }
        } else {
            cur.push(c);
        }
        i = i + 1;
        assert(cur@ =~= words_so_far(s@.take(i as int)).1);
    }
    assert(s@.take(i as int) =~= s@);
    if cur.len() > 0 {
        let ghost r0 = r@;
        let ghost c0 = cur@;
        r.push(cur);
        assert(texts(r@) =~= texts(r0).push(c0));
    }
    r
}

proof fn colon_position(s: Seq<char>, k: int)
    requires
        0 <= k < s.len(),
        s[k] == ':',
        forall|x: int| k < x < s.len() ==> s[x] != ':',
    ensures
        after_colon(s) == Some(s.skip(k + 1)),
    decreases s.len(),
{
    if k == s.len() - 1 {
        assert(s.skip(k + 1) =~= Seq::empty());
    } else {
        colon_position(s.drop_last(), k);
        assert(s.drop_last().skip(k + 1).push(s.last()) =~= s.skip(k + 1));
    }
}

proof fn no_colon(s: Seq<char>)
    requires
        forall|x: int| 0 <= x < s.len() ==> s[x] != ':',
    ensures
        after_colon(s) is None,
    decreases s.len(),
{
    if s.len() > 0 {
        no_colon(s.drop_last());
    }
}

fn last_colon(s: &Vec<char>) -> (r: Option<usize>)
    ensures
        match r {
            Some(from) => from <= s@.len() && after_colon(s@) == Some(s@.skip(from as int)),
            None => after_colon(s@) is None,
        },
{
    let mut i: usize = s.len();
    while i > 0
        invariant
            i <= s@.len(),
            forall|x: int| i <= x < s@.len() ==> s@[x] != ':',
        decreases i,
    {
        i = i - 1;
        if s[i] == ':' {
            proof {
                colon_position(s@, i as int);
            }
            return Some(i + 1);
        }
    }
    proof {
        no_colon(s@);
    }
    None
}

fn parse_line(line: &Vec<char>, port: u16) -> (r: Option<u64>)
    ensures
        r == line_inode(line@, port),
{
    // sl local_address rem_address st tx_rx tr_when retrnsmt uid timeout
    // inode ...
    let fields = split_words(line);
    assert(texts(fields@).len() == fields@.len());
    if fields.len() < 10 {
        return None;
    }
    assert(texts(fields@)[1] == fields@[1]@ && texts(fields@)[9] == fields@[9]@);
    let local = &fields[1];
    let from: usize = match last_colon(local) {
        Some(from) => from,
        None => {
            return None;
        },
    };
    let matches_port = match parse_number(local, from, 16, 0xffff) {
        Some(n) => n == port as u128,
        None => false,
    };
    if !matches_port {
        return None;
    }
    let inode = &fields[9];
    assert(inode@.skip(0) =~= inode@);
    match parse_number(inode, 0, 10, 0xffff_ffff_ffff_ffff) {
        Some(n) => Some(n as u64),
        None => None,
    }
}

fn socket_inode(contents: &Vec<char>, port: u16) -> (r: Option<u64>)
    ensures
        r == first_inode(text_lines(contents@).skip(1), port),
{
    let lines = split_lines(contents);
    let ghost all = text_lines(contents@);
    proof {
        lines_exist(contents@);
        assert(lines@.len() == all.len());
    }
    let mut i: usize = 1;
    while i < lines.len()
        invariant
            1 <= i <= lines@.len(),
            all == texts(lines@),
            all == text_lines(contents@),
            first_inode(all.skip(1), port) == first_inode(all.skip(i as int), port),
        decreases lines@.len() - i,
    {
        assert(all.skip(i as int)[0] == lines@[i as int]@);
        assert(all.skip(i as int).skip(1) =~= all.skip(i + 1));
        if let Some(inode) = parse_line(&lines[i], port) {
            return Some(inode);
        }
        i = i + 1;
    }
    None
}

/// Returns the inode of the first UDP socket bound to `port`, given the contents
/// of the table of UDP sockets, if they could be read. The first line is a
/// heading.
pub fn udp_socket_inode(contents: &Option<Vec<char>>, port: u16) -> (r: Option<u64>)
    ensures
        r == match *contents {
            Some(contents) => first_inode(text_lines(contents@).skip(1), port),
            None => None,
        },
{
    match contents {
        Some(contents) => socket_inode(contents, port),
        None => None,
    }
}

// ===== laws =====

/// Ports that are in use are passed over one by one, until the last one of the
/// range.
pub proof fn ports_are_tried_in_order(port: u16)
    requires
        PORT_SRC_FIRST <= port <= PORT_SRC_LAST,
    ensures
        match bind_step_after(port, BindOutcome::AddrInUse) {
            BindStep::Try(next) => next == port + 1 && PORT_SRC_FIRST <= next <= PORT_SRC_LAST,
            BindStep::Exhausted => port == PORT_SRC_LAST,
            _ => false,
        },
{
}

/// A table without lines about sockets gives no inode.
pub proof fn garbage_gives_nothing(lines: Seq<Seq<char>>, port: u16)
    requires
        forall|j: int| 0 <= j < lines.len() ==> words(#[trigger] lines[j]).len() < 10,
    ensures
        first_inode(lines, port) is None,
    decreases lines.len(),
{
    if lines.len() > 0 {
        assert(words(lines[0]).len() < 10);
        assert forall|j: int| 0 <= j < lines.skip(1).len() implies words(#[trigger] lines.skip(1)[j]).len() < 10 by {
            assert(lines.skip(1)[j] == lines[j + 1]);
        }
        garbage_gives_nothing(lines.skip(1), port);
    }
}

} // verus!
