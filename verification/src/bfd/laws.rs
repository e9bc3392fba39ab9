//! What BFD promises: which session a change is about and what it does to it, which
//! ports and addresses are used, and how the socket of a port is found.

use vstd::prelude::*;

use crate::bfd::client::{SessionKeyView, State};
use crate::bfd::configuration::{
    event_action, first_session, mh_entry_changed, mh_session_changed, session_with, sh_entry_changed,
    sh_session_changed, Action, Defaults, DiagnosticCode, Event, IpMhSessionGroupChange, IpMhSessionGroupEntryChange,
    IpShSessionChange, IpShSessionEntryChange, MasterView, SessionCfg, SessionIndex, SessionView,
};
use crate::bfd::error::{bind_reason, with_sources, DetailView, Error, IoError, SystemError};
use crate::bfd::network::{
    after_colon, bind_step_after, destination, digit_value, digits_value, first_inode, is_space, line_inode, number,
    packet_info, text_lines, wildcard, words, words_so_far, BfdSocketPolicy, BindOutcome, BindStep, ControlMessage,
    PacketInfo, PathType,
};
use crate::collections::{lex_lt, Key};
use crate::ip::{AddressFamily, IpAddr, Ipv4Addr, Ipv6Addr, SocketAddr};

verus! {

// ===== sessions =====

/// A session is found by its key: the one with the lowest index that has it.
pub proof fn sessions_are_found_by_key(sessions: Map<SessionIndex, SessionView>, key: SessionKeyView, k: SessionIndex)
    ensures
        sessions.contains_key(k) && sessions[k].key == key ==> session_with(sessions, key) is Some && session_with(
            sessions,
            key,
        )->0 <= k,
        session_with(sessions, key) matches Some(j) ==> sessions.contains_key(j) && sessions[j].key == key,
{
    if sessions.contains_key(k) && sessions[k].key == key {
        some_session_is_first(sessions, key, k);
        let j = session_with(sessions, key)->0;
        assert(first_session(sessions, key, j));
    }
    if let Some(j) = session_with(sessions, key) {
        assert(first_session(sessions, key, j));
    }
}

proof fn some_session_is_first(sessions: Map<SessionIndex, SessionView>, key: SessionKeyView, k: SessionIndex)
    requires
        sessions.contains_key(k),
        sessions[k].key == key,
    ensures
        exists|j: SessionIndex| first_session(sessions, key, j),
    decreases k,
{
    if !first_session(sessions, key, k) {
        let j = choose|j: SessionIndex| #[trigger] sessions.contains_key(j) && j < k && sessions[j].key == key;
        some_session_is_first(sessions, key, j);
    }
}

/// The configuration of a session starts out with the defaults of the schema, and
/// without addresses or limits of its own.
pub proof fn sessions_start_out_with_defaults(d: Defaults)
    ensures
        SessionCfg::initial(d).local_multiplier == d.local_multiplier,
        SessionCfg::initial(d).min_tx == d.min_tx,
        SessionCfg::initial(d).min_rx == d.min_rx,
        SessionCfg::initial(d).admin_down == d.admin_down,
        SessionCfg::initial(d).src is None,
        SessionCfg::initial(d).tx_ttl is None,
        SessionCfg::initial(d).rx_ttl is None,
{
}

/// Creating a single-hop session makes it configured, on the ifindex of its interface
/// if that is there. A new one gets the next index and the defaults. Sockets and
/// transmission are to follow, and no other session changes.
pub proof fn created_single_hop_sessions_are_configured(
    m: MasterView,
    q: Set<Event>,
    ifname: Seq<char>,
    dst: IpAddr,
    other: SessionIndex,
)
    requires
        m.next_index < SessionIndex::MAX,
    ensures
        ({
            let key = SessionKeyView::IpSingleHop { ifname, dst };
            let r = sh_session_changed(m, q, ifname, dst, IpShSessionChange::Create);
            let (n, p) = r->0;
            let k = match session_with(m.sessions, key) {
                Some(k) => k,
                None => m.next_index,
            };
            let s = n.sessions[k];
            &&& r is Some
            &&& n.sessions.contains_key(k) && s.config_enabled
            &&& m.interfaces.contains_key(ifname) ==> s.ifindex == Some(m.interfaces[ifname])
            &&& session_with(m.sessions, key) is None ==> {
                &&& s.key == key && s.config == SessionCfg::initial(m.defaults) && s.sockaddr is None
                &&& !m.interfaces.contains_key(ifname) ==> s.ifindex is None
                &&& n.next_index == m.next_index + 1
            }
            &&& session_with(m.sessions, key) is Some ==> {
                &&& s.key == m.sessions[k].key && s.config == m.sessions[k].config && s.sockaddr
                    == m.sessions[k].sockaddr
                &&& n.next_index == m.next_index
            }
            &&& p == q.insert(Event::UpdateTxSocket(k)).insert(Event::UpdateTxInterval(k)).insert(
                Event::UpdateRxSockets,
            )
            &&& other != k ==> n.sessions.contains_key(other) == m.sessions.contains_key(other) && n.sessions[other]
                == m.sessions[other]
            &&& n.interfaces == m.interfaces && n.defaults == m.defaults
        }),
{
}

/// Creating a multihop session makes it configured, with both limits on hops at 255
/// and packets going to port 4784 of its destination.
pub proof fn created_multihop_sessions_are_configured(
    m: MasterView,
    q: Set<Event>,
    src: IpAddr,
    dst: IpAddr,
    other: SessionIndex,
)
    requires
        m.next_index < SessionIndex::MAX,
    ensures
        ({
            let key = SessionKeyView::IpMultihop { src, dst };
            let r = mh_session_changed(m, q, src, dst, IpMhSessionGroupChange::Create);
            let (n, p) = r->0;
            let k = match session_with(m.sessions, key) {
                Some(k) => k,
                None => m.next_index,
            };
            let s = n.sessions[k];
            &&& r is Some
            &&& n.sessions.contains_key(k) && s.config_enabled
            &&& s.config.tx_ttl == Some(255u8) && s.config.rx_ttl == Some(255u8)
            &&& s.sockaddr == Some(SocketAddr { ip: dst, port: 4784 })
            &&& session_with(m.sessions, key) is None ==> {
                &&& s.key == key && s.config.min_tx == m.defaults.min_tx && s.config.min_rx == m.defaults.min_rx
                &&& s.config.local_multiplier == m.defaults.local_multiplier
                &&& s.config.admin_down == m.defaults.admin_down
                &&& n.next_index == m.next_index + 1
            }
            &&& session_with(m.sessions, key) is Some ==> {
                &&& s.key == m.sessions[k].key && s.config.min_tx == m.sessions[k].config.min_tx
                &&& s.config.min_rx == m.sessions[k].config.min_rx
                &&& n.next_index == m.next_index
            }
            &&& p == q.insert(Event::UpdateTxSocket(k)).insert(Event::UpdateTxInterval(k)).insert(
                Event::UpdateRxSockets,
            )
            &&& other != k ==> n.sessions.contains_key(other) == m.sessions.contains_key(other) && n.sessions[other]
                == m.sessions[other]
        }),
{
    let key = SessionKeyView::IpMultihop { src, dst };
    let k = match session_with(m.sessions, key) {
        Some(k) => k,
        None => m.next_index,
    };
    let p = (mh_session_changed(m, q, src, dst, IpMhSessionGroupChange::Create)->0).1;
    assert(p =~= q.insert(Event::UpdateTxSocket(k)).insert(Event::UpdateTxInterval(k)).insert(Event::UpdateRxSockets));
}

/// Deleting a session takes it out of the configuration and asks whether anyone still
/// needs it. A session that is not there cannot be deleted or changed.
pub proof fn deleted_sessions_are_unconfigured(
    m: MasterView,
    q: Set<Event>,
    ifname: Seq<char>,
    src: IpAddr,
    dst: IpAddr,
    change: IpShSessionEntryChange,
    mh_change: IpMhSessionGroupEntryChange,
    other: SessionIndex,
)
    ensures
        ({
            let r = sh_session_changed(m, q, ifname, dst, IpShSessionChange::Delete);
            match session_with(m.sessions, SessionKeyView::IpSingleHop { ifname, dst }) {
                Some(k) => {
                    let (n, p) = r->0;
                    &&& r is Some
                    &&& n.sessions[k] == (SessionView { config_enabled: false, ..m.sessions[k] })
                    &&& p == q.insert(Event::SessionDeleteCheck(k)).insert(Event::UpdateRxSockets)
                    &&& other != k ==> n.sessions[other] == m.sessions[other]
                },
                None => r is None && sh_session_changed(m, q, ifname, dst, IpShSessionChange::Entry(change)) is None,
            }
        }),
        ({
            let r = mh_session_changed(m, q, src, dst, IpMhSessionGroupChange::Delete);
            match session_with(m.sessions, SessionKeyView::IpMultihop { src, dst }) {
                Some(k) => {
                    let (n, p) = r->0;
                    &&& r is Some
                    &&& n.sessions[k] == (SessionView { config_enabled: false, ..m.sessions[k] })
                    &&& p == q.insert(Event::SessionDeleteCheck(k)).insert(Event::UpdateRxSockets)
                    &&& other != k ==> n.sessions[other] == m.sessions[other]
                },
                None => r is None && mh_session_changed(m, q, src, dst, IpMhSessionGroupChange::Entry(mh_change))
                    is None,
            }
        }),
{
}

/// A change within a session concerns the configuration of the session with that key
/// and nothing else.
pub proof fn changes_concern_their_session(
    m: MasterView,
    q: Set<Event>,
    ifname: Seq<char>,
    src: IpAddr,
    dst: IpAddr,
    change: IpShSessionEntryChange,
    mh_change: IpMhSessionGroupEntryChange,
    k: SessionIndex,
    other: SessionIndex,
)
    requires
        other != k,
    ensures
        session_with(m.sessions, SessionKeyView::IpSingleHop { ifname, dst }) == Some(k) ==> {
            let r = sh_session_changed(m, q, ifname, dst, IpShSessionChange::Entry(change));
            let (n, p) = r->0;
            &&& r is Some
            &&& (n.sessions[k].config, p) == sh_entry_changed(m.sessions[k].config, q, k, change)
            &&& n.sessions[k] == (SessionView { config: n.sessions[k].config, ..m.sessions[k] })
            &&& n.sessions[other] == m.sessions[other] && n.next_index == m.next_index
        },
        session_with(m.sessions, SessionKeyView::IpMultihop { src, dst }) == Some(k) ==> {
            let r = mh_session_changed(m, q, src, dst, IpMhSessionGroupChange::Entry(mh_change));
            let (n, p) = r->0;
            &&& r is Some
            &&& (n.sessions[k].config, p) == mh_entry_changed(m.sessions[k].config, q, k, mh_change)
            &&& n.sessions[k] == (SessionView { config: n.sessions[k].config, ..m.sessions[k] })
            &&& n.sessions[other] == m.sessions[other] && n.next_index == m.next_index
        },
{
}

/// Each leaf of a single-hop session takes the configured value, and no other one
/// changes. New intervals start a poll sequence, a new source address a new socket, and
/// a new administrative status is looked at.
pub proof fn single_hop_leaves_take_their_value(
    c: SessionCfg,
    q: Set<Event>,
    k: SessionIndex,
    src: Option<IpAddr>,
    mult: u8,
    n: u32,
    down: bool,
)
    ensures
        sh_entry_changed(c, q, k, IpShSessionEntryChange::SourceAddr(src)) == (
            SessionCfg { src, ..c },
            q.insert(Event::UpdateTxSocket(k)).insert(Event::UpdateTxInterval(k)),
        ),
        sh_entry_changed(c, q, k, IpShSessionEntryChange::LocalMultiplier(mult)) == (
            SessionCfg { local_multiplier: mult, ..c },
            q,
        ),
        sh_entry_changed(c, q, k, IpShSessionEntryChange::DesiredMinTxInterval(Some(n))) == (
            SessionCfg { min_tx: n, ..c },
            q.insert(Event::StartPollSequence(k)).insert(Event::UpdateTxInterval(k)),
        ),
        sh_entry_changed(c, q, k, IpShSessionEntryChange::RequiredMinRxInterval(Some(n))) == (
            SessionCfg { min_rx: n, ..c },
            q.insert(Event::StartPollSequence(k)).insert(Event::UpdateTxInterval(k)),
        ),
        sh_entry_changed(c, q, k, IpShSessionEntryChange::MinInterval(Some(n))) == (
            SessionCfg { min_tx: n, min_rx: n, ..c },
            q.insert(Event::StartPollSequence(k)).insert(Event::UpdateTxInterval(k)),
        ),
        sh_entry_changed(c, q, k, IpShSessionEntryChange::AdminDown(down)) == (
            SessionCfg { admin_down: down, ..c },
            q.insert(Event::AdminDownChange(k)),
        ),
        sh_entry_changed(c, q, k, IpShSessionEntryChange::DesiredMinTxInterval(None)) == (c, q),
        sh_entry_changed(c, q, k, IpShSessionEntryChange::RequiredMinRxInterval(None)) == (c, q),
        sh_entry_changed(c, q, k, IpShSessionEntryChange::MinInterval(None)) == (c, q),
{
}

/// Each leaf of a multihop session takes the configured value, and no other one
/// changes. New intervals start a poll sequence, a new limit on hops a new socket, and a
/// new administrative status is looked at.
pub proof fn multihop_leaves_take_their_value(
    c: SessionCfg,
    q: Set<Event>,
    k: SessionIndex,
    mult: u8,
    n: u32,
    ttl: u8,
    down: bool,
)
    ensures
        mh_entry_changed(c, q, k, IpMhSessionGroupEntryChange::LocalMultiplier(mult)) == (
            SessionCfg { local_multiplier: mult, ..c },
            q,
        ),
        mh_entry_changed(c, q, k, IpMhSessionGroupEntryChange::DesiredMinTxInterval(Some(n))) == (
            SessionCfg { min_tx: n, ..c },
            q.insert(Event::StartPollSequence(k)).insert(Event::UpdateTxInterval(k)),
        ),
        mh_entry_changed(c, q, k, IpMhSessionGroupEntryChange::RequiredMinRxInterval(Some(n))) == (
            SessionCfg { min_rx: n, ..c },
            q.insert(Event::StartPollSequence(k)).insert(Event::UpdateTxInterval(k)),
        ),
        mh_entry_changed(c, q, k, IpMhSessionGroupEntryChange::MinInterval(Some(n))) == (
            SessionCfg { min_tx: n, min_rx: n, ..c },
            q.insert(Event::StartPollSequence(k)).insert(Event::UpdateTxInterval(k)),
        ),
        mh_entry_changed(c, q, k, IpMhSessionGroupEntryChange::AdminDown(down)) == (
            SessionCfg { admin_down: down, ..c },
            q.insert(Event::AdminDownChange(k)),
        ),
        mh_entry_changed(c, q, k, IpMhSessionGroupEntryChange::TxTtl(ttl)) == (
            SessionCfg { tx_ttl: Some(ttl), ..c },
            q.insert(Event::UpdateTxSocket(k)).insert(Event::UpdateTxInterval(k)),
        ),
        mh_entry_changed(c, q, k, IpMhSessionGroupEntryChange::RxTtl(ttl)) == (
            SessionCfg { rx_ttl: Some(ttl), ..c },
            q,
        ),
        mh_entry_changed(c, q, k, IpMhSessionGroupEntryChange::DesiredMinTxInterval(None)) == (c, q),
        mh_entry_changed(c, q, k, IpMhSessionGroupEntryChange::RequiredMinRxInterval(None)) == (c, q),
        mh_entry_changed(c, q, k, IpMhSessionGroupEntryChange::MinInterval(None)) == (c, q),
{
}

/// A session that is administratively down goes to that state with that diagnostic;
/// one that no longer is goes down without one. Other events do what they name.
pub proof fn events_do_what_they_name(m: MasterView, k: SessionIndex)
    ensures
        m.sessions[k].config.admin_down ==> event_action(m, Event::AdminDownChange(k)) == Action::StateUpdate(
            k,
            State::AdminDown,
            DiagnosticCode::AdminDown,
        ),
        !m.sessions[k].config.admin_down ==> event_action(m, Event::AdminDownChange(k)) == Action::StateUpdate(
            k,
            State::Down,
            DiagnosticCode::Nothing,
        ),
        event_action(m, Event::SessionDeleteCheck(k)) == Action::DeleteCheck(k),
        event_action(m, Event::StartPollSequence(k)) == Action::PollSequenceStart(k),
        event_action(m, Event::UpdateRxSockets) == Action::RxTasksUpdate,
        event_action(m, Event::UpdateTxSocket(k)) == Action::TxSocketUpdate(k),
        event_action(m, Event::UpdateTxInterval(k)) == Action::TxIntervalUpdate(k),
{
}

/// Queued events are processed with deletions first, then status changes, poll
/// sequences, sockets to receive and to transmit, and transmission intervals last.
pub proof fn events_are_processed_by_kind(a: SessionIndex, b: SessionIndex)
    ensures
        lex_lt(Event::code(Event::SessionDeleteCheck(a)), Event::code(Event::AdminDownChange(b))),
        lex_lt(Event::code(Event::AdminDownChange(a)), Event::code(Event::StartPollSequence(b))),
        lex_lt(Event::code(Event::StartPollSequence(a)), Event::code(Event::UpdateRxSockets)),
        lex_lt(Event::code(Event::UpdateRxSockets), Event::code(Event::UpdateTxSocket(b))),
        lex_lt(Event::code(Event::UpdateTxSocket(a)), Event::code(Event::UpdateTxInterval(b))),
        a < b ==> lex_lt(Event::code(Event::UpdateTxInterval(a)), Event::code(Event::UpdateTxInterval(b))),
{
    if a < b {
        let x = Event::code(Event::UpdateTxInterval(a));
        let y = Event::code(Event::UpdateTxInterval(b));
        assert(x[0] == y[0]);
        reveal_with_fuel(lex_lt, 3);
        assert(x.skip(1)[0] == a as u128);
        assert(y.skip(1)[0] == b as u128);
    }
}

// ===== sockets =====

/// Single-hop packets come in on port 3784 and multihop packets on port 4784, at any
/// address of the family.
pub proof fn each_path_type_has_its_port(policy: BfdSocketPolicy)
    ensures
        BfdSocketPolicy::standard().port_of(PathType::IpSingleHop) == 3784,
        BfdSocketPolicy::standard().port_of(PathType::IpMultihop) == 4784,
        policy.port_of(PathType::IpSingleHop) == policy.single_hop_port,
        policy.port_of(PathType::IpMultihop) == policy.multihop_port,
        wildcard(AddressFamily::Ipv4) == IpAddr::V4(0),
        wildcard(AddressFamily::Ipv6) == IpAddr::V6(0),
{
}

/// A source port in use is passed over for the next one, up to 65535; any other failure
/// is final, and a bound socket is done.
pub proof fn source_ports_go_up_to_the_last(port: u16)
    ensures
        bind_step_after(port, BindOutcome::Bound) == BindStep::Done,
        bind_step_after(port, BindOutcome::Failed) == BindStep::Fail,
        port < 65535 ==> bind_step_after(port, BindOutcome::AddrInUse) is Try && bind_step_after(
            port,
            BindOutcome::AddrInUse,
        )->Try_0 == port + 1,
        port == 65535 ==> bind_step_after(port, BindOutcome::AddrInUse) == BindStep::Exhausted,
{
}

/// The destination of a packet is the address of the first control message that has
/// one, whichever family it is of.
pub proof fn first_packet_info_is_the_destination(cmsgs: Seq<ControlMessage>, i: int, a: Ipv4Addr, b: Ipv6Addr)
    requires
        0 <= i < cmsgs.len(),
        forall|j: int| 0 <= j < i ==> #[trigger] cmsgs[j] == ControlMessage::Other,
    ensures
        cmsgs[i] == ControlMessage::Ipv4PacketInfo(a) ==> destination(cmsgs) == Some(IpAddr::V4(a)),
        cmsgs[i] == ControlMessage::Ipv6PacketInfo(b) ==> destination(cmsgs) == Some(IpAddr::V6(b)),
        i == cmsgs.len() - 1 && cmsgs[i] == ControlMessage::Other ==> destination(cmsgs) is None,
        destination(Seq::empty()) is None,
    decreases i,
{
    if i > 0 {
        let rest = cmsgs.skip(1);
        assert(cmsgs[0] == ControlMessage::Other);
        assert forall|j: int| 0 <= j < i - 1 implies #[trigger] rest[j] == ControlMessage::Other by {
            assert(rest[j] == cmsgs[j + 1]);
        }
        first_packet_info_is_the_destination(rest, i - 1, a, b);
    } else {
        assert(cmsgs.len() == 1 ==> cmsgs.skip(1) =~= Seq::empty());
    }
}

/// A single-hop packet is known by where it came from, a multihop packet by both of its
/// addresses.
pub proof fn packets_are_known_by_their_addresses(src: SocketAddr, dst: IpAddr)
    ensures
        packet_info(PathType::IpSingleHop, src, dst) == (PacketInfo::IpSingleHop { src }),
        packet_info(PathType::IpMultihop, src, dst) == (PacketInfo::IpMultihop { src: src.ip, dst, ttl: 255 }),
{
}

// ===== the table of sockets =====

/// A digit stands for its number: 0 to 9, and in bases above ten the letters of either
/// case go on from there. No other character does.
pub proof fn digits_stand_for_numbers(c: char)
    ensures
        '0' <= c <= '9' ==> digit_value(c, 10) == Some((c as u32 - '0' as u32) as nat) && digit_value(c, 16) == Some(
            (c as u32 - '0' as u32) as nat,
        ),
        'a' <= c <= 'f' ==> digit_value(c, 16) == Some((c as u32 - 'a' as u32 + 10) as nat) && digit_value(c, 10)
            is None,
        'A' <= c <= 'F' ==> digit_value(c, 16) == Some((c as u32 - 'A' as u32 + 10) as nat) && digit_value(c, 10)
            is None,
        !('0' <= c <= '9') ==> digit_value(c, 10) is None,
        !('0' <= c <= '9') && !('a' <= c <= 'f') && !('A' <= c <= 'F') ==> digit_value(c, 16) is None,
{
}

/// One more digit multiplies a number by its base and adds the digit. A number over the
/// limit, or with anything but digits behind a sign, is none.
pub proof fn numbers_are_read_digit_by_digit(s: Seq<char>, c: char, radix: nat, max: nat, n: nat, d: nat)
    ensures
        digits_value(s, radix) == Some(n) && digit_value(c, radix) == Some(d) ==> digits_value(s.push(c), radix) == Some(
            n * radix + d,
        ),
        digits_value(s, radix) is None || digit_value(c, radix) is None ==> digits_value(s.push(c), radix) is None,
        digits_value(Seq::empty(), radix) == Some(0nat),
        number(Seq::empty(), radix, max) is None,
        s.len() > 0 && s[0] != '+' && digits_value(s, radix) == Some(n) ==> number(s, radix, max) == (if n <= max {
            Some(n)
        } else {
            None
        }),
        s.len() > 0 && s[0] != '+' && digits_value(s, radix) is None ==> number(s, radix, max) is None,
        s.len() > 0 && digits_value(s, radix) == Some(n) ==> number(seq!['+'] + s, radix, max) == (if n <= max {
            Some(n)
        } else {
            None
        }),
{
    assert(s.push(c).drop_last() =~= s);
    if s.len() > 0 {
        assert((seq!['+'] + s).skip(1) =~= s);
    }
}

/// Lines end at newlines, which belong to none of them.
pub proof fn lines_end_at_newlines(s: Seq<char>, c: char)
    ensures
        text_lines(Seq::empty()) == seq![Seq::<char>::empty()],
        text_lines(s).len() > 0,
        text_lines(s.push('\n')) == text_lines(s).push(Seq::empty()),
        c != '\n' ==> text_lines(s.push(c)) == text_lines(s).drop_last().push(text_lines(s).last().push(c)),
    decreases s.len(),
{
    assert(s.push('\n').drop_last() =~= s);
    assert(s.push(c).drop_last() =~= s);
    if s.len() > 0 {
        lines_end_at_newlines(s.drop_last(), c);
    }
}

/// Spaces, tabs and newlines are white space; letters, digits and colons are not.
pub proof fn white_space_is_no_text(c: char)
    ensures
        is_space(' '),
        is_space('\t'),
        is_space('\n'),
        '0' <= c <= ':' || 'A' <= c <= 'Z' || 'a' <= c <= 'z' ==> !is_space(c),
{
}

proof fn words_are_whole(s: Seq<char>)
    ensures
        words_so_far(s).1.len() == 0 <==> s.len() == 0 || is_space(s.last()),
    decreases s.len(),
{
    if s.len() > 0 {
        words_are_whole(s.drop_last());
    }
}

/// Words are what stands between white space: white space adds to none, a character
/// behind white space begins one, and any other one goes on with the last.
pub proof fn words_stand_between_white_space(s: Seq<char>, c: char)
    ensures
        words(Seq::empty()).len() == 0,
        is_space(c) ==> words(s.push(c)) == words(s),
        !is_space(c) && (s.len() == 0 || is_space(s.last())) ==> words(s.push(c)) == words(s).push(seq![c]),
        !is_space(c) && s.len() > 0 && !is_space(s.last()) ==> words(s).len() > 0 && words(s.push(c)) == words(
            s,
        ).drop_last().push(words(s).last().push(c)),
{
    assert(s.push(c).drop_last() =~= s);
    words_are_whole(s);
    words_are_whole(s.push(c));
    let r = words_so_far(s);
    if !is_space(c) {
        if s.len() == 0 || is_space(s.last()) {
            assert(r.1.push(c) =~= seq![c]);
        } else {
            assert(r.0.push(r.1).drop_last() =~= r.0);
        }
    }
}

/// What follows the last colon of a text, which may hold others before it.
pub proof fn text_after_the_last_colon(a: Seq<char>, b: Seq<char>)
    requires
        forall|i: int| 0 <= i < b.len() ==> #[trigger] b[i] != ':',
    ensures
        after_colon(a + seq![':'] + b) == Some(b),
        after_colon(b) is None,
    decreases b.len(),
{
    let s = a + seq![':'] + b;
    if b.len() == 0 {
        assert(s.last() == ':');
        assert(b =~= Seq::empty());
    } else {
        text_after_the_last_colon(a, b.drop_last());
        assert(s.drop_last() =~= a + seq![':'] + b.drop_last());
        assert(b.drop_last().push(b.last()) =~= b);
        assert(s.last() == b[b.len() - 1]);
    }
}

/// A line of the table says which socket is bound to a port: its second word ends in
/// the port behind a colon, in base sixteen, and its tenth is the inode. Lines that say
/// it of another port, or are too short, say nothing.
pub proof fn lines_say_which_socket_has_a_port(
    line: Seq<char>,
    addr: Seq<char>,
    text: Seq<char>,
    port: u16,
    bound: nat,
    inode: u64,
)
    requires
        forall|i: int| 0 <= i < text.len() ==> #[trigger] text[i] != ':',
    ensures
        words(line).len() < 10 ==> line_inode(line, port) is None,
        words(line).len() >= 10 && words(line)[1] == addr + seq![':'] + text && number(text, 16, 65535) == Some(
            port as nat,
        ) && number(words(line)[9], 10, u64::MAX as nat) == Some(inode as nat) ==> line_inode(line, port) == Some(
            inode,
        ),
        words(line).len() >= 10 && words(line)[1] == addr + seq![':'] + text && number(text, 16, 65535) == Some(bound)
            && bound != port ==> line_inode(line, port) is None,
        words(line).len() >= 10 && words(line)[1] == text ==> line_inode(line, port) is None,
{
    text_after_the_last_colon(addr, text);
}

/// The first line that says which socket is bound to the port counts.
pub proof fn first_line_about_the_port_counts(lines: Seq<Seq<char>>, port: u16, i: int)
    requires
        0 <= i < lines.len(),
        forall|j: int| 0 <= j < i ==> line_inode(#[trigger] lines[j], port) is None,
        line_inode(lines[i], port) is Some,
    ensures
        first_inode(lines, port) == line_inode(lines[i], port),
    decreases i,
{
    if i > 0 {
        assert(line_inode(lines[0], port) is None);
        let rest = lines.skip(1);
        assert forall|j: int| 0 <= j < i - 1 implies line_inode(#[trigger] rest[j], port) is None by {
            assert(rest[j] == lines[j + 1]);
        }
        first_line_about_the_port_counts(rest, port, i - 1);
    }
}

// ===== errors =====

/// An error is told with its causes, each in brackets behind what it caused.
pub proof fn errors_are_told_with_their_causes(text: Seq<char>, cause: String, causes: Seq<String>)
    ensures
        with_sources(text, Seq::empty()) == text,
        with_sources(text, seq![cause] + causes) == text + " ("@ + with_sources(cause@, causes) + ")"@,
{
    assert((seq![cause] + causes).skip(1) =~= causes);
}

/// Each error has its own text, and the detail that it came with is told unchanged.
pub proof fn errors_tell_what_happened(
    e: SystemError,
    id: u64,
    addr: IpAddr,
    info: PacketInfo,
    discr: u32,
    flags: u8,
)
    ensures
        IoError::UdpSocketError(e).text() == "failed to create UDP socket"@,
        IoError::UdpRecvError(e).text() == "failed to receive UDP packet"@,
        IoError::UdpSendError(e).text() == "failed to send UDP packet"@,
        IoError::UdpRecvMissingSourceAddr.text() == "failed to retrieve source address from received packet"@,
        IoError::UdpRecvMissingAncillaryData.text() == "failed to retrieve ancillary data from received packet"@,
        IoError::UdpSocketError(e).detail() == Some(DetailView::Error(with_sources(e.text@, e.sources@))),
        IoError::UdpRecvError(e).detail() == Some(DetailView::Error(with_sources(e.text@, e.sources@))),
        IoError::UdpSendError(e).detail() == Some(DetailView::Error(with_sources(e.text@, e.sources@))),
        IoError::UdpRecvMissingSourceAddr.detail() is None,
        IoError::UdpRecvMissingAncillaryData.detail() is None,
        Error::IoError(IoError::UdpRecvError(e)).text() == "failed to receive UDP packet"@,
        Error::SessionIdNotFound(id).text() == "session ID not found"@,
        Error::UdpInvalidSourceAddr(addr).text() == "invalid source address"@,
        Error::UdpPacketDecodeError(e).text() == "failed to decode packet"@,
        Error::SessionNoMatch(info, discr).text() == "failed to find session"@,
        Error::InvalidFlags(flags).text() == "received invalid flags"@,
        Error::InvalidYourDiscriminator(discr).text() == "received invalid Your Discriminator"@,
        Error::AuthError.text() == "failed to authenticate packet"@,
        Error::SessionIdNotFound(id).detail() == Some(DetailView::SessionId(id)),
        Error::UdpInvalidSourceAddr(addr).detail() == Some(DetailView::Address(addr)),
        Error::UdpPacketDecodeError(e).detail() == Some(DetailView::Error(with_sources(e.text@, e.sources@))),
        Error::SessionNoMatch(info, discr).detail() == Some(DetailView::Unmatched(info, discr)),
        Error::InvalidFlags(flags).detail() == Some(DetailView::Flags(flags)),
        Error::InvalidYourDiscriminator(discr).detail() == Some(DetailView::Discriminator(discr)),
        Error::AuthError.detail() is None,
{
}

/// A port that is in use is said to be held by whoever holds it, if that is known. Any
/// other failure is told as it is.
pub proof fn ports_in_use_name_their_holder(holder: Seq<char>, error: Seq<char>)
    ensures
        bind_reason(true, Some(holder), error) == "address in use (held by "@ + holder + ")"@,
        bind_reason(true, None, error) == "address in use (holder unknown)"@,
        bind_reason(false, Some(holder), error) == error,
        bind_reason(false, None, error) == error,
{
}

} // verus!
