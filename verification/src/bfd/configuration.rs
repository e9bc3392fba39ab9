//! Configuration of BFD.

use vstd::prelude::*;

use crate::bfd::client::{SessionKey, SessionKeyView, State};
use crate::bfd::network::{PORT_DST_MULTIHOP, TTL_MAX};
use crate::collections::{views, views_insert, Key, OrdSet, Table};
use crate::ip::{IpAddr, SocketAddr};
use crate::northbound::error::ApplyError;

verus! {

/// Identifies a session for as long as it exists.
pub type SessionIndex = u32;

/// Resources that changes need: none, so none can be made.
#[derive(Debug)]
pub struct Resource(());

/// What is to be done once the configuration is fully updated, in this order.
#[derive(Clone, Copy, Debug, PartialEq, Eq, Structural)]
pub enum Event {
    SessionDeleteCheck(SessionIndex),
    AdminDownChange(SessionIndex),
    StartPollSequence(SessionIndex),
    UpdateRxSockets,
    UpdateTxSocket(SessionIndex),
    UpdateTxInterval(SessionIndex),
}

impl View for Event {
    type V = Event;

    open spec fn view(&self) -> Event {
        *self
    }
}

impl Event {
    pub open spec fn rank(self) -> u128 {
        match self {
            Event::SessionDeleteCheck(..) => 0,
            Event::AdminDownChange(..) => 1,
            Event::StartPollSequence(..) => 2,
            Event::UpdateRxSockets => 3,
            Event::UpdateTxSocket(..) => 4,
            Event::UpdateTxInterval(..) => 5,
        }
    }

    /// The numbers by which events of the same kind are ordered.
    pub open spec fn arg(self, i: int) -> u128 {
        match self {
            Event::SessionDeleteCheck(a) => if i == 0 {
                a as u128
            } else {
                0
            },
            Event::AdminDownChange(a) => if i == 0 {
                a as u128
            } else {
                0
            },
            Event::StartPollSequence(a) => if i == 0 {
                a as u128
            } else {
                0
            },
            Event::UpdateRxSockets => 0,
            Event::UpdateTxSocket(a) => if i == 0 {
                a as u128
            } else {
                0
            },
            Event::UpdateTxInterval(a) => if i == 0 {
                a as u128
            } else {
                0
            },
        }
    }
}

impl Key for Event {
    open spec fn code(v: Event) -> Seq<u128> {
        seq![v.rank(), v.arg(0)]
    }

    proof fn code_injective(a: Event, b: Event) {
        let (x, y) = (Self::code(a), Self::code(b));
        assert(x[0] == a.rank() && y[0] == b.rank());
        assert(x[1] == a.arg(0) && y[1] == b.arg(0));
    }

    fn to_code(&self) -> Vec<u128> {
        let c: Vec<u128> = match self {
            Event::SessionDeleteCheck(a) => vec![0, *a as u128],
            Event::AdminDownChange(a) => vec![1, *a as u128],
            Event::StartPollSequence(a) => vec![2, *a as u128],
            Event::UpdateRxSockets => vec![3, 0],
            Event::UpdateTxSocket(a) => vec![4, *a as u128],
            Event::UpdateTxInterval(a) => vec![5, *a as u128],
        };
        assert(c@ =~= Self::code(self@));
        c
    }

    fn copy_key(&self) -> Event {
        *self
    }
}

// ===== configuration structs =====

#[derive(Clone, Copy, Debug, PartialEq, Eq, Structural)]
pub struct SessionCfg {
    pub local_multiplier: u8,
    pub min_tx: u32,
    pub min_rx: u32,
    pub admin_down: bool,
    pub src: Option<IpAddr>,
    pub tx_ttl: Option<u8>,
    pub rx_ttl: Option<u8>,
}

/// A BFD session.
pub struct Session {
    pub key: SessionKey,
    pub config: SessionCfg,
    /// Whether the session is configured.
    pub config_enabled: bool,
    /// The interface of a single-hop session, while it is present.
    pub ifindex: Option<u32>,
    /// Where packets are sent to.
    pub sockaddr: Option<SocketAddr>,
}

pub struct SessionView {
    pub key: SessionKeyView,
    pub config: SessionCfg,
    pub config_enabled: bool,
    pub ifindex: Option<u32>,
    pub sockaddr: Option<SocketAddr>,
}

impl View for Session {
    type V = SessionView;

    open spec fn view(&self) -> SessionView {
        SessionView {
            key: self.key@,
            config: self.config,
            config_enabled: self.config_enabled,
            ifindex: self.ifindex,
            sockaddr: self.sockaddr,
        }
    }
}

/// All sessions.
pub struct Master {
    pub sessions: Table<SessionIndex, Session>,
    /// The index that the next new session gets.
    pub next_index: SessionIndex,
    /// The ifindex of each interface that is present.
    pub interfaces: Table<String, u32>,
    /// Defaults of the schema.
    pub defaults: Defaults,
}

pub struct MasterView {
    pub sessions: Map<SessionIndex, SessionView>,
    pub next_index: SessionIndex,
    pub interfaces: Map<Seq<char>, u32>,
    pub defaults: Defaults,
}

impl View for Master {
    type V = MasterView;

    open spec fn view(&self) -> MasterView {
        MasterView {
            sessions: views(self.sessions@),
            next_index: self.next_index,
            interfaces: self.interfaces@,
            defaults: self.defaults,
        }
    }
}

// ===== configuration defaults =====

/// Default values that the schema gives.
#[derive(Clone, Copy, Debug, PartialEq, Eq, Structural)]
pub struct Defaults {
    pub local_multiplier: u8,
    pub min_tx: u32,
    pub min_rx: u32,
    pub admin_down: bool,
}

impl SessionCfg {
    /// The values without any configuration.
    pub open spec fn initial(d: Defaults) -> SessionCfg {
        SessionCfg {
            local_multiplier: d.local_multiplier,
            min_tx: d.min_tx,
            min_rx: d.min_rx,
            admin_down: d.admin_down,
            src: None,
            tx_ttl: None,
            rx_ttl: None,
        }
    }

    pub fn new(d: &Defaults) -> (r: SessionCfg)
        ensures
            r == SessionCfg::initial(*d),
    {
        SessionCfg {
            local_multiplier: d.local_multiplier,
            min_tx: d.min_tx,
            min_rx: d.min_rx,
            admin_down: d.admin_down,
            src: None,
            tx_ttl: None,
            rx_ttl: None,
        }
    }
}

// ===== changes =====

/// Change within a single-hop session.
pub enum IpShSessionEntryChange {
    SourceAddr(Option<IpAddr>),
    LocalMultiplier(u8),
    DesiredMinTxInterval(Option<u32>),
    RequiredMinRxInterval(Option<u32>),
    MinInterval(Option<u32>),
    AdminDown(bool),
}

/// Change within a group of multihop sessions.
pub enum IpMhSessionGroupEntryChange {
    LocalMultiplier(u8),
    DesiredMinTxInterval(Option<u32>),
    RequiredMinRxInterval(Option<u32>),
    MinInterval(Option<u32>),
    AdminDown(bool),
    TxTtl(u8),
    RxTtl(u8),
}

/// Change of a single-hop session.
pub enum IpShSessionChange {
    Create,
    Delete,
    Entry(IpShSessionEntryChange),
}

/// Change of a group of multihop sessions.
pub enum IpMhSessionGroupChange {
    Create,
    Delete,
    Entry(IpMhSessionGroupEntryChange),
}

/// Change of the configuration.
#[allow(inconsistent_fields)]
pub enum ConfigChange {
    IpShSession { ifname: String, dst: IpAddr, change: IpShSessionChange },
    IpMhSessionGroup { src: IpAddr, dst: IpAddr, change: IpMhSessionGroupChange },
    /// Nothing to do for now.
    IpShInterfaces(String),
}

// ===== sessions =====

/// Whether the entry is the first one of a session with that key.
pub open spec fn first_session(sessions: Map<SessionIndex, SessionView>, key: SessionKeyView, k: SessionIndex) -> bool {
    &&& sessions.contains_key(k)
    &&& sessions[k].key == key
    &&& forall|j: SessionIndex| #[trigger] sessions.contains_key(j) && j < k ==> sessions[j].key != key
}

/// The session with that key.
pub open spec fn session_with(sessions: Map<SessionIndex, SessionView>, key: SessionKeyView) -> Option<SessionIndex> {
    if exists|k: SessionIndex| first_session(sessions, key, k) {
        Some(choose|k: SessionIndex| first_session(sessions, key, k))
    } else {
        None
    }
}

fn find_session(sessions: &Table<SessionIndex, Session>, key: &SessionKey) -> (r: Option<SessionIndex>)
    ensures
        r == session_with(views(sessions@), key@),
        r matches Some(k) ==> sessions@.contains_key(k),
{
    let ghost m = views(sessions@);
    let ghost keys = sessions.keys();
    let n: usize = sessions.len();
    proof {
        crate::collections::ascending(*sessions);
    }
    let mut i: usize = 0;
    while i < n
        invariant
            i <= n,
            n == sessions.keys().len(),
            keys == sessions.keys(),
            m == views(sessions@),
            forall|a: int, b: int| 0 <= a < b < keys.len() ==> #[trigger] keys[a] < #[trigger] keys[b],
            forall|k: u32| #[trigger]
                sessions@.contains_key(k) ==> exists|x: int| 0 <= x < keys.len() && keys[x] == k,
            forall|x: int| 0 <= x < i ==> sessions@[#[trigger] keys[x]].key@ != key@,
        decreases n - i,
    {
        if sessions.value_at(i).key.same(key) {
            let k = *sessions.key_at(i);
            assert(first_session(m, key@, k)) by {
                assert forall|j: SessionIndex| #[trigger] m.contains_key(j) && j < k implies m[j].key != key@ by {
                    assert(sessions@.contains_key(j));
                    let x = choose|x: int| 0 <= x < keys.len() && keys[x] == j;
                    if x > i {
                        assert(keys[i as int] < keys[x]);
                    }
                }
            }
            assert(session_with(m, key@) == Some(k)) by {
                let c = choose|c: SessionIndex| first_session(m, key@, c);
                assert(first_session(m, key@, c));
                assert(m.contains_key(c) && m.contains_key(k));
            }
            return Some(k);
        }
        i = i + 1;
    }
    proof {
        assert forall|k: SessionIndex| !first_session(m, key@, k) by {
            if m.contains_key(k) {
                assert(sessions@.contains_key(k));
                let x = choose|x: int| 0 <= x < keys.len() && keys[x] == k;
                assert(sessions@[keys[x]].key@ != key@);
            }
        }
    }
    None
}

/// The index that a session with that key has or gets.
pub open spec fn index_for(m: MasterView, key: SessionKeyView) -> SessionIndex {
    match session_with(m.sessions, key) {
        Some(k) => k,
        None => m.next_index,
    }
}

/// The session with that key, or a new one.
pub open spec fn session_or_new(m: MasterView, key: SessionKeyView) -> SessionView {
    match session_with(m.sessions, key) {
        Some(k) => m.sessions[k],
        None => SessionView {
            key,
            config: SessionCfg::initial(m.defaults),
            config_enabled: false,
            ifindex: None,
            sockaddr: None,
        },
    }
}

/// With a session kept under the index that it has or gets.
pub open spec fn with_session(m: MasterView, key: SessionKeyView, s: SessionView) -> MasterView {
    MasterView {
        sessions: m.sessions.insert(index_for(m, key), s),
        next_index: match session_with(m.sessions, key) {
            Some(_) => m.next_index,
            None => (m.next_index + 1) as SessionIndex,
        },
        ..m
    }
}

/// Gets the existing session, or creates a new one.
fn insert_session(master: &mut Master, key: SessionKey) -> (sess_idx: SessionIndex)
    requires
        session_with(old(master)@.sessions, key@) is None ==> old(master).next_index < SessionIndex::MAX,
    ensures
        sess_idx == index_for(old(master)@, key@),
        final(master)@ == with_session(old(master)@, key@, session_or_new(old(master)@, key@)),
        final(master).sessions@.contains_key(sess_idx),
{
    let ghost before = master.sessions@;
    if let Some(sess_idx) = find_session(&master.sessions, &key) {
        proof {
            assert(views(before).insert(sess_idx, views(before)[sess_idx]) =~= views(before));
        }
        return sess_idx;
    }
    let sess_idx = master.next_index;
    let sess = Session {
        key,
        config: SessionCfg::new(&master.defaults),
        config_enabled: false,
        ifindex: None,
        sockaddr: None,
    };
    proof {
        views_insert(before, sess_idx, sess);
    }
    master.sessions.insert(sess_idx, sess);
    master.next_index = sess_idx + 1;
    sess_idx
}

/// The configuration of a single-hop session and the queued events, after a
/// change within it.
pub open spec fn sh_entry_changed(
    c: SessionCfg,
    q: Set<Event>,
    sess_idx: SessionIndex,
    change: IpShSessionEntryChange,
) -> (SessionCfg, Set<Event>) {
    match change {
        IpShSessionEntryChange::SourceAddr(src) => (
            SessionCfg { src, ..c },
            q.insert(Event::UpdateTxSocket(sess_idx)).insert(Event::UpdateTxInterval(sess_idx)),
        ),
        IpShSessionEntryChange::LocalMultiplier(local_multiplier) => (SessionCfg { local_multiplier, ..c }, q),
        IpShSessionEntryChange::DesiredMinTxInterval(min_tx) => match min_tx {
            Some(min_tx) => (
                SessionCfg { min_tx, ..c },
                q.insert(Event::StartPollSequence(sess_idx)).insert(Event::UpdateTxInterval(sess_idx)),
            ),
            None => (c, q),
        },
        IpShSessionEntryChange::RequiredMinRxInterval(min_rx) => match min_rx {
            Some(min_rx) => (
                SessionCfg { min_rx, ..c },
                q.insert(Event::StartPollSequence(sess_idx)).insert(Event::UpdateTxInterval(sess_idx)),
            ),
            None => (c, q),
        },
        IpShSessionEntryChange::MinInterval(min_interval) => match min_interval {
            Some(min_interval) => (
                SessionCfg { min_tx: min_interval, min_rx: min_interval, ..c },
                q.insert(Event::StartPollSequence(sess_idx)).insert(Event::UpdateTxInterval(sess_idx)),
            ),
            None => (c, q),
        },
        IpShSessionEntryChange::AdminDown(admin_down) => (
            SessionCfg { admin_down, ..c },
            q.insert(Event::AdminDownChange(sess_idx)),
        ),
    }
}

fn apply_sh_entry(
    cfg: &mut SessionCfg,
    sess_idx: SessionIndex,
    change: IpShSessionEntryChange,
    event_queue: &mut OrdSet<Event>,
)
    ensures
        (*final(cfg), final(event_queue)@) == sh_entry_changed(*old(cfg), old(event_queue)@, sess_idx, change),
{
    match change {
        IpShSessionEntryChange::SourceAddr(src) => {
            cfg.src = src;
            event_queue.insert(Event::UpdateTxSocket(sess_idx));
            event_queue.insert(Event::UpdateTxInterval(sess_idx));
        },
        IpShSessionEntryChange::LocalMultiplier(local_multiplier) => {
            cfg.local_multiplier = local_multiplier;
        },
        IpShSessionEntryChange::DesiredMinTxInterval(min_tx) => {
            if let Some(min_tx) = min_tx {
                cfg.min_tx = min_tx;
                event_queue.insert(Event::StartPollSequence(sess_idx));
                event_queue.insert(Event::UpdateTxInterval(sess_idx));
            }
        },
        IpShSessionEntryChange::RequiredMinRxInterval(min_rx) => {
            if let Some(min_rx) = min_rx {
                cfg.min_rx = min_rx;
                event_queue.insert(Event::StartPollSequence(sess_idx));
                event_queue.insert(Event::UpdateTxInterval(sess_idx));
            }
        },
        IpShSessionEntryChange::MinInterval(min_interval) => {
            if let Some(min_interval) = min_interval {
                cfg.min_tx = min_interval;
                cfg.min_rx = min_interval;
                event_queue.insert(Event::StartPollSequence(sess_idx));
                event_queue.insert(Event::UpdateTxInterval(sess_idx));
            }
        },
        IpShSessionEntryChange::AdminDown(admin_down) => {
            cfg.admin_down = admin_down;
            event_queue.insert(Event::AdminDownChange(sess_idx));
        },
    }
}

/// The configuration of a group of multihop sessions and the queued events,
/// after a change within it.
pub open spec fn mh_entry_changed(
    c: SessionCfg,
    q: Set<Event>,
    sess_idx: SessionIndex,
    change: IpMhSessionGroupEntryChange,
) -> (SessionCfg, Set<Event>) {
    match change {
        IpMhSessionGroupEntryChange::LocalMultiplier(local_multiplier) => (SessionCfg { local_multiplier, ..c }, q),
        IpMhSessionGroupEntryChange::DesiredMinTxInterval(min_tx) => match min_tx {
            Some(min_tx) => (
                SessionCfg { min_tx, ..c },
                q.insert(Event::StartPollSequence(sess_idx)).insert(Event::UpdateTxInterval(sess_idx)),
            ),
            None => (c, q),
        },
        IpMhSessionGroupEntryChange::RequiredMinRxInterval(min_rx) => match min_rx {
            Some(min_rx) => (
                SessionCfg { min_rx, ..c },
                q.insert(Event::StartPollSequence(sess_idx)).insert(Event::UpdateTxInterval(sess_idx)),
            ),
            None => (c, q),
        },
        IpMhSessionGroupEntryChange::MinInterval(min_interval) => match min_interval {
            Some(min_interval) => (
                SessionCfg { min_tx: min_interval, min_rx: min_interval, ..c },
                q.insert(Event::StartPollSequence(sess_idx)).insert(Event::UpdateTxInterval(sess_idx)),
            ),
            None => (c, q),
        },
        IpMhSessionGroupEntryChange::AdminDown(admin_down) => (
            SessionCfg { admin_down, ..c },
            q.insert(Event::AdminDownChange(sess_idx)),
        ),
        IpMhSessionGroupEntryChange::TxTtl(ttl) => (
            SessionCfg { tx_ttl: Some(ttl), ..c },
            q.insert(Event::UpdateTxSocket(sess_idx)).insert(Event::UpdateTxInterval(sess_idx)),
        ),
        IpMhSessionGroupEntryChange::RxTtl(ttl) => (SessionCfg { rx_ttl: Some(ttl), ..c }, q),
    }
}

fn apply_mh_entry(
    cfg: &mut SessionCfg,
    sess_idx: SessionIndex,
    change: IpMhSessionGroupEntryChange,
    event_queue: &mut OrdSet<Event>,
)
    ensures
        (*final(cfg), final(event_queue)@) == mh_entry_changed(*old(cfg), old(event_queue)@, sess_idx, change),
{
    match change {
        IpMhSessionGroupEntryChange::LocalMultiplier(local_multiplier) => {
            cfg.local_multiplier = local_multiplier;
        },
        IpMhSessionGroupEntryChange::DesiredMinTxInterval(min_tx) => {
            if let Some(min_tx) = min_tx {
                cfg.min_tx = min_tx;
                event_queue.insert(Event::StartPollSequence(sess_idx));
                event_queue.insert(Event::UpdateTxInterval(sess_idx));
            }
        },
        IpMhSessionGroupEntryChange::RequiredMinRxInterval(min_rx) => {
            if let Some(min_rx) = min_rx {
                cfg.min_rx = min_rx;
                event_queue.insert(Event::StartPollSequence(sess_idx));
                event_queue.insert(Event::UpdateTxInterval(sess_idx));
            }
        },
        IpMhSessionGroupEntryChange::MinInterval(min_interval) => {
            if let Some(min_interval) = min_interval {
                cfg.min_tx = min_interval;
                cfg.min_rx = min_interval;
                event_queue.insert(Event::StartPollSequence(sess_idx));
                event_queue.insert(Event::UpdateTxInterval(sess_idx));
            }
        },
        IpMhSessionGroupEntryChange::AdminDown(admin_down) => {
            cfg.admin_down = admin_down;
            event_queue.insert(Event::AdminDownChange(sess_idx));
        },
        IpMhSessionGroupEntryChange::TxTtl(ttl) => {
            cfg.tx_ttl = Some(ttl);
            event_queue.insert(Event::UpdateTxSocket(sess_idx));
            event_queue.insert(Event::UpdateTxInterval(sess_idx));
        },
        IpMhSessionGroupEntryChange::RxTtl(ttl) => {
            cfg.rx_ttl = Some(ttl);
        },
    }
}

/// The sessions and the queued events, after a session is no longer
/// configured. It goes, unless others still need it, when the queued event is
/// processed.
pub open spec fn session_unconfigured(m: MasterView, q: Set<Event>, key: SessionKeyView) -> Option<
    (MasterView, Set<Event>),
> {
    match session_with(m.sessions, key) {
        Some(k) => Some(
            (
                MasterView {
                    sessions: m.sessions.insert(k, SessionView { config_enabled: false, ..m.sessions[k] }),
                    ..m
                },
                q.insert(Event::SessionDeleteCheck(k)).insert(Event::UpdateRxSockets),
            ),
        ),
        None => None,
    }
}

fn unconfigure_session(master: &mut Master, key: &SessionKey, event_queue: &mut OrdSet<Event>) -> (r: Result<
    (),
    ApplyError,
>)
    ensures
        match session_unconfigured(old(master)@, old(event_queue)@, key@) {
            Some(s) => r is Ok && (final(master)@, final(event_queue)@) == s,
            None => r == Err::<(), ApplyError>(ApplyError::EntryNotFound) && final(master)@ == old(master)@
                && final(event_queue)@ == old(event_queue)@,
        },
{
    let ghost before = master.sessions@;
    let sess_idx = match find_session(&master.sessions, key) {
        Some(sess_idx) => sess_idx,
        None => {
            return Err(ApplyError::EntryNotFound);
        },
    };
    if let Some(sess) = master.sessions.get_mut(&sess_idx) {
        sess.config_enabled = false;
        proof {
            views_insert(before, sess_idx, *sess);
        }
    }
    event_queue.insert(Event::SessionDeleteCheck(sess_idx));
    event_queue.insert(Event::UpdateRxSockets);
    Ok(())
}

/// The sessions and the queued events, after a change of a single-hop session.
/// Such a session can only be active as long as its associated interface is
/// present.
pub open spec fn sh_session_changed(
    m: MasterView,
    q: Set<Event>,
    ifname: Seq<char>,
    dst: IpAddr,
    change: IpShSessionChange,
) -> Option<(MasterView, Set<Event>)> {
    let key = SessionKeyView::IpSingleHop { ifname, dst };
    match change {
        IpShSessionChange::Create => {
            let k = index_for(m, key);
            let s = session_or_new(m, key);
            Some(
                (
                    with_session(
                        m,
                        key,
                        SessionView {
                            config_enabled: true,
                            ifindex: if m.interfaces.contains_key(ifname) {
                                Some(m.interfaces[ifname])
                            } else {
                                s.ifindex
                            },
                            ..s
                        },
                    ),
                    q.insert(Event::UpdateTxSocket(k)).insert(Event::UpdateTxInterval(k)).insert(
                        Event::UpdateRxSockets,
                    ),
                ),
            )
        },
        IpShSessionChange::Delete => session_unconfigured(m, q, key),
        IpShSessionChange::Entry(change) => match session_with(m.sessions, key) {
            Some(k) => {
                let r = sh_entry_changed(m.sessions[k].config, q, k, change);
                Some(
                    (
                        MasterView {
                            sessions: m.sessions.insert(k, SessionView { config: r.0, ..m.sessions[k] }),
                            ..m
                        },
                        r.1,
                    ),
                )
            },
            None => None,
        },
    }
}

fn apply_ip_sh_session(
    master: &mut Master,
    ifname: String,
    dst: IpAddr,
    change: IpShSessionChange,
    event_queue: &mut OrdSet<Event>,
) -> (r: Result<(), ApplyError>)
    requires
        change is Create ==> old(master).next_index < SessionIndex::MAX,
    ensures
        match sh_session_changed(old(master)@, old(event_queue)@, ifname@, dst, change) {
            Some(s) => r is Ok && (final(master)@, final(event_queue)@) == s,
            None => r == Err::<(), ApplyError>(ApplyError::EntryNotFound) && final(master)@ == old(master)@
                && final(event_queue)@ == old(event_queue)@,
        },
{
    let ghost m = master@;
    let sess_key = SessionKey::IpSingleHop { ifname: ifname.clone(), dst };
    match change {
        IpShSessionChange::Create => {
            // Get existing session or create a new one.
            let sess_idx = insert_session(master, sess_key);
            let ghost before = master.sessions@;
            let ifindex = match master.interfaces.get(&ifname) {
                Some(ifindex) => Some(*ifindex),
                None => None,
            };
            assert(views(before)[sess_idx] == session_or_new(m, sess_key@));
            if let Some(sess) = master.sessions.get_mut(&sess_idx) {
                sess.config_enabled = true;

                // Single-hop sessions can only be active as long as their
                // associated interface is present.
                if ifindex.is_some() {
                    sess.ifindex = ifindex;
                }
                proof {
                    views_insert(before, sess_idx, *sess);
                }
            }
            proof {
                let key = sess_key@;
                let s = master@.sessions[sess_idx];
                assert(views(before) == m.sessions.insert(sess_idx, session_or_new(m, key)));
                assert(master@.sessions =~= m.sessions.insert(sess_idx, s));
                assert(master@ == with_session(m, key, s));
            }
            event_queue.insert(Event::UpdateTxSocket(sess_idx));
            event_queue.insert(Event::UpdateTxInterval(sess_idx));
            event_queue.insert(Event::UpdateRxSockets);
        },
        IpShSessionChange::Delete => {
            return unconfigure_session(master, &sess_key, event_queue);
        },
        IpShSessionChange::Entry(change) => {
            let ghost before = master.sessions@;
            let sess_idx = match find_session(&master.sessions, &sess_key) {
                Some(sess_idx) => sess_idx,
                None => {
                    return Err(ApplyError::EntryNotFound);
                },
            };
            if let Some(sess) = master.sessions.get_mut(&sess_idx) {
                apply_sh_entry(&mut sess.config, sess_idx, change, event_queue);
                proof {
                    views_insert(before, sess_idx, *sess);
                }
            }
        },
    }
    Ok(())
}

/// The sessions and the queued events, after a change of a group of multihop
/// sessions.
pub open spec fn mh_session_changed(
    m: MasterView,
    q: Set<Event>,
    src: IpAddr,
    dst: IpAddr,
    change: IpMhSessionGroupChange,
) -> Option<(MasterView, Set<Event>)> {
    let key = SessionKeyView::IpMultihop { src, dst };
    match change {
        IpMhSessionGroupChange::Create => {
            let k = index_for(m, key);
            let s = session_or_new(m, key);
            Some(
                (
                    with_session(
                        m,
                        key,
                        SessionView {
                            config: SessionCfg { tx_ttl: Some(TTL_MAX), rx_ttl: Some(TTL_MAX), ..s.config },
                            config_enabled: true,
                            sockaddr: Some(SocketAddr { ip: dst, port: PORT_DST_MULTIHOP }),
                            ..s
                        },
                    ),
                    q.insert(Event::UpdateRxSockets).insert(Event::UpdateTxSocket(k)).insert(
                        Event::UpdateTxInterval(k),
                    ),
                ),
            )
        },
        IpMhSessionGroupChange::Delete => session_unconfigured(m, q, key),
        IpMhSessionGroupChange::Entry(change) => match session_with(m.sessions, key) {
            Some(k) => {
                let r = mh_entry_changed(m.sessions[k].config, q, k, change);
                Some(
                    (
                        MasterView {
                            sessions: m.sessions.insert(k, SessionView { config: r.0, ..m.sessions[k] }),
                            ..m
                        },
                        r.1,
                    ),
                )
            },
            None => None,
        },
    }
}

fn apply_ip_mh_session_group(
    master: &mut Master,
    src: IpAddr,
    dst: IpAddr,
    change: IpMhSessionGroupChange,
    event_queue: &mut OrdSet<Event>,
) -> (r: Result<(), ApplyError>)
    requires
        change is Create ==> old(master).next_index < SessionIndex::MAX,
    ensures
        match mh_session_changed(old(master)@, old(event_queue)@, src, dst, change) {
            Some(s) => r is Ok && (final(master)@, final(event_queue)@) == s,
            None => r == Err::<(), ApplyError>(ApplyError::EntryNotFound) && final(master)@ == old(master)@
                && final(event_queue)@ == old(event_queue)@,
        },
{
    let ghost m = master@;
    let sess_key = SessionKey::IpMultihop { src, dst };
    match change {
        IpMhSessionGroupChange::Create => {
            // Get existing session or create a new one.
            let sess_idx = insert_session(master, sess_key);
            let ghost before = master.sessions@;
            assert(views(before)[sess_idx] == session_or_new(m, sess_key@));
            if let Some(sess) = master.sessions.get_mut(&sess_idx) {
                sess.config.tx_ttl = Some(TTL_MAX);
                sess.config.rx_ttl = Some(TTL_MAX);
                sess.config_enabled = true;

                // Initialize session's socket address.
                sess.sockaddr = Some(SocketAddr { ip: dst, port: PORT_DST_MULTIHOP });
                proof {
                    views_insert(before, sess_idx, *sess);
                }
            }
            proof {
                let key = sess_key@;
                let s = master@.sessions[sess_idx];
                assert(views(before) == m.sessions.insert(sess_idx, session_or_new(m, key)));
                assert(master@.sessions =~= m.sessions.insert(sess_idx, s));
                assert(master@ == with_session(m, key, s));
            }
            event_queue.insert(Event::UpdateRxSockets);
            event_queue.insert(Event::UpdateTxSocket(sess_idx));
            event_queue.insert(Event::UpdateTxInterval(sess_idx));
        },
        IpMhSessionGroupChange::Delete => {
            return unconfigure_session(master, &sess_key, event_queue);
        },
        IpMhSessionGroupChange::Entry(change) => {
            let ghost before = master.sessions@;
            let sess_idx = match find_session(&master.sessions, &sess_key) {
                Some(sess_idx) => sess_idx,
                None => {
                    return Err(ApplyError::EntryNotFound);
                },
            };
            if let Some(sess) = master.sessions.get_mut(&sess_idx) {
                apply_mh_entry(&mut sess.config, sess_idx, change, event_queue);
                proof {
                    views_insert(before, sess_idx, *sess);
                }
            }
        },
    }
    Ok(())
}

/// The sessions and the queued events, after a change of the configuration.
/// Changes of sessions that do not exist cannot be applied.
pub open spec fn master_changed(m: MasterView, q: Set<Event>, change: ConfigChange) -> Option<
    (MasterView, Set<Event>),
> {
    match change {
        ConfigChange::IpShSession { ifname, dst, change } => sh_session_changed(m, q, ifname@, dst, change),
        ConfigChange::IpMhSessionGroup { src, dst, change } => mh_session_changed(m, q, src, dst, change),
        ConfigChange::IpShInterfaces(_) => Some((m, q)),
    }
}

/// Whether there is an index left for what a change creates.
pub open spec fn index_left(m: MasterView, change: ConfigChange) -> bool {
    match change {
        ConfigChange::IpShSession { change: IpShSessionChange::Create, .. } => m.next_index < SessionIndex::MAX,
        ConfigChange::IpMhSessionGroup { change: IpMhSessionGroupChange::Create, .. } => m.next_index
            < SessionIndex::MAX,
        _ => true,
    }
}

/// Applies a change of the configuration, and queues what is to be done about
/// it.
pub fn apply_master(master: &mut Master, change: ConfigChange, event_queue: &mut OrdSet<Event>) -> (r: Result<
    (),
    ApplyError,
>)
    requires
        index_left(old(master)@, change),
    ensures
        match master_changed(old(master)@, old(event_queue)@, change) {
            Some(s) => r is Ok && (final(master)@, final(event_queue)@) == s,
            None => r == Err::<(), ApplyError>(ApplyError::EntryNotFound) && final(master)@ == old(master)@
                && final(event_queue)@ == old(event_queue)@,
        },
{
    match change {
        ConfigChange::IpShSession { ifname, dst, change } => apply_ip_sh_session(
            master,
            ifname,
            dst,
            change,
            event_queue,
        ),
        ConfigChange::IpMhSessionGroup { src, dst, change } => apply_ip_mh_session_group(
            master,
            src,
            dst,
            change,
            event_queue,
        ),
        ConfigChange::IpShInterfaces(_) => Ok(()),
    }
}

// ===== events =====

/// Reasons for a change of state.
#[derive(Clone, Copy, Debug, PartialEq, Eq, Structural)]
pub enum DiagnosticCode {
    Nothing,
    AdminDown,
}

/// What the handling of an event leaves to be done.
#[derive(Clone, Copy, Debug, PartialEq, Eq, Structural)]
pub enum Action {
    /// The session goes, if nobody needs it.
    DeleteCheck(SessionIndex),
    StateUpdate(SessionIndex, State, DiagnosticCode),
    PollSequenceStart(SessionIndex),
    RxTasksUpdate,
    TxSocketUpdate(SessionIndex),
    TxIntervalUpdate(SessionIndex),
}

/// What is to be done about an event.
pub open spec fn event_action(m: MasterView, e: Event) -> Action {
    match e {
        Event::SessionDeleteCheck(k) => Action::DeleteCheck(k),
        Event::AdminDownChange(k) => if m.sessions[k].config.admin_down {
            Action::StateUpdate(k, State::AdminDown, DiagnosticCode::AdminDown)
        } else {
            Action::StateUpdate(k, State::Down, DiagnosticCode::Nothing)
        },
        Event::StartPollSequence(k) => Action::PollSequenceStart(k),
        Event::UpdateRxSockets => Action::RxTasksUpdate,
        Event::UpdateTxSocket(k) => Action::TxSocketUpdate(k),
        Event::UpdateTxInterval(k) => Action::TxIntervalUpdate(k),
    }
}

/// Processes a queued event. Returns what is to be done about it.
pub fn process_event(master: &Master, event: Event) -> (action: Action)
    requires
        event matches Event::AdminDownChange(k) ==> master@.sessions.contains_key(k),
    ensures
        action == event_action(master@, event),
{
    match event {
        Event::SessionDeleteCheck(sess_idx) => Action::DeleteCheck(sess_idx),
        Event::AdminDownChange(sess_idx) => {
            let admin_down = match master.sessions.get(&sess_idx) {
                Some(sess) => sess.config.admin_down,
                None => false,
            };
            if admin_down {
                Action::StateUpdate(sess_idx, State::AdminDown, DiagnosticCode::AdminDown)
            } else {
                Action::StateUpdate(sess_idx, State::Down, DiagnosticCode::Nothing)
            }
        },
        Event::StartPollSequence(sess_idx) => Action::PollSequenceStart(sess_idx),
        Event::UpdateRxSockets => Action::RxTasksUpdate,
        Event::UpdateTxSocket(sess_idx) => Action::TxSocketUpdate(sess_idx),
        Event::UpdateTxInterval(sess_idx) => Action::TxIntervalUpdate(sess_idx),
    }
}

// ===== laws =====

/// Creating a session that exists keeps its index and its timers.
pub proof fn create_keeps_session(m: MasterView, q: Set<Event>, ifname: Seq<char>, dst: IpAddr)
    ensures
        ({
            let key = SessionKeyView::IpSingleHop { ifname, dst };
            let r = (sh_session_changed(m, q, ifname, dst, IpShSessionChange::Create)->0).0;
            session_with(m.sessions, key) matches Some(k) ==> {
                &&& r.sessions.dom() == m.sessions.dom()
                &&& r.sessions[k].config == m.sessions[k].config
                &&& r.sessions[k].config_enabled
                &&& r.next_index == m.next_index
            }
        }),
{
    let key = SessionKeyView::IpSingleHop { ifname, dst };
    if let Some(k) = session_with(m.sessions, key) {
        assert(first_session(m.sessions, key, k));
        let r = (sh_session_changed(m, q, ifname, dst, IpShSessionChange::Create)->0).0;
        assert(r.sessions.dom() =~= m.sessions.dom());
    }
}

/// A session that was deleted is there to be found until the queued event is
/// processed, so that others may go on to use it.
pub proof fn delete_keeps_session(m: MasterView, q: Set<Event>, key: SessionKeyView)
    requires
        session_unconfigured(m, q, key) is Some,
    ensures
        ({
            let r = (session_unconfigured(m, q, key)->0).0;
            let k = session_with(m.sessions, key)->0;
            &&& r.sessions.contains_key(k)
            &&& r.sessions[k] == (SessionView { config_enabled: false, ..m.sessions[k] })
        }),
{
}

} // verus!
