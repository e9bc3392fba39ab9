//! Keychains: keys that routing protocols share, and the times at which each is
//! used.

use std::sync::Arc;

use vstd::prelude::*;

use crate::collections::{push_text_code, text_code, text_code_injective, views, views_insert, views_remove, OrdSet, Table};
use crate::crypto::{CryptoAlgo, DigestSizes};
use crate::northbound::configuration::ConfigOp;
use crate::northbound::error::ApplyError;

verus! {

/// Resources that changes need: none, so none can be made.
#[derive(Debug)]
pub struct Resource(());

/// What is to be done once the configuration is fully updated, in this order.
pub enum Event {
    KeychainChange(String),
    KeychainDelete(String),
}

pub enum EventView {
    KeychainChange(Seq<char>),
    KeychainDelete(Seq<char>),
}

impl View for Event {
    type V = EventView;

    open spec fn view(&self) -> EventView {
        match *self {
            Event::KeychainChange(a) => EventView::KeychainChange(a@),
            Event::KeychainDelete(a) => EventView::KeychainDelete(a@),
        }
    }
}

impl EventView {
    pub open spec fn rank(self) -> u128 {
        match self {
            EventView::KeychainChange(..) => 0,
            EventView::KeychainDelete(..) => 1,
        }
    }


    pub open spec fn text(self) -> Seq<char> {
        match self {
            EventView::KeychainChange(a) => a,
            EventView::KeychainDelete(a) => a,
        }
    }
}

impl crate::collections::Key for Event {
    open spec fn code(v: EventView) -> Seq<u128> {
        seq![v.rank()] + text_code(v.text())
    }

    proof fn code_injective(a: EventView, b: EventView) {
        let (x, y) = (Self::code(a), Self::code(b));
        assert(x[0] == a.rank() && y[0] == b.rank());
        assert(x.skip(1) =~= text_code(a.text()));
        assert(y.skip(1) =~= text_code(b.text()));
        text_code_injective(a.text(), b.text());
    }

    fn to_code(&self) -> Vec<u128> {
        let c: Vec<u128> = match self {
            Event::KeychainChange(_) => vec![0],
            Event::KeychainDelete(_) => vec![1],
        };
        let mut c = c;
        match self {
            Event::KeychainChange(a) => {
                push_text_code(&mut c, a);
            },
            Event::KeychainDelete(a) => {
                push_text_code(&mut c, a);
            },
        }
        assert(c@ =~= Self::code(self@));
        c
    }

    fn copy_key(&self) -> Event {
        match self {
            Event::KeychainChange(a) => Event::KeychainChange(a.clone()),
            Event::KeychainDelete(a) => Event::KeychainDelete(a.clone()),
        }
    }
}

// ===== time =====

/// Seconds from the epoch to the last representable second.
pub const MAX_SECS: i64 = 8210266876799;

/// Seconds from the epoch to the first representable second.
pub const MIN_SECS: i64 = -8334601228800;

/// A point in time.
#[derive(Clone, Copy, Debug, PartialEq, Eq, Structural)]
pub struct DateTime {
    /// Non-leap seconds since January 1, 1970 0:00:00 UTC.
    pub secs: i64,
    /// Nanoseconds since the last second boundary. Those beyond a second stand
    /// for a leap second.
    pub nanos: u32,
    /// The offset of local time from UTC, in seconds.
    pub offset: i32,
}

/// Whether a point in time can be represented: leap seconds stand at the ends
/// of minutes.
pub open spec fn representable(secs: i64, nanos: u32) -> bool {
    &&& MIN_SECS <= secs <= MAX_SECS
    &&& nanos < 1_000_000_000 || (nanos < 2_000_000_000 && secs % 60 == 59)
}

impl DateTime {
    pub open spec fn valid(self) -> bool {
        representable(self.secs, self.nanos)
    }

    /// The point in time that many seconds later. After a leap second there is
    /// no other one.
    pub open spec fn plus(self, seconds: u32) -> DateTime {
        DateTime {
            secs: (self.secs + seconds) as i64,
            nanos: if self.nanos >= 1_000_000_000 && seconds > 0 {
                (self.nanos - 1_000_000_000) as u32
            } else {
                self.nanos
            },
            offset: self.offset,
        }
    }

    /// Whether the point in time that many seconds later can be represented.
    pub open spec fn reaches(self, seconds: u32) -> bool {
        self.secs + seconds <= MAX_SECS
    }

    fn after(&self, seconds: u32) -> (r: DateTime)
        requires
            self.valid(),
            self.reaches(seconds),
        ensures
            r == self.plus(seconds),
    {
        let (secs, nanos) = add_duration(self.secs, self.nanos, seconds);
        DateTime { secs, nanos, offset: self.offset }
    }
}

/// Calls chrono's addition of a duration to a point in time, with a duration
/// made from whole seconds of std: the seconds add up, and the nanoseconds stay
/// unless they stood for a leap second that the sum leaves. Sums beyond the last
/// representable second are left out: the addition panics on them.
#[verifier::external_body]
fn add_duration(secs: i64, nanos: u32, seconds: u32) -> (r: (i64, u32))
    requires
        representable(secs, nanos),
        secs + seconds <= MAX_SECS,
    ensures
        r.0 == secs + seconds,
        nanos >= 1_000_000_000 && seconds > 0 ==> r.1 == nanos - 1_000_000_000,
        nanos < 1_000_000_000 || seconds == 0 ==> r.1 == nanos,
{
    let start = chrono::DateTime::from_timestamp(secs, nanos).unwrap();
    let duration = chrono::Duration::from_std(std::time::Duration::from_secs(seconds as u64)).unwrap();
    let end = start + duration;
    (end.timestamp(), end.timestamp_subsec_nanos())
}

// ===== keychains =====

/// When a key is used. What is left out has no limit.
#[derive(Clone, Copy, Debug, PartialEq, Eq, Structural)]
pub struct KeyLifetime {
    pub start: Option<DateTime>,
    pub end: Option<DateTime>,
}

impl KeyLifetime {
    pub open spec fn valid(self) -> bool {
        self.start matches Some(start) ==> start.valid()
    }

    /// The lifetime, once the key is always used.
    pub open spec fn always(self, op: ConfigOp) -> KeyLifetime {
        if op is Create {
            KeyLifetime { start: None, end: None }
        } else {
            self
        }
    }

    /// The lifetime with that start.
    pub open spec fn starting(self, start: Option<DateTime>) -> KeyLifetime {
        KeyLifetime { start, ..self }
    }

    /// The lifetime, once it has no end.
    pub open spec fn endless(self, op: ConfigOp) -> KeyLifetime {
        if op is Create {
            KeyLifetime { end: None, ..self }
        } else {
            self
        }
    }

    /// The lifetime, once it lasts for that many seconds from its start, if it
    /// has one.
    pub open spec fn lasting(self, seconds: Option<u32>) -> KeyLifetime {
        match (seconds, self.start) {
            (Some(seconds), Some(start)) => KeyLifetime { end: Some(start.plus(seconds)), ..self },
            _ => self,
        }
    }

    /// Whether the end of the lifetime can be represented, once it lasts for
    /// that many seconds.
    pub open spec fn can_last(self, seconds: Option<u32>) -> bool {
        match (seconds, self.start) {
            (Some(seconds), Some(start)) => start.reaches(seconds),
            _ => true,
        }
    }

    /// The lifetime with that end.
    pub open spec fn ending(self, end: Option<DateTime>) -> KeyLifetime {
        KeyLifetime { end, ..self }
    }

    fn set_always(&mut self, op: ConfigOp)
        ensures
            *final(self) == old(self).always(op),
    {
        if let ConfigOp::Create = op {
            self.start = None;
            self.end = None;
        }
    }

    fn set_starting(&mut self, start: Option<DateTime>)
        ensures
            *final(self) == old(self).starting(start),
    {
        self.start = start;
    }

    fn set_endless(&mut self, op: ConfigOp)
        ensures
            *final(self) == old(self).endless(op),
    {
        if let ConfigOp::Create = op {
            self.end = None;
        }
    }

    fn set_lasting(&mut self, seconds: Option<u32>)
        requires
            old(self).valid(),
            old(self).can_last(seconds),
        ensures
            *final(self) == old(self).lasting(seconds),
    {
        if let Some(seconds) = seconds {
            if let Some(start) = self.start {
                self.end = Some(start.after(seconds));
            }
        }
    }

    fn set_ending(&mut self, end: Option<DateTime>)
        ensures
            *final(self) == old(self).ending(end),
    {
        self.end = end;
    }
}

/// A key.
pub struct Key {
    pub id: u64,
    pub algo: CryptoAlgo,
    pub string: Vec<u8>,
}

pub struct KeyView {
    pub id: u64,
    pub algo: CryptoAlgo,
    pub string: Seq<u8>,
}

impl View for Key {
    type V = KeyView;

    open spec fn view(&self) -> KeyView {
        KeyView { id: self.id, algo: self.algo, string: self.string@ }
    }
}

impl Key {
    pub fn new(id: u64, algo: CryptoAlgo, string: Vec<u8>) -> (r: Key)
        ensures
            r@ == (KeyView { id, algo, string: string@ }),
    {
        Key { id, algo, string }
    }
}

/// A key of a keychain.
pub struct KeychainKey {
    pub data: Key,
    pub send_lifetime: KeyLifetime,
    pub accept_lifetime: KeyLifetime,
}

pub struct KeychainKeyView {
    pub data: KeyView,
    pub send_lifetime: KeyLifetime,
    pub accept_lifetime: KeyLifetime,
}

impl View for KeychainKey {
    type V = KeychainKeyView;

    open spec fn view(&self) -> KeychainKeyView {
        KeychainKeyView {
            data: self.data@,
            send_lifetime: self.send_lifetime,
            accept_lifetime: self.accept_lifetime,
        }
    }
}

impl KeychainKeyView {
    pub open spec fn valid(self) -> bool {
        self.send_lifetime.valid() && self.accept_lifetime.valid()
    }
}

impl KeychainKey {
    /// A key that is always used.
    pub fn new(data: Key) -> (r: KeychainKey)
        ensures
            r@ == (KeychainKeyView {
                data: data@,
                send_lifetime: KeyLifetime { start: None, end: None },
                accept_lifetime: KeyLifetime { start: None, end: None },
            }),
    {
        KeychainKey {
            data,
            send_lifetime: KeyLifetime { start: None, end: None },
            accept_lifetime: KeyLifetime { start: None, end: None },
        }
    }

    fn copy(&self) -> (r: KeychainKey)
        ensures
            r@ == self@,
    {
        let mut string: Vec<u8> = Vec::new();
        let mut i: usize = 0;
        while i < self.data.string.len()
            invariant
                i <= self.data.string@.len(),
                string@ == self.data.string@.take(i as int),
            decreases self.data.string@.len() - i,
        {
            string.push(self.data.string[i]);
            assert(string@ =~= self.data.string@.take(i + 1));
            i = i + 1;
        }
        assert(string@ =~= self.data.string@);
        KeychainKey {
            data: Key { id: self.data.id, algo: self.data.algo, string },
            send_lifetime: self.send_lifetime,
            accept_lifetime: self.accept_lifetime,
        }
    }
}

/// A keychain.
pub struct Keychain {
    pub name: String,
    pub keys: Table<u64, KeychainKey>,
    /// The size of the largest digest of its keys.
    pub max_digest_size: u8,
    /// When it was updated last.
    pub last_modified: Option<DateTime>,
}

pub struct KeychainView {
    pub name: Seq<char>,
    pub keys: Map<u64, KeychainKeyView>,
    pub max_digest_size: u8,
    pub last_modified: Option<DateTime>,
}

impl View for Keychain {
    type V = KeychainView;

    open spec fn view(&self) -> KeychainView {
        KeychainView {
            name: self.name@,
            keys: views(self.keys@),
            max_digest_size: self.max_digest_size,
            last_modified: self.last_modified,
        }
    }
}

impl KeychainView {
    pub open spec fn valid(self) -> bool {
        forall|id: u64| #[trigger] self.keys.contains_key(id) ==> self.keys[id].valid()
    }
}

impl Keychain {
    /// A keychain without keys.
    pub open spec fn created(name: Seq<char>) -> KeychainView {
        KeychainView { name, keys: Map::empty(), max_digest_size: 0, last_modified: None }
    }

    pub fn new(name: String) -> (r: Keychain)
        ensures
            r@ == Keychain::created(name@),
    {
        let r = Keychain { name, keys: Table::new(), max_digest_size: 0, last_modified: None };
        assert(r@.keys =~= Map::empty());
        r
    }

    /// A copy, to be shared.
    pub fn copy(&self) -> (r: Keychain)
        ensures
            r@ == self@,
    {
        let mut keys: Table<u64, KeychainKey> = Table::new();
        let n: usize = self.keys.len();
        let ghost ids = self.keys.keys();
        let ghost m = self.keys@;
        let mut i: usize = 0;
        while i < n
            invariant
                i <= n,
                n == self.keys.keys().len(),
                ids == self.keys.keys(),
                m == self.keys@,
                forall|id: u64| #[trigger] keys@.contains_key(id) <==> ids.take(i as int).contains(id),
                forall|id: u64| #[trigger] keys@.contains_key(id) ==> keys@[id]@ == m[id]@,
            decreases n - i,
        {
            let id: u64 = *self.keys.key_at(i);
            let key = self.keys.value_at(i).copy();
            proof {
                assert(ids.take(i + 1) =~= ids.take(i as int).push(id));
                assert forall|k: u64| ids.take(i + 1).contains(k) <==> ids.take(i as int).contains(k) || k == id by {
                    if ids.take(i as int).contains(k) {
                        let x = choose|x: int| 0 <= x < i && ids.take(i as int)[x] == k;
                        assert(ids.take(i + 1)[x] == k);
                    }
                    assert(ids.take(i + 1)[i as int] == id);
                }
            }
            keys.insert(id, key);
            i = i + 1;
        }
        proof {
            assert(ids.take(i as int) =~= ids);
            assert(self.keys.keys_sorted());
            assert forall|id: u64| ids.contains(id) <==> m.contains_key(id) by {
                assert(ids.to_set().contains(id) <==> ids.contains(id));
            }
            assert(views(keys@) =~= views(m));
        }
        Keychain {
            name: self.name.clone(),
            keys,
            max_digest_size: self.max_digest_size,
            last_modified: self.last_modified,
        }
    }
}

/// All keychains.
pub struct Master {
    pub keychains: Table<String, Keychain>,
    pub digest_sizes: DigestSizes,
}

pub open spec fn all_valid(keychains: Map<Seq<char>, KeychainView>) -> bool {
    forall|name: Seq<char>| #[trigger] keychains.contains_key(name) ==> keychains[name].valid()
}

// ===== changes =====

/// Change within a key.
pub enum KeyChainKeyEntryChange {
    LifetimeSendAcceptLifetimeAlways(ConfigOp),
    LifetimeSendAcceptLifetimeStartDateTime(Option<DateTime>),
    LifetimeSendAcceptLifetimeNoEndTime(ConfigOp),
    LifetimeSendAcceptLifetimeDuration(Option<u32>),
    LifetimeSendAcceptLifetimeEndDateTime(Option<DateTime>),
    LifetimeSendLifetimeAlways(ConfigOp),
    LifetimeSendLifetimeStartDateTime(Option<DateTime>),
    LifetimeSendLifetimeNoEndTime(ConfigOp),
    LifetimeSendLifetimeDuration(Option<u32>),
    LifetimeSendLifetimeEndDateTime(Option<DateTime>),
    LifetimeAcceptLifetimeAlways(ConfigOp),
    LifetimeAcceptLifetimeStartDateTime(Option<DateTime>),
    LifetimeAcceptLifetimeNoEndTime(ConfigOp),
    LifetimeAcceptLifetimeDuration(Option<u32>),
    LifetimeAcceptLifetimeEndDateTime(Option<DateTime>),
    CryptoAlgorithm(CryptoAlgo),
    KeyStringKeystring(Option<String>),
    KeyStringHexadecimalString(Option<Vec<u8>>),
}

/// Change of a key.
pub enum KeyChainKeyChange {
    Create,
    Delete,
    Entry(KeyChainKeyEntryChange),
}

/// Change within a keychain.
pub enum KeyChainEntryChange {
    Description(Option<String>),
    Key(u64, KeyChainKeyChange),
}

/// Change of a keychain.
pub enum KeyChainChange {
    Create,
    Delete,
    Entry(KeyChainEntryChange),
}

/// Change of the configuration.
pub enum ConfigChange {
    KeyChain(String, KeyChainChange),
}

/// The octets of an optional text.
pub open spec fn octets(string: Option<String>) -> Seq<u8> {
    match string {
        Some(string) => vstd::utf8::encode_utf8(string@),
        None => Seq::empty(),
    }
}

/// A key, after a change within it.
pub open spec fn key_entry_changed(k: KeychainKeyView, change: KeyChainKeyEntryChange) -> KeychainKeyView {
    match change {
        KeyChainKeyEntryChange::LifetimeSendAcceptLifetimeAlways(op) => KeychainKeyView {
            send_lifetime: k.send_lifetime.always(op),
            accept_lifetime: k.accept_lifetime.always(op),
            ..k
        },
        KeyChainKeyEntryChange::LifetimeSendAcceptLifetimeStartDateTime(start) => KeychainKeyView {
            send_lifetime: k.send_lifetime.starting(start),
            accept_lifetime: k.accept_lifetime.starting(start),
            ..k
        },
        KeyChainKeyEntryChange::LifetimeSendAcceptLifetimeNoEndTime(op) => KeychainKeyView {
            send_lifetime: k.send_lifetime.endless(op),
            accept_lifetime: k.accept_lifetime.endless(op),
            ..k
        },
        KeyChainKeyEntryChange::LifetimeSendAcceptLifetimeDuration(seconds) => KeychainKeyView {
            send_lifetime: k.send_lifetime.lasting(seconds),
            accept_lifetime: k.accept_lifetime.lasting(seconds),
            ..k
        },
        KeyChainKeyEntryChange::LifetimeSendAcceptLifetimeEndDateTime(end) => KeychainKeyView {
            send_lifetime: k.send_lifetime.ending(end),
            accept_lifetime: k.accept_lifetime.ending(end),
            ..k
        },
        KeyChainKeyEntryChange::LifetimeSendLifetimeAlways(op) => KeychainKeyView {
            send_lifetime: k.send_lifetime.always(op),
            ..k
        },
        KeyChainKeyEntryChange::LifetimeSendLifetimeStartDateTime(start) => KeychainKeyView {
            send_lifetime: k.send_lifetime.starting(start),
            ..k
        },
        KeyChainKeyEntryChange::LifetimeSendLifetimeNoEndTime(op) => KeychainKeyView {
            send_lifetime: k.send_lifetime.endless(op),
            ..k
        },
        KeyChainKeyEntryChange::LifetimeSendLifetimeDuration(seconds) => KeychainKeyView {
            send_lifetime: k.send_lifetime.lasting(seconds),
            ..k
        },
        KeyChainKeyEntryChange::LifetimeSendLifetimeEndDateTime(end) => KeychainKeyView {
            send_lifetime: k.send_lifetime.ending(end),
            ..k
        },
        KeyChainKeyEntryChange::LifetimeAcceptLifetimeAlways(op) => KeychainKeyView {
            accept_lifetime: k.accept_lifetime.always(op),
            ..k
        },
        KeyChainKeyEntryChange::LifetimeAcceptLifetimeStartDateTime(start) => KeychainKeyView {
            accept_lifetime: k.accept_lifetime.starting(start),
            ..k
        },
        KeyChainKeyEntryChange::LifetimeAcceptLifetimeNoEndTime(op) => KeychainKeyView {
            accept_lifetime: k.accept_lifetime.endless(op),
            ..k
        },
        KeyChainKeyEntryChange::LifetimeAcceptLifetimeDuration(seconds) => KeychainKeyView {
            accept_lifetime: k.accept_lifetime.lasting(seconds),
            ..k
        },
        KeyChainKeyEntryChange::LifetimeAcceptLifetimeEndDateTime(end) => KeychainKeyView {
            accept_lifetime: k.accept_lifetime.ending(end),
            ..k
        },
        KeyChainKeyEntryChange::CryptoAlgorithm(algo) => KeychainKeyView { data: KeyView { algo, ..k.data }, ..k },
        KeyChainKeyEntryChange::KeyStringKeystring(string) => KeychainKeyView {
            data: KeyView { string: octets(string), ..k.data },
            ..k
        },
        KeyChainKeyEntryChange::KeyStringHexadecimalString(string) => KeychainKeyView {
            data: KeyView {
                string: match string {
                    Some(string) => string@,
                    None => Seq::empty(),
                },
                ..k.data
            },
            ..k
        },
    }
}

/// Whether the points in time that the change gives, and those that follow from
/// it, can be represented.
pub open spec fn key_entry_valid(k: KeychainKeyView, change: KeyChainKeyEntryChange) -> bool {
    match change {
        KeyChainKeyEntryChange::LifetimeSendAcceptLifetimeStartDateTime(start)
        | KeyChainKeyEntryChange::LifetimeSendLifetimeStartDateTime(start)
        | KeyChainKeyEntryChange::LifetimeAcceptLifetimeStartDateTime(start) => start matches Some(start)
            ==> start.valid(),
        KeyChainKeyEntryChange::LifetimeSendAcceptLifetimeDuration(seconds) => k.send_lifetime.can_last(seconds)
            && k.accept_lifetime.can_last(seconds),
        KeyChainKeyEntryChange::LifetimeSendLifetimeDuration(seconds) => k.send_lifetime.can_last(seconds),
        KeyChainKeyEntryChange::LifetimeAcceptLifetimeDuration(seconds) => k.accept_lifetime.can_last(seconds),
        _ => true,
    }
}

fn apply_key_entry(key: &mut KeychainKey, change: KeyChainKeyEntryChange)
    requires
        old(key)@.valid(),
        key_entry_valid(old(key)@, change),
    ensures
        final(key)@ == key_entry_changed(old(key)@, change),
        final(key)@.valid(),
{
    match change {
        KeyChainKeyEntryChange::LifetimeSendAcceptLifetimeAlways(op) => {
            key.send_lifetime.set_always(op);
            key.accept_lifetime.set_always(op);
        },
        KeyChainKeyEntryChange::LifetimeSendAcceptLifetimeStartDateTime(start) => {
            key.send_lifetime.set_starting(start);
            key.accept_lifetime.set_starting(start);
        },
        KeyChainKeyEntryChange::LifetimeSendAcceptLifetimeNoEndTime(op) => {
            key.send_lifetime.set_endless(op);
            key.accept_lifetime.set_endless(op);
        },
        KeyChainKeyEntryChange::LifetimeSendAcceptLifetimeDuration(seconds) => {
            key.send_lifetime.set_lasting(seconds);
            key.accept_lifetime.set_lasting(seconds);
        },
        KeyChainKeyEntryChange::LifetimeSendAcceptLifetimeEndDateTime(end) => {
            key.send_lifetime.set_ending(end);
            key.accept_lifetime.set_ending(end);
        },
        KeyChainKeyEntryChange::LifetimeSendLifetimeAlways(op) => {
            key.send_lifetime.set_always(op);
        },
        KeyChainKeyEntryChange::LifetimeSendLifetimeStartDateTime(start) => {
            key.send_lifetime.set_starting(start);
        },
        KeyChainKeyEntryChange::LifetimeSendLifetimeNoEndTime(op) => {
            key.send_lifetime.set_endless(op);
        },
        KeyChainKeyEntryChange::LifetimeSendLifetimeDuration(seconds) => {
            key.send_lifetime.set_lasting(seconds);
        },
        KeyChainKeyEntryChange::LifetimeSendLifetimeEndDateTime(end) => {
            key.send_lifetime.set_ending(end);
        },
        KeyChainKeyEntryChange::LifetimeAcceptLifetimeAlways(op) => {
            key.accept_lifetime.set_always(op);
        },
        KeyChainKeyEntryChange::LifetimeAcceptLifetimeStartDateTime(start) => {
            key.accept_lifetime.set_starting(start);
        },
        KeyChainKeyEntryChange::LifetimeAcceptLifetimeNoEndTime(op) => {
            key.accept_lifetime.set_endless(op);
        },
        KeyChainKeyEntryChange::LifetimeAcceptLifetimeDuration(seconds) => {
            key.accept_lifetime.set_lasting(seconds);
        },
        KeyChainKeyEntryChange::LifetimeAcceptLifetimeEndDateTime(end) => {
            key.accept_lifetime.set_ending(end);
        },
        KeyChainKeyEntryChange::CryptoAlgorithm(algo) => {
            key.data.algo = algo;
        },
        KeyChainKeyEntryChange::KeyStringKeystring(string) => {
            key.data.string = match string {
                Some(string) => string.as_str().as_bytes_vec(),
                None => Vec::new(),
            };
        },
        KeyChainKeyEntryChange::KeyStringHexadecimalString(string) => {
            key.data.string = match string {
                Some(string) => string,
                None => Vec::new(),
            };
        },
    }
}

/// The keys of a keychain, after a change of one of them. A change within one
/// that does not exist cannot be applied.
pub open spec fn keys_changed(
    keys: Map<u64, KeychainKeyView>,
    key_id: u64,
    change: KeyChainKeyChange,
) -> Option<Map<u64, KeychainKeyView>> {
    match change {
        KeyChainKeyChange::Create => Some(
            keys.insert(
                key_id,
                KeychainKeyView {
                    data: KeyView { id: key_id, algo: CryptoAlgo::ClearText, string: Seq::empty() },
                    send_lifetime: KeyLifetime { start: None, end: None },
                    accept_lifetime: KeyLifetime { start: None, end: None },
                },
            ),
        ),
        KeyChainKeyChange::Delete => Some(keys.remove(key_id)),
        KeyChainKeyChange::Entry(change) => if keys.contains_key(key_id) {
            Some(keys.insert(key_id, key_entry_changed(keys[key_id], change)))
        } else {
            None
        },
    }
}

/// Whether the points in time of a change can be represented.
pub open spec fn keys_change_valid(
    keys: Map<u64, KeychainKeyView>,
    key_id: u64,
    change: KeyChainKeyChange,
) -> bool {
    match change {
        KeyChainKeyChange::Entry(change) => keys.contains_key(key_id) ==> key_entry_valid(keys[key_id], change),
        _ => true,
    }
}

/// Applies a change of a key of a keychain.
pub fn apply_key_chain_key(keychain: &mut Keychain, key_id: u64, change: KeyChainKeyChange) -> (r: Result<
    (),
    ApplyError,
>)
    requires
        old(keychain)@.valid(),
        keys_change_valid(old(keychain)@.keys, key_id, change),
    ensures
        final(keychain)@.valid(),
        match keys_changed(old(keychain)@.keys, key_id, change) {
            Some(keys) => r is Ok && final(keychain)@ == (KeychainView { keys, ..old(keychain)@ }),
            None => r == Err::<(), ApplyError>(ApplyError::EntryNotFound) && final(keychain)@ == old(keychain)@,
        },
{
    let ghost before = keychain.keys@;
    match change {
        KeyChainKeyChange::Create => {
            // The mandatory crypto-algorithm leaf is applied as a separate
            // change within the same commit, overwriting the placeholder
            // algorithm before any event fires.
            let key = KeychainKey::new(Key::new(key_id, CryptoAlgo::ClearText, Vec::new()));
            proof {
                views_insert(before, key_id, key);
            }
            keychain.keys.insert(key_id, key);
        },
        KeyChainKeyChange::Delete => {
            keychain.keys.remove(&key_id);
            proof {
                views_remove(before, key_id);
            }
        },
        KeyChainKeyChange::Entry(change) => {
            let key = match keychain.keys.get_mut(&key_id) {
                Some(key) => key,
                None => {
                    return Err(ApplyError::EntryNotFound);
                },
            };
            apply_key_entry(key, change);
            proof {
                views_insert(before, key_id, *key);
            }
        },
    }
    Ok(())
}

/// The keychains and the queued events, after a change of one of the keychains.
/// Changes within entries that do not exist cannot be applied.
pub open spec fn keychains_changed(
    keychains: Map<Seq<char>, KeychainView>,
    q: Set<EventView>,
    name: Seq<char>,
    change: KeyChainChange,
) -> Option<(Map<Seq<char>, KeychainView>, Set<EventView>)> {
    match change {
        KeyChainChange::Create => Some((keychains.insert(name, Keychain::created(name)), q)),
        KeyChainChange::Delete => Some((keychains.remove(name), q.insert(EventView::KeychainDelete(name)))),
        KeyChainChange::Entry(change) => if keychains.contains_key(name) {
            match change {
                KeyChainEntryChange::Description(_) => Some((keychains, q)),
                KeyChainEntryChange::Key(key_id, change) => match keys_changed(keychains[name].keys, key_id, change) {
                    Some(keys) => Some(
                        (
                            keychains.insert(name, KeychainView { keys, ..keychains[name] }),
                            q.insert(EventView::KeychainChange(name)),
                        ),
                    ),
                    None => None,
                },
            }
        } else {
            None
        },
    }
}

/// Whether the points in time of a change can be represented.
pub open spec fn change_valid(
    keychains: Map<Seq<char>, KeychainView>,
    name: Seq<char>,
    change: KeyChainChange,
) -> bool {
    match change {
        KeyChainChange::Entry(KeyChainEntryChange::Key(key_id, change)) => keychains.contains_key(name)
            ==> keys_change_valid(keychains[name].keys, key_id, change),
        _ => true,
    }
}

fn apply_key_chain(
    keychains: &mut Table<String, Keychain>,
    name: String,
    change: KeyChainChange,
    event_queue: &mut OrdSet<Event>,
) -> (r: Result<(), ApplyError>)
    requires
        all_valid(views(old(keychains)@)),
        change_valid(views(old(keychains)@), name@, change),
    ensures
        all_valid(views(final(keychains)@)),
        match keychains_changed(views(old(keychains)@), old(event_queue)@, name@, change) {
            Some(s) => r is Ok && (views(final(keychains)@), final(event_queue)@) == s,
            None => r == Err::<(), ApplyError>(ApplyError::EntryNotFound) && views(final(keychains)@) == views(
                old(keychains)@,
            ) && final(event_queue)@ == old(event_queue)@,
        },
{
    let ghost before = keychains@;
    match change {
        KeyChainChange::Create => {
            let keychain = Keychain::new(name.clone());
            proof {
                views_insert(before, name@, keychain);
            }
            keychains.insert(name, keychain);
        },
        KeyChainChange::Delete => {
            keychains.remove(&name);
            proof {
                views_remove(before, name@);
            }
            event_queue.insert(Event::KeychainDelete(name));
        },
        KeyChainChange::Entry(change) => {
            let keychain = match keychains.get_mut(&name) {
                Some(keychain) => keychain,
                None => {
                    return Err(ApplyError::EntryNotFound);
                },
            };
            let ghost k0 = *keychain;
            match change {
                KeyChainEntryChange::Description(_) => {
                    proof {
                        views_insert(before, name@, *keychain);
                        assert(views(before).insert(name@, k0@) =~= views(before));
                    }
                },
                KeyChainEntryChange::Key(key_id, change) => {
                    let r = apply_key_chain_key(keychain, key_id, change);
                    proof {
                        views_insert(before, name@, *keychain);
                        assert(views(before).insert(name@, k0@) =~= views(before));
                    }
                    if r.is_err() {
                        return r;
                    }
                    event_queue.insert(Event::KeychainChange(name));
                },
            }
        },
    }
    Ok(())
}

/// Applies a change of the configuration, and queues what is to be done about
/// it.
pub fn apply_master(master: &mut Master, change: ConfigChange, event_queue: &mut OrdSet<Event>) -> (r: Result<
    (),
    ApplyError,
>)
    requires
        all_valid(views(old(master).keychains@)),
        ({
            let ConfigChange::KeyChain(name, change) = change;
            change_valid(views(old(master).keychains@), name@, change)
        }),
    ensures
        all_valid(views(final(master).keychains@)),
        final(master).digest_sizes == old(master).digest_sizes,
        ({
            let ConfigChange::KeyChain(name, change) = change;
            match keychains_changed(views(old(master).keychains@), old(event_queue)@, name@, change) {
                Some(s) => r is Ok && (views(final(master).keychains@), final(event_queue)@) == s,
                None => r == Err::<(), ApplyError>(ApplyError::EntryNotFound) && views(final(master).keychains@)
                    == views(old(master).keychains@) && final(event_queue)@ == old(event_queue)@,
            }
        }),
{
    let ConfigChange::KeyChain(name, change) = change;
    apply_key_chain(&mut master.keychains, name, change, event_queue)
}

// ===== events =====

/// Whether the size is the largest one of the digests of the keys, or zero
/// where there are none.
pub open spec fn largest_digest(keys: Map<u64, KeychainKeyView>, sizes: DigestSizes, n: u8) -> bool {
    &&& forall|id: u64| #[trigger] keys.contains_key(id) ==> sizes.of(keys[id].data.algo) <= n
    &&& n == 0 || exists|id: u64| #[trigger] keys.contains_key(id) && sizes.of(keys[id].data.algo) == n
}

impl Keychain {
    fn largest_digest(&self, sizes: &DigestSizes) -> (n: u8)
        ensures
            largest_digest(self@.keys, *sizes, n),
    {
        let ghost ids = self.keys.keys();
        let ghost m = self@.keys;
        let len: usize = self.keys.len();
        let mut n: u8 = 0;
        let mut i: usize = 0;
        while i < len
            invariant
                i <= len,
                len == self.keys.keys().len(),
                ids == self.keys.keys(),
                m == self@.keys,
                forall|x: int| 0 <= x < i ==> sizes.of(m[#[trigger] ids[x]].data.algo) <= n,
                n == 0 || exists|id: u64| #[trigger] m.contains_key(id) && sizes.of(m[id].data.algo) == n,
            decreases len - i,
        {
            let key = self.keys.value_at(i);
            let size: u8 = sizes.size(key.data.algo);
            assert(m.contains_key(ids[i as int]));
            if size > n {
                n = size;
            }
            i = i + 1;
        }
        proof {
            assert(self.keys.keys_sorted());
            assert forall|id: u64| #[trigger] m.contains_key(id) implies sizes.of(m[id].data.algo) <= n by {
                assert(ids.to_set().contains(id));
                let x = choose|x: int| 0 <= x < ids.len() && ids[x] == id;
                assert(sizes.of(m[ids[x]].data.algo) <= n);
            }
        }
        n
    }
}

/// What protocols are told of.
pub enum Action {
    /// The keychain has been updated.
    KeychainUpd(Arc<Keychain>),
    /// The keychain has been deleted.
    KeychainDel(String),
}

/// What the keychains are after an event was processed at the given time, and
/// what protocols are told of.
pub open spec fn event_handled(
    master: Master,
    next: Master,
    event: EventView,
    now: DateTime,
    action: Option<Action>,
) -> bool {
    let keychains = views(master.keychains@);
    &&& next.digest_sizes == master.digest_sizes
    &&& match event {
        EventView::KeychainChange(name) => if keychains.contains_key(name) {
            exists|max_digest_size: u8|
                {
                    let keychain = KeychainView { max_digest_size, last_modified: Some(now), ..keychains[name] };
                    &&& #[trigger] largest_digest(keychains[name].keys, master.digest_sizes, max_digest_size)
                    &&& views(next.keychains@) == keychains.insert(name, keychain)
                    &&& action matches Some(Action::KeychainUpd(k)) && k@ == keychain
                }
        } else {
            action is None && views(next.keychains@) == keychains
        },
        EventView::KeychainDelete(name) => {
            &&& views(next.keychains@) == keychains
            &&& action matches Some(Action::KeychainDel(n)) && n@ == name
        },
    }
}

/// Processes a queued event, at the given time. Returns what protocols are told
/// of, if anything.
pub fn process_event(master: &mut Master, event: Event, now: DateTime) -> (action: Option<Action>)
    ensures
        event_handled(*old(master), *final(master), event@, now, action),
{
    let ghost before = master.keychains@;
    match event {
        Event::KeychainChange(name) => {
            let sizes = master.digest_sizes;
            let keychain = match master.keychains.get_mut(&name) {
                Some(keychain) => keychain,
                None => {
                    return None;
                },
            };

            // Update timestamp of the most recent update.
            keychain.last_modified = Some(now);

            // Update maximum digest size.
            let n: u8 = keychain.largest_digest(&sizes);
            keychain.max_digest_size = n;

            // Create a reference-counted copy of the keychain to be shared
            // among all protocol instances.
            let keychain_copy = Arc::new(keychain.copy());
            proof {
                views_insert(before, name@, *keychain);
                assert(largest_digest(views(before)[name@].keys, sizes, n));
            }

            // Notify protocols that the keychain has been updated.
            Some(Action::KeychainUpd(keychain_copy))
        },
        Event::KeychainDelete(name) => Some(Action::KeychainDel(name)),
    }
}

// ===== laws =====

/// The largest digest is unique.
pub proof fn largest_digest_unique(keys: Map<u64, KeychainKeyView>, sizes: DigestSizes, n: u8, m: u8)
    requires
        largest_digest(keys, sizes, n),
        largest_digest(keys, sizes, m),
    ensures
        n == m,
{
    if n > 0 {
        let id = choose|id: u64| #[trigger] keys.contains_key(id) && sizes.of(keys[id].data.algo) == n;
        assert(keys.contains_key(id));
    }
    if m > 0 {
        let id = choose|id: u64| #[trigger] keys.contains_key(id) && sizes.of(keys[id].data.algo) == m;
        assert(keys.contains_key(id));
    }
}

/// A lifetime that is set to last from its start ends that much later, and one
/// that is then made always valid has no limits left.
pub proof fn duration_follows_start(l: KeyLifetime, start: DateTime, seconds: u32)
    ensures
        l.starting(Some(start)).lasting(Some(seconds)) == (KeyLifetime {
            start: Some(start),
            end: Some(start.plus(seconds)),
        }),
        l.starting(Some(start)).lasting(Some(seconds)).always(ConfigOp::Create) == (KeyLifetime {
            start: None,
            end: None,
        }),
{
}

/// A change of a lifetime, whichever lifetime it is.
pub enum LifetimeChange {
    Always(ConfigOp),
    StartDateTime(Option<DateTime>),
    NoEndTime(ConfigOp),
    Duration(Option<u32>),
    EndDateTime(Option<DateTime>),
}

impl LifetimeChange {
    /// The change of the lifetime for sending.
    pub open spec fn of_send(self) -> KeyChainKeyEntryChange {
        match self {
            LifetimeChange::Always(op) => KeyChainKeyEntryChange::LifetimeSendLifetimeAlways(op),
            LifetimeChange::StartDateTime(start) => KeyChainKeyEntryChange::LifetimeSendLifetimeStartDateTime(start),
            LifetimeChange::NoEndTime(op) => KeyChainKeyEntryChange::LifetimeSendLifetimeNoEndTime(op),
            LifetimeChange::Duration(seconds) => KeyChainKeyEntryChange::LifetimeSendLifetimeDuration(seconds),
            LifetimeChange::EndDateTime(end) => KeyChainKeyEntryChange::LifetimeSendLifetimeEndDateTime(end),
        }
    }

    /// The change of the lifetime for accepting.
    pub open spec fn of_accept(self) -> KeyChainKeyEntryChange {
        match self {
            LifetimeChange::Always(op) => KeyChainKeyEntryChange::LifetimeAcceptLifetimeAlways(op),
            LifetimeChange::StartDateTime(start) => {
                KeyChainKeyEntryChange::LifetimeAcceptLifetimeStartDateTime(start)
            },
            LifetimeChange::NoEndTime(op) => KeyChainKeyEntryChange::LifetimeAcceptLifetimeNoEndTime(op),
            LifetimeChange::Duration(seconds) => KeyChainKeyEntryChange::LifetimeAcceptLifetimeDuration(seconds),
            LifetimeChange::EndDateTime(end) => KeyChainKeyEntryChange::LifetimeAcceptLifetimeEndDateTime(end),
        }
    }

    /// The change of both lifetimes.
    pub open spec fn of_both(self) -> KeyChainKeyEntryChange {
        match self {
            LifetimeChange::Always(op) => KeyChainKeyEntryChange::LifetimeSendAcceptLifetimeAlways(op),
            LifetimeChange::StartDateTime(start) => {
                KeyChainKeyEntryChange::LifetimeSendAcceptLifetimeStartDateTime(start)
            },
            LifetimeChange::NoEndTime(op) => KeyChainKeyEntryChange::LifetimeSendAcceptLifetimeNoEndTime(op),
            LifetimeChange::Duration(seconds) => KeyChainKeyEntryChange::LifetimeSendAcceptLifetimeDuration(seconds),
            LifetimeChange::EndDateTime(end) => KeyChainKeyEntryChange::LifetimeSendAcceptLifetimeEndDateTime(end),
        }
    }
}

/// Changes of the lifetime for sending leave that for accepting alone, and the
/// other way round; no change of a lifetime touches what the key is made of, nor
/// any other key.
pub proof fn lifetimes_are_apart(keys: Map<u64, KeychainKeyView>, id: u64, other: u64, change: LifetimeChange)
    requires
        keys.contains_key(id),
    ensures
        key_entry_changed(keys[id], change.of_send()).accept_lifetime == keys[id].accept_lifetime,
        key_entry_changed(keys[id], change.of_accept()).send_lifetime == keys[id].send_lifetime,
        key_entry_changed(keys[id], change.of_send()).data == keys[id].data,
        key_entry_changed(keys[id], change.of_accept()).data == keys[id].data,
        key_entry_changed(keys[id], change.of_both()).data == keys[id].data,
        other != id && keys.contains_key(other) ==> {
            &&& keys_changed(keys, id, KeyChainKeyChange::Entry(change.of_send()))->0[other] == keys[other]
            &&& keys_changed(keys, id, KeyChainKeyChange::Entry(change.of_accept()))->0[other] == keys[other]
            &&& keys_changed(keys, id, KeyChainKeyChange::Entry(change.of_both()))->0[other] == keys[other]
        },
{
}

/// Changing both lifetimes of a key gives the same keychain as changing that for
/// sending and then that for accepting, and can be done exactly if these can.
pub proof fn both_lifetimes_change_together(keys: Map<u64, KeychainKeyView>, id: u64, change: LifetimeChange)
    requires
        keys.contains_key(id),
    ensures
        keys_changed(keys, id, KeyChainKeyChange::Entry(change.of_send())) is Some,
        keys_changed(keys, id, KeyChainKeyChange::Entry(change.of_both())) == keys_changed(
            keys_changed(keys, id, KeyChainKeyChange::Entry(change.of_send()))->0,
            id,
            KeyChainKeyChange::Entry(change.of_accept()),
        ),
        keys_change_valid(keys, id, KeyChainKeyChange::Entry(change.of_both())) <==> keys_change_valid(
            keys,
            id,
            KeyChainKeyChange::Entry(change.of_send()),
        ) && keys_change_valid(
            keys_changed(keys, id, KeyChainKeyChange::Entry(change.of_send()))->0,
            id,
            KeyChainKeyChange::Entry(change.of_accept()),
        ),
{
    let sent = keys_changed(keys, id, KeyChainKeyChange::Entry(change.of_send()))->0;
    let both = keys_changed(keys, id, KeyChainKeyChange::Entry(change.of_both()))->0;
    let apart = keys_changed(sent, id, KeyChainKeyChange::Entry(change.of_accept()))->0;
    assert(both =~= apart);
}

/// The digest size of an algorithm is the one given for it.
pub proof fn each_algorithm_has_its_size(sizes: DigestSizes)
    ensures
        sizes.of(CryptoAlgo::ClearText) == sizes.clear_text,
        sizes.of(CryptoAlgo::Md5) == sizes.md5,
        sizes.of(CryptoAlgo::HmacSha1) == sizes.hmac_sha1,
        sizes.of(CryptoAlgo::HmacSha256) == sizes.hmac_sha256,
        sizes.of(CryptoAlgo::HmacSha384) == sizes.hmac_sha384,
        sizes.of(CryptoAlgo::HmacSha512) == sizes.hmac_sha512,
{
}

/// No key has a larger digest than the largest, and one of them has it, unless there
/// are none.
pub proof fn largest_digest_covers_all_keys(keys: Map<u64, KeychainKeyView>, sizes: DigestSizes, n: u8, id: u64)
    requires
        largest_digest(keys, sizes, n),
    ensures
        keys.contains_key(id) ==> n >= sizes.of(keys[id].data.algo),
        n > 0 ==> exists|k: u64| #[trigger] keys.contains_key(k) && sizes.of(keys[k].data.algo) == n,
{
}

/// A time some seconds later is that many seconds later, in the same zone. A leap
/// second is over by then.
pub proof fn seconds_later(t: DateTime, seconds: u32)
    requires
        t.valid(),
        t.reaches(seconds),
    ensures
        t.plus(seconds).secs == t.secs + seconds,
        t.plus(seconds).offset == t.offset,
        t.nanos < 1_000_000_000 ==> t.plus(seconds).nanos == t.nanos,
        t.nanos >= 1_000_000_000 && seconds > 0 ==> t.plus(seconds).nanos == t.nanos - 1_000_000_000,
        t.plus(0) == t,
{
}

/// Each way to set a lifetime changes its own limit: always drops both, a start or an
/// end is taken as given, no end drops the end, and a duration counts from the start.
/// Taking "always" or "no end" back changes nothing.
pub proof fn lifetimes_are_set_as_given(l: KeyLifetime, t: Option<DateTime>, s: DateTime, seconds: u32)
    ensures
        l.always(ConfigOp::Create).start is None && l.always(ConfigOp::Create).end is None,
        l.always(ConfigOp::Delete) == l,
        l.starting(t).start == t && l.starting(t).end == l.end,
        l.ending(t).end == t && l.ending(t).start == l.start,
        l.endless(ConfigOp::Create).end is None && l.endless(ConfigOp::Create).start == l.start,
        l.endless(ConfigOp::Delete) == l,
        l.start == Some(s) ==> l.lasting(Some(seconds)).end == Some(s.plus(seconds)) && l.lasting(Some(seconds)).start
            == l.start,
        l.start is None ==> l.lasting(Some(seconds)) == l,
        l.lasting(None) == l,
{
}

/// Each lifetime of a key follows its own changes.
pub proof fn lifetime_changes_reach_their_lifetime(
    k: KeychainKeyView,
    op: ConfigOp,
    t: Option<DateTime>,
    seconds: Option<u32>,
)
    ensures
        key_entry_changed(k, LifetimeChange::Always(op).of_send()).send_lifetime == k.send_lifetime.always(op),
        key_entry_changed(k, LifetimeChange::StartDateTime(t).of_send()).send_lifetime == k.send_lifetime.starting(t),
        key_entry_changed(k, LifetimeChange::NoEndTime(op).of_send()).send_lifetime == k.send_lifetime.endless(op),
        key_entry_changed(k, LifetimeChange::Duration(seconds).of_send()).send_lifetime == k.send_lifetime.lasting(
            seconds,
        ),
        key_entry_changed(k, LifetimeChange::EndDateTime(t).of_send()).send_lifetime == k.send_lifetime.ending(t),
        key_entry_changed(k, LifetimeChange::Always(op).of_accept()).accept_lifetime == k.accept_lifetime.always(op),
        key_entry_changed(k, LifetimeChange::StartDateTime(t).of_accept()).accept_lifetime
            == k.accept_lifetime.starting(t),
        key_entry_changed(k, LifetimeChange::NoEndTime(op).of_accept()).accept_lifetime == k.accept_lifetime.endless(
            op,
        ),
        key_entry_changed(k, LifetimeChange::Duration(seconds).of_accept()).accept_lifetime
            == k.accept_lifetime.lasting(seconds),
        key_entry_changed(k, LifetimeChange::EndDateTime(t).of_accept()).accept_lifetime == k.accept_lifetime.ending(
            t,
        ),
{
}

/// The algorithm and the string of a key are taken as configured, text as its octets,
/// and a string that is taken away leaves an empty one. Nothing else of the key changes.
pub proof fn key_material_is_taken_as_configured(
    k: KeychainKeyView,
    algo: CryptoAlgo,
    text: String,
    octet_string: Vec<u8>,
)
    ensures
        key_entry_changed(k, KeyChainKeyEntryChange::CryptoAlgorithm(algo)) == (KeychainKeyView {
            data: KeyView { id: k.data.id, algo, string: k.data.string },
            send_lifetime: k.send_lifetime,
            accept_lifetime: k.accept_lifetime,
        }),
        key_entry_changed(k, KeyChainKeyEntryChange::KeyStringKeystring(Some(text))) == (KeychainKeyView {
            data: KeyView { id: k.data.id, algo: k.data.algo, string: vstd::utf8::encode_utf8(text@) },
            send_lifetime: k.send_lifetime,
            accept_lifetime: k.accept_lifetime,
        }),
        key_entry_changed(k, KeyChainKeyEntryChange::KeyStringHexadecimalString(Some(octet_string)))
            == (KeychainKeyView {
            data: KeyView { id: k.data.id, algo: k.data.algo, string: octet_string@ },
            send_lifetime: k.send_lifetime,
            accept_lifetime: k.accept_lifetime,
        }),
        key_entry_changed(k, KeyChainKeyEntryChange::KeyStringKeystring(None)).data.string.len() == 0,
        key_entry_changed(k, KeyChainKeyEntryChange::KeyStringHexadecimalString(None)).data.string.len() == 0,
{
}

/// A new key has its own number, clear text without a string, and no limits to its
/// lifetimes. A deleted one is gone, and one that is not there cannot be changed. Other
/// keys stay.
pub proof fn keys_come_and_go(
    keys: Map<u64, KeychainKeyView>,
    id: u64,
    other: u64,
    change: KeyChainKeyEntryChange,
)
    requires
        other != id,
    ensures
        ({
            let r = keys_changed(keys, id, KeyChainKeyChange::Create);
            let k = r->0[id];
            &&& r is Some && r->0.contains_key(id)
            &&& k.data.id == id && k.data.algo == CryptoAlgo::ClearText && k.data.string.len() == 0
            &&& k.send_lifetime.start is None && k.send_lifetime.end is None
            &&& k.accept_lifetime.start is None && k.accept_lifetime.end is None
            &&& r->0.contains_key(other) == keys.contains_key(other) && r->0[other] == keys[other]
        }),
        ({
            let r = keys_changed(keys, id, KeyChainKeyChange::Delete);
            &&& r is Some && !r->0.contains_key(id)
            &&& r->0.contains_key(other) == keys.contains_key(other) && r->0[other] == keys[other]
        }),
        !keys.contains_key(id) ==> keys_changed(keys, id, KeyChainKeyChange::Entry(change)) is None,
        keys.contains_key(id) ==> {
            let r = keys_changed(keys, id, KeyChainKeyChange::Entry(change));
            &&& r is Some && r->0.contains_key(id) && r->0[id] == key_entry_changed(keys[id], change)
            &&& r->0.contains_key(other) == keys.contains_key(other) && r->0[other] == keys[other]
        },
{
}

/// A new keychain has its name and no keys. A deleted one is gone, and that is to be
/// told; so is every change of its keys. Other keychains stay.
pub proof fn keychains_come_and_go(
    keychains: Map<Seq<char>, KeychainView>,
    q: Set<EventView>,
    name: Seq<char>,
    other: Seq<char>,
    id: u64,
    change: KeyChainKeyChange,
    keys: Map<u64, KeychainKeyView>,
)
    requires
        other != name,
    ensures
        ({
            let r = keychains_changed(keychains, q, name, KeyChainChange::Create);
            let (m, p) = r->0;
            &&& r is Some && m.contains_key(name) && m[name].name == name && p == q
            &&& m[name].keys.dom() == Set::<u64>::empty() && m[name].max_digest_size == 0
            &&& m[name].last_modified is None
            &&& m.contains_key(other) == keychains.contains_key(other) && m[other] == keychains[other]
        }),
        ({
            let r = keychains_changed(keychains, q, name, KeyChainChange::Delete);
            let (m, p) = r->0;
            &&& r is Some && !m.contains_key(name) && p == q.insert(EventView::KeychainDelete(name))
            &&& m.contains_key(other) == keychains.contains_key(other) && m[other] == keychains[other]
        }),
        keychains.contains_key(name) && keys_changed(keychains[name].keys, id, change) == Some(keys) ==> {
            let r = keychains_changed(
                keychains,
                q,
                name,
                KeyChainChange::Entry(KeyChainEntryChange::Key(id, change)),
            );
            let (m, p) = r->0;
            &&& r is Some && m[name].keys == keys && m[name].name == keychains[name].name
            &&& p == q.insert(EventView::KeychainChange(name))
            &&& m.contains_key(other) == keychains.contains_key(other) && m[other] == keychains[other]
        },
        !keychains.contains_key(name) || keys_changed(keychains[name].keys, id, change) is None ==> keychains_changed(
            keychains,
            q,
            name,
            KeyChainChange::Entry(KeyChainEntryChange::Key(id, change)),
        ) is None,
{
}

/// Changed keychains are told before deleted ones.
pub proof fn changes_are_told_before_deletions(a: Seq<char>, b: Seq<char>)
    ensures
        crate::collections::lex_lt(
            <Event as crate::collections::Key>::code(EventView::KeychainChange(a)),
            <Event as crate::collections::Key>::code(EventView::KeychainDelete(b)),
        ),
{
}

/// An updated keychain is told with the time of the update and the size of its largest
/// digest, and its keys unchanged. A deleted one is told by its name.
pub proof fn updates_tell_the_keychain(
    master: Master,
    next: Master,
    name: Seq<char>,
    now: DateTime,
    action: Option<Action>,
)
    ensures
        event_handled(master, next, EventView::KeychainChange(name), now, action) && views(
            master.keychains@,
        ).contains_key(name) ==> {
            let k = views(next.keychains@)[name];
            &&& action is Some && action->0 is KeychainUpd
            &&& k.last_modified == Some(now)
            &&& largest_digest(k.keys, master.digest_sizes, k.max_digest_size)
            &&& k.keys == views(master.keychains@)[name].keys && k.name == views(master.keychains@)[name].name
        },
        event_handled(master, next, EventView::KeychainChange(name), now, action) && !views(
            master.keychains@,
        ).contains_key(name) ==> action is None,
        event_handled(master, next, EventView::KeychainDelete(name), now, action) ==> action is Some
            && action->0 is KeychainDel && views(next.keychains@) == views(master.keychains@),
{
}

} // verus!
