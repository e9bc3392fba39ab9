use holo::collections::{OrdSet, Table};
use holo::crypto::{CryptoAlgo, DigestSizes};
use holo::keychain::{
    apply_key_chain_key, apply_master, process_event, Action, ConfigChange, DateTime, Event, KeyChainChange,
    KeyChainEntryChange, KeyChainKeyChange, KeyChainKeyEntryChange, KeyLifetime, Keychain, Master,
};
use holo::northbound::configuration::ConfigOp;
use holo::northbound::error::ApplyError;

fn master() -> Master {
    Master {
        keychains: Table::new(),
        digest_sizes: DigestSizes {
            clear_text: 16,
            md5: 16,
            hmac_sha1: 20,
            hmac_sha256: 32,
            hmac_sha384: 48,
            hmac_sha512: 64,
        },
    }
}

fn kc(change: KeyChainChange) -> ConfigChange {
    ConfigChange::KeyChain("kc".to_owned(), change)
}

fn key(id: u64, change: KeyChainKeyChange) -> ConfigChange {
    kc(KeyChainChange::Entry(KeyChainEntryChange::Key(id, change)))
}

fn entry(id: u64, change: KeyChainKeyEntryChange) -> ConfigChange {
    key(id, KeyChainKeyChange::Entry(change))
}

fn at(secs: i64) -> DateTime {
    DateTime { secs, nanos: 0, offset: 3600 }
}

fn apply(master: &mut Master, events: &mut OrdSet<Event>, change: ConfigChange) {
    assert!(apply_master(master, change, events).is_ok());
}

fn with_key() -> (Master, OrdSet<Event>) {
    let mut master = master();
    let mut events = OrdSet::new();
    apply(&mut master, &mut events, kc(KeyChainChange::Create));
    apply(&mut master, &mut events, key(1, KeyChainKeyChange::Create));
    (master, events)
}

fn lifetimes(master: &Master) -> (KeyLifetime, KeyLifetime) {
    let key = master.keychains.get(&"kc".to_owned()).unwrap().keys.get(&1).unwrap();
    (key.send_lifetime, key.accept_lifetime)
}

#[test]
fn duration_is_counted_from_the_start() {
    let (mut master, mut events) = with_key();
    apply(
        &mut master,
        &mut events,
        entry(1, KeyChainKeyEntryChange::LifetimeSendLifetimeStartDateTime(Some(at(1_000_000)))),
    );
    apply(&mut master, &mut events, entry(1, KeyChainKeyEntryChange::LifetimeSendLifetimeDuration(Some(86_400))));

    let (send, accept) = lifetimes(&master);
    assert_eq!(send, KeyLifetime { start: Some(at(1_000_000)), end: Some(at(1_086_400)) });
    assert_eq!(accept, KeyLifetime { start: None, end: None });

    apply(&mut master, &mut events, entry(1, KeyChainKeyEntryChange::LifetimeSendLifetimeAlways(ConfigOp::Create)));
    assert_eq!(lifetimes(&master).0, KeyLifetime { start: None, end: None });
}

// A leap second is over once time goes on.
#[test]
fn duration_leaves_a_leap_second() {
    let (mut master, mut events) = with_key();
    let leap = DateTime { secs: 1_483_228_799, nanos: 1_250_000_000, offset: 0 };
    apply(
        &mut master,
        &mut events,
        entry(1, KeyChainKeyEntryChange::LifetimeAcceptLifetimeStartDateTime(Some(leap))),
    );
    apply(&mut master, &mut events, entry(1, KeyChainKeyEntryChange::LifetimeAcceptLifetimeDuration(Some(10))));
    assert_eq!(
        lifetimes(&master).1.end,
        Some(DateTime { secs: 1_483_228_809, nanos: 250_000_000, offset: 0 })
    );
}

#[test]
fn both_lifetimes_change_together() {
    let (mut master, mut events) = with_key();
    apply(
        &mut master,
        &mut events,
        entry(1, KeyChainKeyEntryChange::LifetimeSendAcceptLifetimeStartDateTime(Some(at(5)))),
    );
    apply(
        &mut master,
        &mut events,
        entry(1, KeyChainKeyEntryChange::LifetimeSendAcceptLifetimeEndDateTime(Some(at(9)))),
    );
    let both = KeyLifetime { start: Some(at(5)), end: Some(at(9)) };
    assert_eq!(lifetimes(&master), (both, both));

    apply(
        &mut master,
        &mut events,
        entry(1, KeyChainKeyEntryChange::LifetimeSendAcceptLifetimeNoEndTime(ConfigOp::Create)),
    );
    let endless = KeyLifetime { start: Some(at(5)), end: None };
    assert_eq!(lifetimes(&master), (endless, endless));
}

/// The shared lifetime is the one for sending and the one for accepting, in all
/// its forms.
#[test]
fn shared_lifetimes_are_both_lifetimes() {
    type Form = fn() -> [KeyChainKeyEntryChange; 3];
    let forms: [Form; 5] = [
        || {
            [
                KeyChainKeyEntryChange::LifetimeSendAcceptLifetimeAlways(ConfigOp::Create),
                KeyChainKeyEntryChange::LifetimeSendLifetimeAlways(ConfigOp::Create),
                KeyChainKeyEntryChange::LifetimeAcceptLifetimeAlways(ConfigOp::Create),
            ]
        },
        || {
            [
                KeyChainKeyEntryChange::LifetimeSendAcceptLifetimeStartDateTime(Some(at(7))),
                KeyChainKeyEntryChange::LifetimeSendLifetimeStartDateTime(Some(at(7))),
                KeyChainKeyEntryChange::LifetimeAcceptLifetimeStartDateTime(Some(at(7))),
            ]
        },
        || {
            [
                KeyChainKeyEntryChange::LifetimeSendAcceptLifetimeNoEndTime(ConfigOp::Create),
                KeyChainKeyEntryChange::LifetimeSendLifetimeNoEndTime(ConfigOp::Create),
                KeyChainKeyEntryChange::LifetimeAcceptLifetimeNoEndTime(ConfigOp::Create),
            ]
        },
        || {
            [
                KeyChainKeyEntryChange::LifetimeSendAcceptLifetimeDuration(Some(60)),
                KeyChainKeyEntryChange::LifetimeSendLifetimeDuration(Some(60)),
                KeyChainKeyEntryChange::LifetimeAcceptLifetimeDuration(Some(60)),
            ]
        },
        || {
            [
                KeyChainKeyEntryChange::LifetimeSendAcceptLifetimeEndDateTime(Some(at(9))),
                KeyChainKeyEntryChange::LifetimeSendLifetimeEndDateTime(Some(at(9))),
                KeyChainKeyEntryChange::LifetimeAcceptLifetimeEndDateTime(Some(at(9))),
            ]
        },
    ];
    let keychain = || {
        let mut keychain = Keychain::new("kc".to_owned());
        assert!(apply_key_chain_key(&mut keychain, 1, KeyChainKeyChange::Create).is_ok());
        let start = KeyChainKeyEntryChange::LifetimeSendLifetimeStartDateTime(Some(at(1)));
        assert!(apply_key_chain_key(&mut keychain, 1, KeyChainKeyChange::Entry(start)).is_ok());
        let start = KeyChainKeyEntryChange::LifetimeAcceptLifetimeStartDateTime(Some(at(2)));
        assert!(apply_key_chain_key(&mut keychain, 1, KeyChainKeyChange::Entry(start)).is_ok());
        keychain
    };
    let lifetimes = |keychain: &Keychain| {
        let key = keychain.keys.get(&1).unwrap();
        (key.send_lifetime, key.accept_lifetime)
    };
    for form in forms {
        let [both, send, accept] = form();
        let mut together = keychain();
        assert!(apply_key_chain_key(&mut together, 1, KeyChainKeyChange::Entry(both)).is_ok());
        let mut apart = keychain();
        let before = lifetimes(&apart);
        assert!(apply_key_chain_key(&mut apart, 1, KeyChainKeyChange::Entry(send)).is_ok());
        assert_eq!(lifetimes(&apart).1, before.1);
        let sent = lifetimes(&apart).0;
        assert!(apply_key_chain_key(&mut apart, 1, KeyChainKeyChange::Entry(accept)).is_ok());
        assert_eq!(lifetimes(&apart).0, sent);
        assert_eq!(lifetimes(&together), lifetimes(&apart));
    }
}

#[test]
fn key_strings_are_octets() {
    let (mut master, mut events) = with_key();
    apply(&mut master, &mut events, entry(1, KeyChainKeyEntryChange::KeyStringKeystring(Some("h\u{f6}lo".to_owned()))));
    let string = |master: &Master| {
        master.keychains.get(&"kc".to_owned()).unwrap().keys.get(&1).unwrap().data.string.clone()
    };
    assert_eq!(string(&master), vec![0x68, 0xc3, 0xb6, 0x6c, 0x6f]);
    apply(&mut master, &mut events, entry(1, KeyChainKeyEntryChange::KeyStringHexadecimalString(Some(vec![1, 255]))));
    assert_eq!(string(&master), vec![1, 255]);
    apply(&mut master, &mut events, entry(1, KeyChainKeyEntryChange::KeyStringKeystring(None)));
    assert!(string(&master).is_empty());
}

#[test]
fn largest_digest_is_found() {
    let (mut master, mut events) = with_key();
    apply(&mut master, &mut events, key(2, KeyChainKeyChange::Create));
    apply(&mut master, &mut events, entry(1, KeyChainKeyEntryChange::CryptoAlgorithm(CryptoAlgo::HmacSha384)));
    apply(&mut master, &mut events, entry(2, KeyChainKeyEntryChange::CryptoAlgorithm(CryptoAlgo::HmacSha1)));
    assert!(events.contains(&Event::KeychainChange("kc".to_owned())));

    match process_event(&mut master, Event::KeychainChange("kc".to_owned()), at(77)) {
        Some(Action::KeychainUpd(keychain)) => {
            assert_eq!(keychain.max_digest_size, 48);
            assert_eq!(keychain.last_modified, Some(at(77)));
            assert_eq!(keychain.keys.len(), 2);
        }
        _ => panic!("keychain was not updated"),
    }
    assert_eq!(master.keychains.get(&"kc".to_owned()).unwrap().max_digest_size, 48);
}

#[test]
fn deleted_keychains_are_withdrawn() {
    let (mut master, mut events) = with_key();
    apply(&mut master, &mut events, kc(KeyChainChange::Delete));
    assert_eq!(master.keychains.len(), 0);
    assert!(events.contains(&Event::KeychainDelete("kc".to_owned())));
    assert!(process_event(&mut master, Event::KeychainChange("kc".to_owned()), at(1)).is_none());
    match process_event(&mut master, Event::KeychainDelete("kc".to_owned()), at(1)) {
        Some(Action::KeychainDel(name)) => assert_eq!(name, "kc"),
        _ => panic!("keychain was not withdrawn"),
    }
}

#[test]
fn unknown_keychains_and_keys_cannot_change() {
    let mut master = master();
    let mut events = OrdSet::new();
    let change = key(1, KeyChainKeyChange::Create);
    assert_eq!(apply_master(&mut master, change, &mut events), Err(ApplyError::EntryNotFound));
    apply(&mut master, &mut events, kc(KeyChainChange::Create));
    let change = entry(1, KeyChainKeyEntryChange::CryptoAlgorithm(CryptoAlgo::Md5));
    assert_eq!(apply_master(&mut master, change, &mut events), Err(ApplyError::EntryNotFound));
}
