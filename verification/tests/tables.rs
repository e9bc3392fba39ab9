use holo::collections::{OrdSet, Table};
use holo::ip::{AddressFamily, IpAddr, IpNetwork};
use holo::prefix_table::PrefixTable;

fn v4(a: u8, b: u8, c: u8, d: u8) -> u32 {
    u32::from_be_bytes([a, b, c, d])
}

fn net(a: u8, b: u8, c: u8, d: u8, plen: u8) -> IpNetwork {
    IpNetwork { addr: IpAddr::V4(v4(a, b, c, d)), plen }
}

#[test]
fn tables_keep_their_keys_in_order() {
    let mut table = Table::new();
    assert_eq!(table.insert("b".to_owned(), 2), None);
    assert_eq!(table.insert("a".to_owned(), 1), None);
    assert_eq!(table.insert("ab".to_owned(), 3), None);
    assert_eq!(table.insert("b".to_owned(), 4), Some(2));
    assert_eq!(table.len(), 3);
    assert_eq!(table.key_at(0), "a");
    assert_eq!(table.key_at(1), "ab");
    assert_eq!(table.key_at(2), "b");
    assert_eq!(*table.value_at(2), 4);
    assert_eq!(table.remove(&"ab".to_owned()), Some(3));
    assert_eq!(table.remove(&"ab".to_owned()), None);
    assert!(table.contains_key(&"a".to_owned()));
    if let Some(value) = table.get_mut(&"a".to_owned()) {
        *value = 9;
    }
    assert_eq!(table.get(&"a".to_owned()), Some(&9));
}

#[test]
fn sets_behave_like_sets() {
    let mut a: OrdSet<u32> = OrdSet::new();
    assert!(a.insert(3));
    assert!(a.insert(1));
    assert!(!a.insert(3));
    assert_eq!(a.to_vec(), vec![1, 3]);
    let mut b = a.copy();
    assert!(a.same(&b));
    b.insert(2);
    assert!(a.is_subset(&b) && !b.is_subset(&a) && a.intersects(&b));
    b.subtract(&a);
    assert_eq!(b.to_vec(), vec![2]);
    b.extend(&a);
    assert_eq!(b.to_vec(), vec![1, 2, 3]);
    assert!(b.remove(&2) && !b.remove(&2));
    assert!(!b.is_empty());
}

#[test]
fn ipv4_networks_follow_their_masks() {
    let address = v4(10, 1, 2, 3);
    assert_eq!(IpNetwork::with_netmask(address, v4(255, 255, 240, 0)), Some(net(10, 1, 2, 3, 20)));
    assert_eq!(IpNetwork::with_netmask(address, 0), Some(net(10, 1, 2, 3, 0)));
    assert_eq!(IpNetwork::with_netmask(address, u32::MAX), Some(net(10, 1, 2, 3, 32)));
    assert_eq!(IpNetwork::with_netmask(address, v4(255, 0, 255, 0)), None);
    assert_eq!(net(10, 1, 2, 3, 20).apply_mask(), net(10, 1, 0, 0, 20));
    assert_eq!(net(10, 1, 2, 3, 0).apply_mask(), net(0, 0, 0, 0, 0));
    assert!(net(10, 1, 2, 3, 20).contains_v4(v4(10, 1, 15, 255)));
    assert!(!net(10, 1, 2, 3, 20).contains_v4(v4(10, 1, 16, 0)));
    assert_eq!(IpNetwork::new(IpAddr::V4(address), 33), None);
    assert_eq!(net(10, 0, 0, 0, 8).address_family(), AddressFamily::Ipv4);
}

#[test]
fn ipv6_networks_are_masked() {
    let address: u128 = 0x2001_0db8_0000_0001_0000_0000_0000_0007;
    let network = IpNetwork { addr: IpAddr::V6(address), plen: 64 };
    assert_eq!(
        network.apply_mask(),
        IpNetwork { addr: IpAddr::V6(0x2001_0db8_0000_0001_0000_0000_0000_0000), plen: 64 }
    );
    assert!(!network.contains_v4(0));
}

#[test]
fn prefixes_are_found_by_their_network() {
    let mut table = PrefixTable::new();
    assert!(table.insert(&net(10, 0, 0, 1, 24), "a").is_none());
    assert!(table.insert(&net(10, 0, 0, 0, 16), "b").is_none());
    let v6 = IpNetwork { addr: IpAddr::V6(1), plen: 0 };
    assert!(table.insert(&v6, "c").is_none());

    // The bits beyond the prefix length don't matter, the length does.
    assert_eq!(table.get(&net(10, 0, 0, 200, 24)), Some(&"a"));
    assert_eq!(table.get(&net(10, 0, 0, 200, 16)), Some(&"b"));
    assert_eq!(table.get(&net(10, 0, 0, 200, 25)), None);
    assert_eq!(table.get(&IpNetwork { addr: IpAddr::V6(77), plen: 0 }), Some(&"c"));
    assert_eq!(table.get(&net(0, 0, 0, 0, 0)), None);
    assert_eq!(table.len(), 3);

    assert_eq!(table.insert(&net(10, 0, 0, 2, 24), "d"), Some("a"));
    if let Some(value) = table.get_mut(&net(10, 0, 9, 9, 16)) {
        *value = "e";
    }
    assert_eq!(table.remove(&net(10, 0, 5, 5, 16)), Some("e"));
    assert_eq!(table.remove(&net(10, 0, 5, 5, 16)), None);
    assert!(table.contains_key(&net(10, 0, 0, 9, 24)));
    assert_eq!(table.len(), 2);
}
