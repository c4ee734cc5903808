use rustneedle::{HostMgr, Ipv4, KnownPair, Mac, NetPairList};

fn sample() -> HostMgr {
    HostMgr::new(
        KnownPair::new(Ipv4(192, 168, 0, 1), Mac(1, 2, 3, 4, 5, 6)),
        KnownPair::new(Ipv4(192, 168, 0, 9), Mac(6, 5, 4, 3, 2, 1)),
    )
}

#[test]
fn known_pair_holds_its_fields() {
    let pair = KnownPair::new(Ipv4(10, 1, 2, 3), Mac(9, 8, 7, 6, 5, 4));
    assert_eq!(pair.proto, Ipv4(10, 1, 2, 3));
    assert_eq!(pair.hardw, Mac(9, 8, 7, 6, 5, 4));
}

#[test]
fn ipv4_key_packs_octets() {
    assert_eq!(Ipv4(10, 0, 0, 1).key(), 0x0A000001);
    assert_eq!(Ipv4(255, 255, 255, 255).key(), 0xFFFFFFFF);
    assert_eq!(Ipv4(0, 0, 0, 0).key(), 0);
}

#[test]
fn new_manager_starts_with_given_pairs_and_empty_hosts() {
    let mgr = sample();
    assert_eq!(mgr.acquire_gateway(), KnownPair::new(Ipv4(192, 168, 0, 1), Mac(1, 2, 3, 4, 5, 6)));
    assert_eq!(mgr.acquire_myself(), KnownPair::new(Ipv4(192, 168, 0, 9), Mac(6, 5, 4, 3, 2, 1)));
    assert_eq!(mgr.acquire_nethosts().len(), 0);
}

#[test]
fn mutation_through_a_clone_is_seen_by_the_original() {
    let original = sample();
    let alias = original.clone();
    let newgate = KnownPair::new(Ipv4(172, 16, 0, 1), Mac(0xFF, 0, 0, 0, 0, 1));
    alias.set_gateway(newgate);
    assert_eq!(original.acquire_gateway(), newgate);
    // the other slots are untouched
    assert_eq!(original.acquire_myself(), alias.acquire_myself());
}

#[test]
fn slot_handles_alias_the_same_cell() {
    let mgr = sample();
    let handle = mgr.get_gateway();
    let newgate = KnownPair::new(Ipv4(172, 16, 5, 5), Mac(2, 2, 2, 2, 2, 2));
    *handle.lock().unwrap() = newgate;
    assert_eq!(mgr.acquire_gateway(), newgate);
}

#[test]
fn nethosts_slot_is_shared_too() {
    let mgr = sample();
    let alias = mgr.clone();
    let mut list = alias.acquire_nethosts();
    list.push(Ipv4(192, 168, 0, 40), None);
    alias.set_nethosts(list);
    assert_eq!(mgr.acquire_nethosts().len(), 1);
    assert_eq!(mgr.acquire_nethosts().get(0), Some(&Ipv4(192, 168, 0, 40)));
}

#[test]
fn net_pair_list_indexed_lookup() {
    let mut list = NetPairList::new();
    list.push(Ipv4(10, 0, 0, 7), Some(Mac(7, 7, 7, 7, 7, 7)));
    list.push(Ipv4(10, 0, 0, 8), None);
    list.push(Ipv4(10, 0, 0, 9), Some(Mac(9, 9, 9, 9, 9, 9)));
    assert_eq!(list.len(), 3);
    for i in 0..list.len() {
        assert_eq!(list.get(i), Some(&list.hosts()[i]));
    }
    assert_eq!(list.get(0), Some(&Ipv4(10, 0, 0, 7)));
    assert_eq!(list.get(2), Some(&Ipv4(10, 0, 0, 9)));
    assert_eq!(list.get(3), None);
    assert_eq!(list.get(100), None);
}

#[test]
fn net_pair_list_resolution_table() {
    let mut list = NetPairList::new();
    list.push(Ipv4(10, 0, 0, 7), Some(Mac(7, 7, 7, 7, 7, 7)));
    list.push(Ipv4(10, 0, 0, 8), None);
    let macs = list.macs();
    assert_eq!(macs.len(), 2);
    assert_eq!(macs.get(&Ipv4(10, 0, 0, 7).key()), Some(&Some(Mac(7, 7, 7, 7, 7, 7))));
    assert_eq!(macs.get(&Ipv4(10, 0, 0, 8).key()), Some(&None));
    assert_eq!(macs.get(&Ipv4(10, 0, 0, 99).key()), None);
}
