use dnet_p2p::peers::PeerMap;

fn s(x: &str) -> String {
    x.to_string()
}

#[test]
fn insert_get_remove() {
    let mut m: PeerMap<u32> = PeerMap::new();
    assert_eq!(m.len(), 0);
    m.insert(s("a"), 1);
    m.insert(s("b"), 2);
    m.insert(s("a"), 3);
    assert_eq!(m.len(), 2);
    assert_eq!(m.get(&s("a")), Some(&3));
    assert_eq!(m.get(&s("b")), Some(&2));
    assert_eq!(m.get(&s("c")), None);
    assert!(m.contains_key(&s("b")));
    assert_eq!(m.remove(&s("a")), Some(3));
    assert_eq!(m.remove(&s("a")), None);
    assert!(!m.contains_key(&s("a")));
    assert_eq!(m.len(), 1);
    assert_eq!(m.entries().len(), 1);
}

#[test]
fn remove_stale_splits_the_table() {
    let mut m: PeerMap<u128> = PeerMap::new();
    m.insert(s("old"), 100);
    m.insert(s("edge"), 150);
    m.insert(s("new"), 190);
    m.insert(s("future"), 500);
    // at time 200 with timeout 50: "old" (200 - 100 = 100 > 50) is stale,
    // "edge" (exactly 50) is not, nor are the others.
    let mut stale = m.remove_stale(200, 50);
    stale.sort();
    assert_eq!(stale, vec![s("old")]);
    assert_eq!(m.len(), 3);
    assert_eq!(m.get(&s("edge")), Some(&150));
    assert_eq!(m.get(&s("future")), Some(&500));
    // a second cleanup at the same time finds nothing
    assert!(m.remove_stale(200, 50).is_empty());
    let mut later = m.remove_stale(1000, 50);
    later.sort();
    assert_eq!(later, vec![s("edge"), s("future"), s("new")]);
    assert_eq!(m.len(), 0);
}
