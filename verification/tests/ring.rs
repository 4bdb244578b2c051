use malkuth::hashing::hash64;
use malkuth::ring::{Backend, BackendAddr, Ring};

fn be(id: &str, port: u16) -> Backend {
    Backend { addr: BackendAddr { ip: 0x7f00_0001, is_v6: false, port }, id: id.into() }
}

fn addr(port: u16) -> BackendAddr {
    BackendAddr { ip: 0x7f00_0001, is_v6: false, port }
}

#[test]
fn ring_routes_stably() {
    let ring = Ring::from_backends(vec![be("a", 1), be("b", 2), be("c", 3)]);
    let r1 = ring.route("1.2.3.4").unwrap().id.clone();
    let r2 = ring.route("1.2.3.4").unwrap().id.clone();
    assert_eq!(r1, r2);
}

#[test]
fn adding_backend_moves_few_keys() {
    let small = Ring::from_backends(vec![be("a", 1), be("b", 2)]);
    let big = Ring::from_backends(vec![be("a", 1), be("b", 2), be("c", 3)]);
    let keys: Vec<String> = (0..500).map(|i| format!("10.0.0.{i}")).collect();
    let mut moved = 0;
    for k in &keys {
        if small.route(k).map(|b| b.id.clone()) != big.route(k).map(|b| b.id.clone()) {
            moved += 1;
        }
    }
    assert!(moved < 280, "too many keys moved: {moved}");
}

#[test]
fn route_excluding_skips_dead() {
    let ring = Ring::from_backends(vec![be("a", 1), be("b", 2)]);
    let dead = vec![addr(1)];
    for k in &["x", "y", "z"] {
        let b = ring.route_excluding(k, &dead).unwrap();
        assert_ne!(b.addr.port, 1);
    }
}

#[test]
fn added_backend_only_takes_keys() {
    let small = Ring::from_backends(vec![be("a", 1), be("b", 2)]);
    let big = Ring::from_backends(vec![be("a", 1), be("b", 2), be("c", 3)]);
    for i in 0..300 {
        let k = format!("192.168.1.{i}");
        let s = small.route(&k).unwrap().id.clone();
        let b = big.route(&k).unwrap().id.clone();
        assert!(b == s || b == "c");
    }
}

#[test]
fn empty_ring_and_all_dead() {
    let empty = Ring::default();
    assert!(empty.route("k").is_none());
    assert!(empty.route_excluding("k", &[]).is_none());
    let ring = Ring::from_backends(vec![be("a", 1), be("b", 2)]);
    assert!(ring.route_excluding("k", &[addr(1), addr(2)]).is_none());
    let owner = ring.route("k").unwrap().addr;
    assert_eq!(ring.route_excluding("k", &[]).unwrap().addr, owner);
    assert_eq!(ring.backends().len(), 2);
}

#[test]
fn sticky_pick_prefers_live_mapping() {
    let ring = Ring::from_backends(vec![be("a", 1), be("b", 2)]);
    // a live sticky entry wins, with nothing new to remember
    let (b, rem) = ring.pick_sticky("1.2.3.4", Some((addr(2), 100)), 50, 10, &[]).unwrap();
    assert_eq!(b.addr, addr(2));
    assert_eq!(b.id, "");
    assert_eq!(rem, None);
    // an expired entry falls back to the ring and is refreshed
    let owner = ring.route("1.2.3.4").unwrap().addr;
    let (b, rem) = ring.pick_sticky("1.2.3.4", Some((addr(2), 100)), 100, 10, &[]).unwrap();
    assert_eq!(b.addr, owner);
    assert_eq!(rem, Some(110));
    // a dead sticky backend is skipped
    let (b, _) = ring.pick_sticky("1.2.3.4", Some((addr(2), 100)), 50, 10, &[addr(2)]).unwrap();
    assert_eq!(b.addr, addr(1));
    // a sticky backend no longer on the ring is skipped
    let (b, _) = ring.pick_sticky("1.2.3.4", Some((addr(9), 100)), 50, 10, &[]).unwrap();
    assert_eq!(b.addr, owner);
    assert!(ring.pick_sticky("1.2.3.4", None, 0, 1, &[addr(1), addr(2)]).is_none());
}

#[test]
fn route_matches_first_point_at_or_after_key() {
    let ids = ["a", "b", "c", "d"];
    let ring = Ring::from_backends(ids.iter().enumerate().map(|(i, id)| be(id, i as u16 + 1)).collect());
    let mut points: Vec<(u64, &str)> = Vec::new();
    for id in ids {
        for vn in 0..160 {
            points.push((hash64(&format!("{id}/{vn}")), id));
        }
    }
    for k in 0..200 {
        let key = format!("192.168.0.{k}");
        let h = hash64(&key);
        let owner = points
            .iter()
            .filter(|(p, _)| *p >= h)
            .min_by_key(|(p, _)| *p)
            .or_else(|| points.iter().min_by_key(|(p, _)| *p))
            .unwrap()
            .1;
        assert_eq!(ring.route(&key).unwrap().id, owner);
    }
}

#[test]
fn small_rings_have_distinct_positions() {
    assert!(Ring::from_backends(vec![]).has_distinct_positions());
    let big = Ring::from_backends(vec![be("a", 1), be("b", 2), be("c", 3)]);
    assert!(big.has_distinct_positions());
}
