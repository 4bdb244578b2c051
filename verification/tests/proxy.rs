use malkuth::proxy::ProxyState;
use malkuth::ring::{Backend, BackendAddr};

fn be(id: &str, port: u16) -> Backend {
    Backend { addr: BackendAddr { ip: 0x7f00_0001, is_v6: false, port }, id: id.into() }
}

fn addr(port: u16) -> BackendAddr {
    BackendAddr { ip: 0x7f00_0001, is_v6: false, port }
}

#[test]
fn proxy_pick_is_sticky_until_expiry() {
    let mut st = ProxyState::new(1_000);
    assert_eq!(st.ttl_ms(), 1_000);
    assert!(st.pick("9.9.9.9", 0, &[]).is_none());
    st.set_backends(vec![be("a", 1), be("b", 2), be("c", 3)]);
    let first = st.pick("9.9.9.9", 100, &[]).unwrap();
    assert!(!first.id.is_empty());
    // within the ttl the sticky entry answers, with an empty id
    let again = st.pick("9.9.9.9", 500, &[]).unwrap();
    assert_eq!(again.addr, first.addr);
    assert!(again.id.is_empty());
    // after expiry the ring answers again (same owner, full id)
    let later = st.pick("9.9.9.9", 5_000, &[]).unwrap();
    assert_eq!(later.addr, first.addr);
    assert_eq!(later.id, first.id);
}

#[test]
fn proxy_skips_dead_and_invalidate_forgets() {
    let mut st = ProxyState::new(10_000);
    st.set_backends(vec![be("a", 1), be("b", 2)]);
    let first = st.pick("1.1.1.1", 0, &[]).unwrap();
    let dead = vec![first.addr];
    let other = st.pick("1.1.1.1", 1, &dead).unwrap();
    assert_ne!(other.addr, first.addr);
    assert!(!other.id.is_empty());
    // the cache now points at the survivor
    let cached = st.pick("1.1.1.1", 2, &[]).unwrap();
    assert_eq!(cached.addr, other.addr);
    assert!(cached.id.is_empty());
    st.invalidate("1.1.1.1");
    let fresh = st.pick("1.1.1.1", 3, &[]).unwrap();
    assert_eq!(fresh.addr, first.addr);
    assert!(st.pick("1.1.1.1", 4, &[addr(1), addr(2)]).is_none());
}

#[test]
fn proxy_drops_sticky_backend_that_left_the_ring() {
    let mut st = ProxyState::new(10_000);
    st.set_backends(vec![be("a", 1), be("b", 2)]);
    let first = st.pick("2.2.2.2", 0, &[]).unwrap();
    let keep = if first.addr.port == 1 { be("b", 2) } else { be("a", 1) };
    let keep_addr = keep.addr;
    st.set_backends(vec![keep]);
    assert_eq!(st.snapshot().backends().len(), 1);
    let moved = st.pick("2.2.2.2", 1, &[]).unwrap();
    assert_eq!(moved.addr, keep_addr);
}
