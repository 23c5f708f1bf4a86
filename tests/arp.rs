use rust_tcp_ip_stack::arp::{ARPCacheState, ARPContext};

const A: [u8; 6] = [0x02, 0x00, 0x00, 0x00, 0x00, 0x01];
const B: [u8; 6] = [0x02, 0x00, 0x00, 0x00, 0x00, 0x02];
const X: [u8; 4] = [192, 168, 1, 1];
const Y: [u8; 4] = [192, 168, 1, 2];

#[test]
fn insert_then_lookup_resolves() {
    let mut cache = ARPContext::new();
    cache.insert(A, X).unwrap();
    assert_eq!(cache.lookup(X), Some(A));
    assert_eq!(cache.lookup(Y), None);
}

#[test]
fn lookup_on_empty_cache_is_none() {
    let cache = ARPContext::new();
    assert_eq!(cache.lookup(X), None);
}

#[test]
fn delete_then_lookup_is_none() {
    let mut cache = ARPContext::new();
    cache.insert(A, X).unwrap();
    cache.delete(X);
    assert_eq!(cache.lookup(X), None);
}

#[test]
fn delete_of_absent_address_is_harmless() {
    let mut cache = ARPContext::new();
    cache.insert(A, X).unwrap();
    cache.delete(Y);
    assert_eq!(cache.lookup(X), Some(A));
    assert_eq!(cache.lookup(Y), None);
}

#[test]
fn update_on_absent_address_creates_nothing() {
    let mut cache = ARPContext::new();
    cache.update(B, X).unwrap();
    assert_eq!(cache.lookup(X), None);
    cache.update_at(B, X, 100);
    assert_eq!(cache.lookup(X), None);
}

#[test]
fn update_on_present_address_replaces_it() {
    let mut cache = ARPContext::new();
    cache.insert(A, X).unwrap();
    cache.update(B, X).unwrap();
    assert_eq!(cache.lookup(X), Some(B));
}

#[test]
fn update_revives_a_deleted_slot() {
    let mut cache = ARPContext::new();
    cache.insert_at(A, X, 10);
    cache.delete(X);
    cache.update_at(B, X, 20);
    assert_eq!(cache.lookup(X), Some(B));
}

#[test]
fn delete_then_insert_reuses_the_slot() {
    let mut cache = ARPContext::new();
    cache.insert(A, X).unwrap();
    cache.delete(X);
    cache.insert(B, X).unwrap();
    assert_eq!(cache.lookup(X), Some(B));
}

#[test]
fn insert_overwrites_existing_entry() {
    let mut cache = ARPContext::new();
    cache.insert_at(A, X, 0);
    cache.insert_at(B, X, 0);
    assert_eq!(cache.lookup(X), Some(B));
}

#[test]
fn insert_at_largest_time_does_not_overflow() {
    let mut cache = ARPContext::new();
    cache.insert_at(A, X, u64::MAX);
    assert_eq!(cache.lookup(X), Some(A));
}

#[test]
fn insert_sets_resolved_state_and_expiry() {
    let mut cache = ARPContext::new();
    cache.insert_at(A, X, 1_000);
    let e = cache.entry(X).unwrap();
    assert_eq!(e.state, ARPCacheState::Resolved);
    assert_eq!(e.timeout, 1_030);
    assert_eq!(e.hardware_address, A);
    assert_eq!(e.protocol_address, X);
    cache.insert_at(A, Y, u64::MAX - 5);
    assert_eq!(cache.entry(Y).unwrap().timeout, u64::MAX);
}

#[test]
fn insert_by_clock_sets_expiry_in_the_future() {
    let mut cache = ARPContext::new();
    cache.insert(A, X).unwrap();
    let e = cache.entry(X).unwrap();
    assert!(e.timeout > 1_600_000_000 + 30);
}

#[test]
fn delete_keeps_a_blank_free_slot() {
    let mut cache = ARPContext::new();
    cache.insert_at(A, X, 5);
    cache.delete(X);
    let e = cache.entry(X).unwrap();
    assert_eq!(e.state, ARPCacheState::Free);
    assert_eq!(e.hardware_address, [0; 6]);
    assert_eq!(e.timeout, 0);
    assert_eq!(e.protocol_address, X);
    assert!(cache.entry(Y).is_none());
}

#[test]
fn update_refreshes_expiry() {
    let mut cache = ARPContext::new();
    cache.insert_at(A, X, 5);
    cache.update_at(B, X, 100);
    let e = cache.entry(X).unwrap();
    assert_eq!(e.timeout, 130);
    assert_eq!(e.hardware_address, B);
}

#[test]
fn update_and_delete_keep_the_protocol_address() {
    let mut cache = ARPContext::new();
    cache.insert_at(A, X, 1);
    cache.update(B, X).unwrap();
    assert_eq!(cache.entry(X).unwrap().protocol_address, X);
    assert_eq!(cache.entry(X).unwrap().state, ARPCacheState::Resolved);
    cache.delete(X);
    assert_eq!(cache.entry(X).unwrap().protocol_address, X);
}
