use std::collections::HashMap;
use std::time::{Duration, SystemTime, SystemTimeError};

use vstd::prelude::*;

use crate::ip::{be32, be_u32};

verus! {

broadcast use vstd::std_specs::hash::group_hash_axioms;

/// Length in bytes of an Ethernet hardware address.
pub const ETHERNET_ADDRESS_LENGTH: u8 = 6;

/// Seconds for which a resolved entry stays valid.
pub const ARP_CACHE_TIMEOUT_SECONDS: u64 = 30;

#[verifier::external_type_specification]
#[verifier::external_body]
pub struct ExSystemTime(SystemTime);

#[verifier::external_type_specification]
#[verifier::external_body]
pub struct ExSystemTimeError(SystemTimeError);

/// Relies on `SystemTime::now`: reads the system clock.
#[verifier::external_body]
fn clock_now() -> (r: SystemTime) {
    SystemTime::now()
}

/// Relies on `SystemTime::duration_since`: the time elapsed since the Unix
/// epoch, or an error when the clock reads earlier than the epoch.
#[verifier::external_body]
fn since_unix_epoch(t: &SystemTime) -> (r: Result<Duration, SystemTimeError>) {
    t.duration_since(std::time::UNIX_EPOCH)
}

/// Relies on `Duration::as_secs`: the whole seconds of a duration.
#[verifier::external_body]
fn whole_seconds(d: &Duration) -> (r: u64) {
    d.as_secs()
}

#[derive(Debug, Clone, Copy, PartialEq, Eq, Structural)]
pub enum ARPCacheState {
    Free,
    Incomplete,
    Resolved,
    Static,
}

#[derive(Debug, Clone, Copy)]
pub struct ARPCacheEntry {
    pub hardware_address: [u8; 6],
    pub protocol_address: [u8; 4],
    pub state: ARPCacheState,
    /// Absolute expiry time, in seconds since the Unix epoch.
    pub timeout: u64,
}

/// Why the cache could not be changed.
#[derive(Debug, Clone, Copy, PartialEq, Eq, Structural)]
pub enum ARPError {
    /// The system clock reads earlier than the Unix epoch.
    ClockBeforeEpoch,
}

/// The key under which the cache files a protocol address.
pub open spec fn address_key(ip: [u8; 4]) -> u32 {
    be32(ip@[0], ip@[1], ip@[2], ip@[3]) as u32
}

/// Expiry time of an entry refreshed at `now`; it saturates at the largest time.
pub open spec fn expiry_at(now: u64) -> u64 {
    if now + ARP_CACHE_TIMEOUT_SECONDS <= u64::MAX {
        (now + ARP_CACHE_TIMEOUT_SECONDS) as u64
    } else {
        u64::MAX
    }
}

/// The hardware address that the table resolves `ip` to: none where the key
/// is absent or its entry is free.
pub open spec fn resolved(m: Map<u32, ARPCacheEntry>, ip: [u8; 4]) -> Option<[u8; 6]> {
    let k = address_key(ip);
    if m.contains_key(k) && m[k].state != ARPCacheState::Free {
        Some(m[k].hardware_address)
    } else {
        None
    }
}

/// The table after `insert(hw, ip)` at time `now`.
pub open spec fn inserted(m: Map<u32, ARPCacheEntry>, hw: [u8; 6], ip: [u8; 4], now: u64) -> Map<
    u32,
    ARPCacheEntry,
> {
    m.insert(
        address_key(ip),
        ARPCacheEntry {
            hardware_address: hw,
            protocol_address: ip,
            state: ARPCacheState::Resolved,
            timeout: expiry_at(now),
        },
    )
}

/// The table after `update(hw, ip)` at time `now`: only an existing entry changes.
pub open spec fn updated(m: Map<u32, ARPCacheEntry>, hw: [u8; 6], ip: [u8; 4], now: u64) -> Map<
    u32,
    ARPCacheEntry,
> {
    let k = address_key(ip);
    if m.contains_key(k) {
        m.insert(
            k,
            ARPCacheEntry {
                hardware_address: hw,
                protocol_address: ip,
                state: ARPCacheState::Resolved,
                timeout: expiry_at(now),
            },
        )
    } else {
        m
    }
}

/// The table after `delete(ip)`: an existing entry keeps its slot, blanked and free.
pub open spec fn deleted(m: Map<u32, ARPCacheEntry>, ip: [u8; 4]) -> Map<u32, ARPCacheEntry> {
    let k = address_key(ip);
    if m.contains_key(k) {
        m.insert(
            k,
            ARPCacheEntry {
                hardware_address: [0u8, 0u8, 0u8, 0u8, 0u8, 0u8],
                protocol_address: ip,
                state: ARPCacheState::Free,
                timeout: 0,
            },
        )
    } else {
        m
    }
}

/// A cache from protocol addresses to hardware addresses.
pub struct ARPContext {
    cache: HashMap<u32, ARPCacheEntry>,
}

impl View for ARPContext {
    type V = Map<u32, ARPCacheEntry>;

    closed spec fn view(&self) -> Map<u32, ARPCacheEntry> {
        self.cache@
    }
}

fn key_of(ip: [u8; 4]) -> (r: u32)
    ensures
        r == address_key(ip),
{
    be_u32(ip[0], ip[1], ip[2], ip[3])
}

impl ARPContext {
    pub fn new() -> (r: ARPContext)
        ensures
            r@ == Map::<u32, ARPCacheEntry>::empty(),
    {
        ARPContext { cache: HashMap::new() }
    }

    /// The hardware address that `ip` resolves to; `None` for an unknown or
    /// deleted address.
    pub fn lookup(&self, protocol_address: [u8; 4]) -> (r: Option<[u8; 6]>)
        ensures
            r == resolved(self@, protocol_address),
    {
        let k = key_of(protocol_address);
        match self.cache.get(&k) {
            Some(entry) => {
                if entry.state != ARPCacheState::Free {
                    Some(entry.hardware_address)
                } else {
                    None
                }
            },
            None => None,
        }
    }

    /// The entry filed under `ip`, free or not.
    pub fn entry(&self, protocol_address: [u8; 4]) -> (r: Option<ARPCacheEntry>)
        ensures
            r == (if self@.contains_key(address_key(protocol_address)) {
                Some(self@[address_key(protocol_address)])
            } else {
                None
            }),
    {
        let k = key_of(protocol_address);
        match self.cache.get(&k) {
            Some(entry) => Some(*entry),
            None => None,
        }
    }

    /// Files `ip` as resolved to `hw`, valid until `now` plus the timeout.
    pub fn insert_at(&mut self, hardware_address: [u8; 6], protocol_address: [u8; 4], now: u64)
        ensures
            final(self)@ == inserted(old(self)@, hardware_address, protocol_address, now),
    {
        let k = key_of(protocol_address);
        let entry = ARPCacheEntry {
            hardware_address,
            protocol_address,
            state: ARPCacheState::Resolved,
            timeout: now.saturating_add(ARP_CACHE_TIMEOUT_SECONDS),
        };
        self.cache.insert(k, entry);
    }

    /// Refreshes an existing entry for `ip` with `hw` at time `now`; an absent
    /// address is left absent.
    pub fn update_at(&mut self, hardware_address: [u8; 6], protocol_address: [u8; 4], now: u64)
        ensures
            final(self)@ == updated(old(self)@, hardware_address, protocol_address, now),
    {
        let k = key_of(protocol_address);
        if self.cache.contains_key(&k) {
            let entry = ARPCacheEntry {
                hardware_address,
                protocol_address,
                state: ARPCacheState::Resolved,
                timeout: now.saturating_add(ARP_CACHE_TIMEOUT_SECONDS),
            };
            self.cache.insert(k, entry);
        }
    }

    /// Invalidates the entry for `ip`: its slot stays, blanked and free.
    pub fn delete(&mut self, protocol_address: [u8; 4])
        ensures
            final(self)@ == deleted(old(self)@, protocol_address),
    {
        let k = key_of(protocol_address);
        if self.cache.contains_key(&k) {
            let entry = ARPCacheEntry {
                hardware_address: [0u8, 0u8, 0u8, 0u8, 0u8, 0u8],
                protocol_address,
                state: ARPCacheState::Free,
                timeout: 0,
            };
            self.cache.insert(k, entry);
        }
    }

    /// `insert_at` at the current time of the system clock.
    pub fn insert(&mut self, hardware_address: [u8; 6], protocol_address: [u8; 4]) -> (r: Result<
        (),
        ARPError,
    >)
        ensures
            r.is_err() ==> final(self)@ == old(self)@,
            r.is_ok() ==> exists|now: u64|
                final(self)@ == inserted(old(self)@, hardware_address, protocol_address, now),
    {
        let now = unix_seconds()?;
        self.insert_at(hardware_address, protocol_address, now);
        Ok(())
    }

    /// `update_at` at the current time of the system clock. An absent address
    /// needs no clock: the call succeeds and changes nothing.
    pub fn update(&mut self, hardware_address: [u8; 6], protocol_address: [u8; 4]) -> (r: Result<
        (),
        ARPError,
    >)
        ensures
            !old(self)@.contains_key(address_key(protocol_address)) ==> r is Ok && final(self)@
                == old(self)@,
            r.is_err() ==> final(self)@ == old(self)@,
            r.is_ok() ==> exists|now: u64|
                final(self)@ == updated(old(self)@, hardware_address, protocol_address, now),
    {
        let k = key_of(protocol_address);
        if !self.cache.contains_key(&k) {
            assert(updated(old(self)@, hardware_address, protocol_address, 0) == old(self)@);
            return Ok(());
        }
        let now = unix_seconds()?;
        self.update_at(hardware_address, protocol_address, now);
        Ok(())
    }
}

/// Seconds since the Unix epoch by the system clock.
fn unix_seconds() -> (r: Result<u64, ARPError>) {
    let t = clock_now();
    match since_unix_epoch(&t) {
        Ok(d) => Ok(whole_seconds(&d)),
        Err(_) => Err(ARPError::ClockBeforeEpoch),
    }
}

/// A resolved address reads back: `insert(A, X)` then `lookup(X)` gives `A`.
pub proof fn law_insert_then_lookup(
    m: Map<u32, ARPCacheEntry>,
    hw: [u8; 6],
    ip: [u8; 4],
    now: u64,
)
    ensures
        resolved(inserted(m, hw, ip, now), ip) == Some(hw),
{
}

/// A deleted address no longer resolves: `delete(X)` then `lookup(X)` gives `None`.
pub proof fn law_delete_then_lookup(m: Map<u32, ARPCacheEntry>, ip: [u8; 4])
    ensures
        resolved(deleted(m, ip), ip) == None::<[u8; 6]>,
{
}

/// `update` creates nothing: on an address the table does not hold, the
/// table is unchanged and the address still does not resolve.
pub proof fn law_update_absent(m: Map<u32, ARPCacheEntry>, hw: [u8; 6], ip: [u8; 4], now: u64)
    requires
        !m.contains_key(address_key(ip)),
    ensures
        updated(m, hw, ip, now) == m,
        resolved(updated(m, hw, ip, now), ip) == None::<[u8; 6]>,
{
}

/// A deleted slot is reused: `delete(X)` then `insert(B, X)` resolves `X` to `B`.
pub proof fn law_delete_then_insert(
    m: Map<u32, ARPCacheEntry>,
    ip: [u8; 4],
    hw: [u8; 6],
    now: u64,
)
    ensures
        resolved(inserted(deleted(m, ip), hw, ip, now), ip) == Some(hw),
{
}

} // verus!
