//! A user-space model of a small network stack: virtual devices, an
//! interrupt subsystem, deferred protocol dispatch, an ARP cache and an
//! IPv4 header codec.

pub mod ip;
pub mod arp;
pub mod irq;
pub mod net;
