//! Relay directory and selection engine for a minimal WireGuard VPN client:
//! a filter language over relay attributes, freshness and revalidation
//! decisions for the cached relay directory, capacity-weighted relay
//! selection, and the tool-invocation sequence that brings a tunnel up.

pub mod filter;
pub mod select;
pub mod cache;
pub mod tunnel;
