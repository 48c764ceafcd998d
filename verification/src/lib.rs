//! Refresh/consistency engine for an IP-geolocation service.
//!
//! Three independent binary datasets (ASN, city, country) are cached on disk,
//! refreshed by a background cycle, and queried concurrently. The library owns
//! the decision logic of the refresh cycle, the atomically replaceable triple
//! of loaded datasets, and the lookup path from a raw address string to a
//! typed outcome. Network and file transport stay outside; the library states
//! what must hold of every value those edges hand in.

pub mod config;
pub mod dataset;
pub mod ip;
pub mod kind;
pub mod refresh;
pub mod state;
