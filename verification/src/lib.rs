//! Verified core of a network traffic sampling pipeline.
//!
//! Raw link-layer frames are decoded layer by layer (Ethernet, IPv4/IPv6,
//! TCP), segments of interest are classified (bare acknowledgements and TLS
//! ClientHello handshakes), ClientHello fields are extracted and condensed
//! into a deterministic fingerprint hash, and both endpoints are enriched
//! with the owning network operator through a longest-prefix-match database
//! built from compressed static blobs.

pub mod addr;
pub mod classify;
pub mod fingerprint;
pub mod frame;
pub mod lookup;
pub mod pipeline;
pub mod records;
pub mod tls;
