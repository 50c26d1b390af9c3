//! An anonymous file relay: clients upload a file and receive an opaque
//! identifier; later requests fetch the file by that identifier.
//!
//! This crate holds the verified core of the relay: the blacklist filter,
//! the permissive cross-origin policy, the multipart body decoder, the
//! extension denylist, the identifier generator, the size cap, the audit
//! record encoding, and the typed parameter extractor.  The surrounding
//! HTTP server performs the actual network and disk I/O and hands this
//! library plain values.
//!
//! All request data is modelled as bytes (`Vec<u8>`), the form in which it
//! arrives off the wire.

pub mod blacklist;
pub mod handlers;
pub mod ident;
pub mod multipart;
pub mod params;
pub mod policy;
pub mod records;
pub mod scan;
