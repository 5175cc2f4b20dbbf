//! Structured-logging transport for a local journal daemon.
//!
//! Log entries are ordered sequences of (field, value) pairs.  Field names
//! are validated or sanitized against the journal's naming rules, entries
//! are serialized into a binary wire format with explicit length framing,
//! and the encoded buffer is delivered to the daemon over a Unix-domain
//! datagram socket.  When a datagram is rejected as too large, the same
//! buffer is handed over through a sealed memory file whose descriptor is
//! passed as ancillary data.

pub mod error;
pub mod field;
pub mod known;
pub mod memfd;
pub mod priority;
pub mod socket;
pub mod wire;
pub mod writer;

pub use error::JournalError;
pub use field::Field;
pub use field::OwnedField;
pub use priority::Priority;
pub use writer::JournalWriter;

