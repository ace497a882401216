//! A federation activity engine: the subsystem of a federated discussion
//! platform that turns local state changes into signed, addressed outbound
//! activities, delivers them with bounded retry, and ingests, authenticates,
//! deduplicates and applies inbound activities from remote servers.
//!
//! The engine works on plain values: URIs reduced to interned identifiers,
//! timestamps as seconds, document contents as opaque tokens. The transport
//! layer (HTTP, cryptography, storage) stays outside; it hands the engine the
//! decoded fields of each request together with the outcome of the raw
//! cryptographic signature check, and carries out the delivery attempts the
//! dispatcher schedules.

pub mod ids;
pub mod errors;
pub mod activity;
pub mod signature;
pub mod dedup;
pub mod store;
pub mod apply;
pub mod directory;
pub mod resolver;
pub mod ingest;
pub mod dispatch;
