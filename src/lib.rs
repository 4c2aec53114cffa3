//! Signed document assembly for municipal service invoices: an event-stream
//! XML model with a deterministic serializer, pluggable canonicalization,
//! digest and signature algorithms, and the record / batch signing protocol.

pub mod algorithms;
pub mod curl;
pub mod lote_rps;
pub mod money;
pub mod nfse;
pub mod protocolo;
pub mod rps;
pub mod signature;
pub mod utils;
pub mod xml;
pub mod yaml;
