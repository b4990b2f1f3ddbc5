//! Client-side core of the Language Server Protocol for a terminal editor:
//! wire framing, per-language sessions with their request ledger and
//! document versions, the registry of running servers, the buffer lifecycle
//! policy, and the editor features fed by the servers (folding ranges,
//! language detection) together with the release check.

pub mod cache;
pub mod codec;
pub mod folding;
pub mod language;
pub mod ledger;
pub mod lifecycle;
pub mod manager;
pub mod release;
pub mod session;
pub mod table;
pub mod text;
pub mod versions;
