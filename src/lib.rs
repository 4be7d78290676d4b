//! Query and entry-cache logic for browsing a transparency log: an identity
//! search that yields candidate entry identifiers, a memo of resolved entries,
//! and the rendering of an entry's integration time.

pub mod timestamp;
pub mod controller;
pub mod cache;
