//! Retrieval-and-archival pipeline for sticker and emoji packs: resolving a
//! user's reference to a pack, naming the per-request scratch workspace,
//! planning the archive entries, and the per-request coordinator that
//! sequences fetching, downloading, archiving, delivery and cleanup.

pub mod naming;
pub mod resolver;
pub mod archive;
pub mod coordinator;
