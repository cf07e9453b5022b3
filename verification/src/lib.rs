//! An embedded store of vectors for nearest-neighbour search.
//!
//! Vectors are kept by a numeric label in an engine that answers similarity
//! queries. This library guards the engine: it checks the length of every
//! vector before the engine sees it, grows the engine's capacity ahead of
//! insertions, takes images of the engine and restores them, and refills a
//! store from rows of an outside table. Beside the store by label stands a
//! store by tag, which keeps the mapping between tags and labels.
//!
//! - `store`: the store by label, `VexusIndex`.
//! - `capacity`: when a store grows, and by how much.
//! - `tags`, `tag_codec`: the mapping between tags and labels, and its bytes.
//! - `tag_store`: the store by tag, `TagIndex`.
//! - `persist`: the steps that put an artifact on durable storage.
//! - `recover`: a run that refills a store from the rows of a table.
//! - `engine`: the engine's operations and what is taken on trust of them.
//! - `error`: what can go wrong.
//! - `text_search`: the rules of a search through text.
//!
//! The library touches no file, table or lock. It lays out what is to be
//! written and takes what was read; a store is changed only by whoever
//! holds it alone.
pub mod capacity;
pub mod engine;
pub mod error;
pub mod persist;
pub mod recover;
pub mod store;
pub mod tag_codec;
pub mod tag_store;
pub mod tags;
pub mod text_search;

pub use error::{Step, VexusError};
pub use persist::FileStep;
pub use recover::{
    RecoverTask, RecoveryQuery, RecoveryReport, RecoveryRow, RecoveryState, Selection,
};
pub use store::{Neighbor, Room, SearchResult, VexusIndex, VexusStats};
pub use tag_store::{TagHit, TagIndex};
pub use tags::TagMap;
pub use text_search::default_context;
