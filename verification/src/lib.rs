//! Soji: the decision logic of a sticker picker, with its contracts.
use vstd::prelude::*;

pub mod clipboard;
pub mod database;
pub mod edits;
pub mod hashing;
pub mod ingest;
pub mod library;
pub mod media;
pub mod models;
pub mod names;
pub mod placement;
pub mod probe;
pub mod render;
pub mod search;
pub mod settings;
pub mod text;
pub mod watcher;
pub mod webp;

verus! {

} // verus!
