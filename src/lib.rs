//! Search and download orchestration for a tag-based image catalog.
//!
//! - `retry`, `generation`: when a failed fetch is tried again, and how work
//!   of a superseded request is recognised as stale.
//! - `fetch`: the per-item fetch task as a state machine, driven by a runner
//!   that performs the I/O it asks for.
//! - `search`, `download`, `viewer`: the orchestrators that fan tasks out and
//!   count their outcomes per item index.
//! - `preview_cache`: a bounded, least-recently-used cache of rendered
//!   thumbnails.
//! - `media`, `datasets`, `sources`, `settings`, `library`: resource checks,
//!   file names, tag text and tag lists.
//! - `item`, `text`, `tally`: shared data and helpers.

pub mod datasets;
pub mod download;
pub mod fetch;
pub mod generation;
pub mod item;
pub mod library;
pub mod media;
pub mod preview_cache;
pub mod retry;
pub mod search;
pub mod settings;
pub mod sources;
pub mod tags;
pub mod tally;
pub mod text;
pub mod viewer;
