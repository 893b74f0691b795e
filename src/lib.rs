//! Identifies an audio compact disc, resolves its release metadata, and
//! decides the per-track steps of ripping it to tagged lossless files.
pub mod disc_id;
pub mod lookup;
pub mod metadata;
pub mod pipeline;
pub mod tags;
