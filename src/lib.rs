//! Aggregation of pending change records into one version bump and one
//! changelog section.
pub mod ai;
pub mod authoring;
pub mod bump;
pub mod changelog;
pub mod changeset;
pub mod diff;
pub mod error;
pub mod listing;
pub mod record;
pub mod text;
pub mod version;
pub mod version_file;
