//! Verified core of a broadcast-archiving library: it resolves content ids to
//! the files on disk that hold them, normalizes the three on-disk comment and
//! chat formats into one item model, and drives the external downloader's
//! retry, timeout and live-classification state machine. File and process
//! work stays outside; the library takes directory sweeps and process output
//! as plain values and is verified on them.

pub mod comments;
pub mod identity;
pub mod index;
pub mod json;
pub mod meta;
pub mod models;
pub mod parser;
pub mod paths;
pub mod probe;
pub mod reconcile;
pub mod snapshot;
pub mod store;
pub mod supervisor;
pub mod text;
pub mod thumbs;
pub mod window;
