//! Keeps a desktop thumbnail cache consistent with the files it was made from.
//!
//! The library holds the rules of the purge daemon: which file types have a
//! thumbnailer, how a cached entry is named, which change notifications call
//! for a purge, and which cache entries go. Reading directories, watching the
//! file system and deleting files are left to the program around it.

pub mod cache_key;
pub mod events;
pub mod extensions;
pub mod path;
pub mod purge;
pub mod registry;
pub mod split;
pub mod text;
pub mod watch;
