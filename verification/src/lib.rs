//! Core logic of a desktop-application hub's installation pipeline.
//!
//! The library contains the decision and derivation logic of the pipeline:
//! progress accounting for streamed copies and downloads, derivation of
//! file names and shortcut paths, the plans that the install, uninstall and
//! process-launch operations follow, and the preferences record with its
//! on-disk encoding. All file, network and process work is left to the
//! embedding application, which feeds plain values in and carries the
//! returned plans out.

pub mod acquire;
pub mod errors;
pub mod install;
pub mod launcher;
pub mod paths;
pub mod prefs;
pub mod prefs_codec;
pub mod progress;
pub mod shortcuts;
pub mod uninstall;
