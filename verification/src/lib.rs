//! Keeps a localisation catalogue in step with the packages of a source tree.
//!
//! The crate holds the rules of a synchronisation run and leaves every touch of
//! the file system and of the metadata generator to its caller. A run
//!
//! 1. finds the root of the tree above a starting directory ([`locate`]),
//! 2. picks the package directories among the entries of a walk ([`walk`]),
//! 3. judges how the generator ended for each of them ([`generator`]),
//! 4. takes up the descriptors that the generator left behind ([`collect`]) and
//!    merges them into the catalogue ([`catalog`]),
//! 5. and ends with the catalogue to write and the verdict of the run ([`run`]).

pub mod catalog;
pub mod collect;
pub mod generator;
pub mod json;
pub mod locate;
pub mod run;
pub mod text;
pub mod walk;
