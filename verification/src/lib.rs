//! Finds the published versions of a package that have no tag yet.
//!
//! A changelog names the releases of a package, a registry knows when each
//! version was published and where its source archive lies, and that archive
//! records the commit it was built from. The library decides which releases
//! still need a tag and describes them, oldest first.
//!
//! - `detect` holds the detection itself: it says what it needs from outside
//!   and decides, reply by reply, how to go on.
//! - `archive` reads the commit out of a published archive.
//! - `version_resolution` turns the registry's listing into versions and
//!   looks them up.
//! - `chronology` puts the releases in the order of their publication.
//! - `upload_releases` forms the calls that create the hosted releases.
//! - `world` describes a whole detection against fixed surroundings, and
//!   `guarantees` states what holds of every such detection.
pub mod archive;
pub mod changelog;
pub mod chronology;
pub mod detect;
pub mod guarantees;
pub mod json;
pub mod timestamp;
pub mod upload_releases;
pub mod version_resolution;
pub mod world;

pub use crate::archive::extract_commit_hash;
