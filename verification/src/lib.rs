//! Resolution of partially-specified font requests against a system font
//! database.
//!
//! A request is described by a [`property::FontProperty`], built with the
//! fluent [`property::FontPropertyBuilder`]. The request is translated into a
//! backend search pattern ([`pattern`]), the backend's answers are assembled
//! into an ordered result list ([`query`]), and a single best match can be
//! turned into a plan for reading the font file's bytes ([`loader`]).
//!
//! The backend itself (the system font database) is an external collaborator:
//! callers submit the patterns built here and feed the answers back as plain
//! values. Everything in this crate is verified.

pub mod loader;
pub mod order;
pub mod pattern;
pub mod property;
pub mod query;
