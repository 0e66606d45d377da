//! Verified core of TuneTagger: the decisions, text rules and report
//! rendering behind identifying MP3 files and writing clean ID3 tags.

pub mod text;
pub mod order;
pub mod unicode;
pub mod batch;
pub mod paths;
pub mod interactive;
pub mod model;
pub mod pipeline;
pub mod urls;
pub mod musicbrainz;
pub mod scoring;
pub mod tags;
pub mod naming;
pub mod apple;
pub mod errors;
pub mod songrec;
pub mod config;
pub mod commands;
