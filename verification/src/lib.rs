//! Verified core of a folder-backed video editor: the project document,
//! its validation, the revision-checked command dispatcher, the media-job
//! table, the command-service routing and the small pure pieces of the
//! media pipeline.
pub mod time;
pub mod text;
pub mod ids;
pub mod project;
pub mod validation;
pub mod lookup;
pub mod split;
pub mod command;
pub mod laws;
pub mod jobs;
pub mod service;
pub mod native;
pub mod mcp;
pub mod media;
pub mod probe;
pub mod proxy;
pub mod keyframes;
pub mod render;
pub mod artifacts;
