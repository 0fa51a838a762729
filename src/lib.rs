//! Disc-ripping pipeline: the ripping tool's line protocol, the disc model built
//! from it, main-feature selection, progress estimation and the job pipeline.

pub mod text;
pub mod protocol;
pub mod model;
pub mod reader;
pub mod selector;
pub mod tracker;
pub mod devices;
pub mod rip;
pub mod encode;
pub mod job;
pub mod pipeline;
pub mod upload;
