//! Planning and bookkeeping for turning a folder of audio tracks into one
//! chaptered audiobook container.

pub mod chapters;
pub mod command;
pub mod converter;
pub mod disc;
pub mod error;
pub mod media;
pub mod metadata;
pub mod paths;
pub mod pipeline;
pub mod probe;
pub mod process;
pub mod text;
