//! Installation pipeline of a game launcher: platform rules, version
//! catalog filtering, descriptor decoding, download planning, archive
//! extraction planning and a bounded download scheduler.

pub mod json;
pub mod text;
pub mod rules;
pub mod decode;
pub mod descriptor;
pub mod catalog;
pub mod layout;
pub mod assets;
pub mod plan;
pub mod scheduler;
pub mod archive;
pub mod install;
