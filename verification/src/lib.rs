//! Verified core of the `tt-demo` demo-recording toolkit.
pub mod text;
pub mod manifest;
pub mod orchestrate;
pub mod template;
pub mod compile;
pub mod publish;
pub mod paths;
pub mod compress;
pub mod render;
pub mod verify;
pub mod doctor;
pub mod ready;
pub mod post;
pub mod rehearse;
