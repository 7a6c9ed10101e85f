pub mod config;
pub mod geometry;
pub mod anchors;
pub mod palm;
pub mod decode;
pub mod suppress;
pub mod pipeline;
