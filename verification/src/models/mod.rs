//! Request and response models of the InnerTube API.

pub mod browse;
pub mod context;
pub mod json;
pub mod metadata;
pub mod player;
