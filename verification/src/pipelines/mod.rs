//! The processing pipelines, one module per kind of component.

pub mod assets;
