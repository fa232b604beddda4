//! The SMIL animation subset of an SVG renderer: the text grammar of
//! animation attributes, the document queries that find animation elements
//! and their motion paths, and the per-frame attribute override map.

pub mod text;
pub mod clock;
pub mod document;
pub mod element;
pub mod timing;
pub mod animation;
pub mod loader;
pub mod overrides;
pub mod color;
pub mod names;
pub mod number;
