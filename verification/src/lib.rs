//! A typed DOM construction and serialization pipeline for HTML export,
//! together with the package-specification model used by the surrounding
//! compiler.
//!
//! The pipeline converts an internal content tree into a validated DOM tree
//! (element, text, and frame nodes) and serializes that tree to markup text
//! with correct escaping, void-element handling, and a synthesized document
//! shell when the author did not supply one.

pub mod attrs;
pub mod convert;
pub mod css;
pub mod dom;
pub mod encode;
pub mod package;
pub mod span;
pub mod tag;
pub mod text;

pub use convert::html_document;
pub use encode::html;
