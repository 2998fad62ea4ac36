//! Library side of an mdBook backend that turns a book into a macOS Apple
//! Help bundle: configuration, page rendering, link rewriting, bundle layout
//! and the help-book property list.

pub mod text;
pub mod html;
pub mod config;
pub mod paths;
pub mod walk;
pub mod bundle;
pub mod index;
