//! A static-site generator core: a tree of markdown files becomes a tree of
//! HTML pages with breadcrumb navigation, ready to be written to disk.
//!
//! The pipeline is `annotate` (attach ancestor chains to a raw file tree),
//! `render` (markdown to wrapped HTML pages with computed output paths), and
//! `plan` (flatten the HTML tree into an ordered list of filesystem steps).
//! All filesystem work is left to the caller, which feeds a [`node::RawNode`]
//! in and carries a [`plan::WriteStep`] list out.

pub mod breadcrumbs;
pub mod errors;
pub mod listing;
pub mod load;
pub mod node;
pub mod paths;
pub mod plan;
pub mod render;
pub mod templates;
