//! A schema-driven settings engine: it builds a tree of editing controls from a
//! configuration schema, extracts the searchable display names, prunes a JSON
//! document down to the subtrees that match a search query, and drives the
//! per-frame refresh/commit decisions of the settings panel.

pub mod controls;
pub mod json;
pub mod schema;
pub mod search;
pub mod settings;
pub mod text_util;
