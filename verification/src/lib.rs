//! A personal snippet manager: a store of named text templates with lookup,
//! substring search and upsert, and a highlighting pipeline that turns a
//! template's body into colour-tagged runs.

pub mod text;
pub mod color;
pub mod templates;
pub mod highlighter;
pub mod app;
