//! A component-based content core: themes declare templates with typed fields
//! and composition areas, pages are value-filled instances of those templates,
//! a store keeps them under unique names, and a renderer flattens an instance
//! tree into markup.
pub mod model;
pub mod yaml;
pub mod theme;
pub mod store;
pub mod render;
pub mod tera_renderer;
pub mod site;
pub mod document;
pub mod conformance;
