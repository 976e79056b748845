//! Verified core of the census site: HTML page rendering, session ordering,
//! request decisions and the small text utilities they rest on.

pub mod bindings;
pub mod database;
pub mod endpoints;
pub mod html_templates;
pub mod site;
pub mod structs;
pub mod text;
