//! Build-time schema pipeline and runtime bridge for configuration-management
//! plugin modules.
//!
//! A module is described by a type identifier, module-scope attribute
//! arguments, and a list of tagged property-resolver methods.  The pipeline
//! parses and merges the attribute arguments, validates each method against
//! its declared access type, derives external property names, and assembles a
//! [`module_def::Definition`].  The runtime bridge dispatches get/set requests
//! over that definition and marshals values as JSON payload strings.

pub mod attr;
pub mod payload;
pub mod property;
pub mod runtime;
pub mod sample;
pub mod camel;
pub mod daemon;
pub mod error;
pub mod emit;
pub mod json;
pub mod module_def;
pub mod module_meta;
pub mod text;
pub mod version;
