//! Composition and merge engine for project scaffolding: a base template is
//! overlaid with optional addons, file by file under a merge policy, and the
//! manifests of all parts are folded into one.

pub mod error;
pub mod policy;
pub mod string_map;
pub mod manifest;
pub mod descriptor;
pub mod file_merge;
pub mod planner;
pub mod pm;
pub mod style;
pub mod text_merge;
