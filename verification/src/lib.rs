//! A registry of tools: short names that stand for backend references such as
//! `asdf:mise-plugins/mise-poetry`, the rules that narrow the backends of a
//! tool to those which the settings and the platform permit, and the check
//! that decides whether a plugin remote may be used without asking.

pub mod backend_type;
pub mod error;
pub mod filter;
pub mod listing;
pub mod registry;
pub mod remote;
pub mod settings;
pub mod text;
