//! Persona bundles, personality overlays and delegation rules of an agent
//! runtime.

pub mod arguments;
pub mod delegate;
pub mod dispatch;
pub mod evidence;
pub mod guard;
pub mod laws;
pub mod narrowing;
pub mod parallel;
pub mod paths;
pub mod persona_bundles;
pub mod personality;
pub mod policy;
pub mod prompt;
pub mod reply;
pub mod roster;
pub mod schema;
pub mod table;
pub mod tasks;
pub mod text;
