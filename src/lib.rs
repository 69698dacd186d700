//! Python backend of a UI-description compiler: identifier sanitizing, type
//! mapping, a syntax-agnostic model of the generated module, its textual
//! rendering, and the generation of that model from a lowered document.

pub mod ident;
pub mod text;
pub mod types;
pub mod ast;
pub mod paths;
pub mod generator;
