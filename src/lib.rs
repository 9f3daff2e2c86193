//! Document state and position-addressed semantic queries for an editor
//! integration service of the L language.

pub mod complete;
pub mod hints;
pub mod resolve;
pub mod session;
pub mod snapshot;
pub mod text;
pub mod tokens;
