//! Static inference of the result types of graph queries against a declared schema.

pub mod error;
pub mod fields;
pub mod interpret;
pub mod kind;
pub mod paths;
pub mod query;
pub mod requirements;
pub mod schema;
pub mod state;
pub mod statements;
pub mod syntax;
pub mod text;
pub mod utils;
