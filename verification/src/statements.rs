//! The kinds of what the statements return, statement by statement.

pub mod mutate_statement;
pub mod relate_statement;
pub mod select_statement;
