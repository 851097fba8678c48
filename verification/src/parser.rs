//! The parser: the data of programs and the grammar that reads them.

pub mod cumin;
pub mod declaration;
pub mod entries;
pub mod expr;
pub mod grammar;
pub mod module;
pub mod statement;
pub mod typing;
pub mod util;
pub mod value;
