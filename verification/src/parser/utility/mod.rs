pub mod combinators;
pub mod error;
pub mod keyword;
