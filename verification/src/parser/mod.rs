pub mod laws;
pub mod parser;
pub mod path;
pub mod schema;
pub mod state;
mod struct_decl;
mod ty;
mod use_decl;
pub mod utility;
