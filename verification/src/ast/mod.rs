pub mod helpers;
pub mod ident;
pub mod schema;
pub mod struct_decl;
pub mod ty;
