pub mod cache;
pub mod db;
pub mod ir;
pub mod source;
