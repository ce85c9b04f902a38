pub mod models;
pub mod table;
pub mod store;
pub mod unary;
pub mod session;
pub mod archive;
pub mod codec;
