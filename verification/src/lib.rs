pub mod auth;
pub mod catalog;
pub mod errors;
pub mod laws;
pub mod records;
pub mod request;
pub mod rng;
pub mod store;
pub mod table;
