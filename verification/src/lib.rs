pub mod client;
pub mod error;
pub mod extract;
pub mod json;
pub mod models;
pub mod normalize;
pub mod respond;
