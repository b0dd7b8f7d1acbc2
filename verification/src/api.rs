pub mod endpoints;
pub mod models;
pub mod utils;
