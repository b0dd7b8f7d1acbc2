pub mod models;
pub mod process;
pub mod storage;
