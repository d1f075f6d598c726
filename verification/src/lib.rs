pub mod contract;
pub mod data_key;
pub mod effects;
pub mod errors;
pub mod guards;
pub mod laws;
pub mod model;
pub mod storage;
pub mod token;
pub mod types;
pub mod utils;
