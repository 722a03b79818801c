pub mod redis;
pub mod data_store;
pub mod backend_model;
