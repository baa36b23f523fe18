//! Where records are kept.
pub mod catalog;
pub mod connecting;
pub mod core_task;
pub mod data;
pub mod paging;
pub mod route_cache;
pub mod sealing;
pub mod secrets;
pub mod store;
pub mod store_local;
pub mod store_memory;
pub mod store_mongo;
