pub mod metrics;
pub mod storage;
pub mod text;
