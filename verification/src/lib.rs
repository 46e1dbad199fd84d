pub mod commands;
pub mod error;
pub mod model;
pub mod resolve;
pub mod storage;
pub mod text;
