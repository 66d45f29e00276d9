pub mod backend;
pub mod config;
pub mod dispatch;
pub mod proxy;
