pub mod cmd;
pub mod cron;
pub mod mihoro;
pub mod proxy;
pub mod service;
pub mod text;
