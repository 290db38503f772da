pub mod common;
pub mod config;
pub mod control;
pub mod cub_ip_client;
pub mod mqtt_client;
pub mod publisher;
pub mod text;
