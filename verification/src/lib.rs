pub mod fingerprint;
pub mod text;
pub mod aaa;
pub mod mac;
pub mod policy_engine;
pub mod models;
pub mod store;
pub mod netproto;
pub mod api_gateway;
pub mod ipv4;
pub mod dhcp_server;
pub mod auth;
pub mod config;
pub mod agent_gateway;
pub mod enforcement;
pub mod agent;
