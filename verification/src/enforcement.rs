//! Enforcement: firewall plans, ARP and neighbor-discovery frames, the
//! quarantine table and the handling of enforcement commands.

pub mod commands;
pub mod firewall;
pub mod ipt_model;
pub mod runner;
pub mod frames;
pub mod snmp_port;
pub mod tables;
