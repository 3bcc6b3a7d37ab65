//! Verified core of a VPN-sharing gateway: pf rule text, NAT-PMP
//! protocol handling, command-output parsing and the UI state machine.

pub mod text;
pub mod net;
pub mod error;
pub mod firewall;
pub mod main_laws;
pub mod natpmp;
pub mod natpmp_laws;
pub mod sysctl;
pub mod network;
pub mod dns;
pub mod doctor;
pub mod health;
pub mod config;
pub mod session;
pub mod ui;
pub mod app;
pub mod app_laws;
pub mod screens;
pub mod rules_laws;
pub mod bypass_laws;
