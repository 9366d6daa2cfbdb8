//! Control surfaces and the values they exchange.
pub mod control_interfaces;
pub mod control_proxies;
pub mod controller_services;
pub mod providers;
pub mod scalable_value;
pub mod types;
