//! Verified core of a desktop network and disk activity monitor.
pub mod collector;
pub mod dashboard;
pub mod metrics;
pub mod socket_table;
pub mod taskbar;
