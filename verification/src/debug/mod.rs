//! Debugging aids: simulated request inspection, route tests, the
//! configuration in force, and cache entries.
pub mod request_inspector;
pub mod route_tester;
pub mod config_inspector;
pub mod cache_viewer;
