//! Reads OpenSSH client configuration and resolves it into a flat list of hosts.
//!
//! [`ssh_config`] holds the host blocks, the parser that builds them and the
//! transformations that resolve patterns; [`ssh`] turns resolved blocks into
//! plain host records; [`searchable`] is a filtered list for browsing them,
//! and [`ui`] holds what a browser of that list decides.
pub mod searchable;
pub mod ssh;
pub mod ssh_config;
pub mod text;
pub mod ui;
