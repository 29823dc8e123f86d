//! The logic of a desktop tool that shows and changes a Windows machine's
//! DNS resolvers: validation of addresses, the commands for the system's
//! tools and the reading of their reports, latency samples and their
//! ranking, and a scheduler that rotates resolver settings.
//!
//! The library runs no command and touches no file. It hands out commands
//! as text, takes reports as text, and decides; its caller does the rest.

pub mod adapters;
pub mod auto_startup;
pub mod canonical;
pub mod command;
pub mod error;
pub mod executor;
pub mod latency;
pub mod notifications;
pub mod providers;
pub mod scheduler;
pub mod settings;
pub mod speedtest;
pub mod text;
pub mod tray;
pub mod validation;
