//! How a virtual machine is configured.

pub mod balloon;
pub mod builder;
pub mod config;
pub mod handle;
pub mod nitro;
pub mod resources;
