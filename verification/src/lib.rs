//! Host setup for the `acpi_call` kernel module: the decisions behind a small
//! installer, stated and proved.
//!
//! The installer copies two programs into the system's binary directory,
//! registers itself in the superuser's table of scheduled tasks, keeps a
//! working copy of the module's sources in step with its remote, and builds
//! and loads the module. Everything that touches the machine is left to the
//! caller. This library decides what is to be done: which steps a run takes,
//! which commands each step consists of, and what the table of scheduled tasks
//! must hold afterwards.

pub mod command;
pub mod identity;
pub mod install;
pub mod module;
pub mod plan;
pub mod repo;
pub mod schedule;
pub mod text;
