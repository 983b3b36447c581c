//! A minimal login and session launcher for a text console.
//!
//! The library holds the rules of the launcher: how setup files are read,
//! in which order a login is checked and a session is started, and what the
//! program exits with. Everything that touches the machine (files, the
//! authentication service, processes, the terminal) is left to the caller,
//! which performs the actions that the library asks for and reports back
//! what came of them.

pub mod auth;
pub mod catalog;
pub mod coordinator;
pub mod desktop_entry;
pub mod launch;
pub mod menu;
pub mod nesting;
pub mod selection;
pub mod setup;
pub mod structured;
pub mod text;
pub mod views;
