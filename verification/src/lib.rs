//! A verified core for a desktop application launcher.
//!
//! The launcher scans well-known directories for application descriptor
//! files, shows the parsed display names through an external chooser
//! program, matches the chooser's answer back to an entry, and executes
//! that entry's command line with placeholder tokens stripped. This crate
//! holds the launcher's logic — descriptor selection, name matching, and
//! command-line assembly — with contracts; the process and filesystem
//! plumbing around it stays outside.

pub mod chooser;
pub mod command;
pub mod dispatch;
pub mod entries;
