//! A terminal front end for the hosts of an SSH client configuration: the
//! configuration reader, the application state machine, the `ssh` and
//! `rsync` command lines and the screen texts, with their specifications.
pub mod actions;
pub mod app;
pub mod events;
pub mod ssh_config;
pub mod ssh_operations;
pub mod text;
pub mod ui;
