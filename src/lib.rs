//! Picks, among monitor-layout profiles, the one that best fits the monitors
//! that are connected, and fills the monitors' names into its commands.
pub mod action;
pub mod alias;
pub mod commands;
pub mod event;
pub mod monitor;
pub mod resolve;
pub mod template;
pub mod text;
