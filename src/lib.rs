//! Core of a terminal to-do manager: records and their ordering, the action
//! routing table, the key-sequence matcher and the selection tracker.

pub mod action;
pub mod app;
pub mod dates;
pub mod errors;
pub mod input;
pub mod keys;
pub mod order;
pub mod selection;
pub mod sort_menu;
pub mod sorting;
pub mod store;
pub mod structs;
pub mod tasks;
pub mod workspaces;
