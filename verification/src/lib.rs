//! Shared to-do lists: the registry of lists, the operations that change it,
//! the view of a list that a client is shown, and the change events that keep
//! clients in step.

pub mod events;
pub mod laws;
pub mod list;
pub mod models;
pub mod order;
pub mod pages;
pub mod registry;
pub mod service;
pub mod store;
pub mod text;
