//! Reconciliation and persistence core of a desktop client that mirrors a
//! remote course catalogue: modules and their resources are merged into a
//! durable local snapshot, and the snapshot is written out under a debounced,
//! at-most-one-in-flight discipline.

pub mod time;
pub mod text;
pub mod order;
pub mod groups;
pub mod module;
pub mod resource;
pub mod data;
pub mod merge;
pub mod storage;
pub mod settings;
pub mod utils;
pub mod pages;
pub mod header;
pub mod message;
pub mod api;
