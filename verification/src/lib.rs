//! Curation of an ordered collection of video entries: each entry is
//! classified by its times and its block flag, the collection is put into a
//! canonical order, and a retention cap decides which entries leave it.

pub mod calendar;
pub mod config;
pub mod entry;
pub mod host;
pub mod item;
pub mod order;
pub mod prune;
pub mod reconcile;
pub mod render;
pub mod sort;
pub mod timestamp;
