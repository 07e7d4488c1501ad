//! Curation of a personal wallpaper collection: catalog filters and their
//! fingerprints, the cache of catalog answers, the decision history, the crop
//! worker's rules and the state machine that drives one review session.
pub mod catalog;
pub mod command;
pub mod commands;
pub mod config;
pub mod crop;
pub mod filters;
pub mod history;
pub mod pipeline;
pub mod rating;
pub mod text;
pub mod wallpaper;
