//! Rendering core of a live-reloading notes server: path sandboxing, wiki-link
//! and markdown rendering, navigation trees, search result pages and the
//! decisions behind change notifications.

pub mod error;
pub mod escape;
pub mod highlight;
pub mod listing;
pub mod markdown;
pub mod page;
pub mod reload;
pub mod routes;
pub mod sandbox;
pub mod search;
pub mod serve;
pub mod text;
pub mod tree;
pub mod wiki;
