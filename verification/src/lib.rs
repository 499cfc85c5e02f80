//! Core logic of the hyperlinked server: query parsing, search-snippet
//! rendering, artifact bookkeeping, flash cookies and admin dashboards.
use vstd::prelude::*;

pub mod admin;
pub mod artifact_routes;
pub mod artifacts;
pub mod background;
pub mod change_feed;
pub mod chromium;
pub mod display;
pub mod flash;
pub mod fonts;
pub mod forms;
pub mod jobs;
pub mod listing;
pub mod maintenance;
pub mod markdown;
pub mod mdns;
pub mod numbers;
pub mod packing;
pub mod process_stats;
pub mod query;
pub mod requests;
pub mod search;
pub mod storage;
pub mod text;
pub mod timestamps;

verus! {
}
