//! A feed reader's core: article and feed models, the search index, the chat
//! history of the assistant, the content cache, configuration management, the
//! secret-box format for stored API keys, and the text processing that turns
//! feed documents and web pages into readable articles.
use vstd::prelude::*;

pub mod text;
pub mod ai_client;
pub mod order;
pub mod models;
pub mod cache_manager;
pub mod config;
pub mod crypto;
pub mod markup;
pub mod content;
pub mod reader;
pub mod search;
pub mod search_cache;
pub mod syndication;
pub mod feeds;
pub mod notify;
pub mod export;
pub mod timefmt;
pub mod updates;
pub mod tray;
pub mod ui_state;
pub mod ui_apply;
pub mod ui_update;
pub mod startup;
pub mod opml_import;
pub mod ids;
pub mod sidebar;
pub mod store_rules;
pub mod laws;

verus! {

} // verus!
