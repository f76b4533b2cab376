//! better_im: the verified core of a read-only iMessage reader and search
//! index: domain models, the query mini-language, URL extraction, contact
//! matching, and the conversions the desktop shell relies on.

pub mod text;
pub mod time;
pub mod models;
pub mod query;
pub mod index_model;
pub mod contacts;
pub mod dto;
pub mod urls;
pub mod index_sql;
pub mod sql_model;
pub mod paths;
pub mod media;
pub mod watcher;
pub mod embeddings;
pub mod state;
pub mod contacts_store;
pub mod reader;
pub mod statements;
pub mod sync;
pub mod display;
