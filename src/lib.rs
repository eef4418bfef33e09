//! Feed ingestion and delivery: entries fetched from sources are de-duplicated by a
//! read-filter, run through a pipeline of transforms and filters, and delivered to a
//! sink. Configuration documents decode into these runtime objects.

pub mod auth;
pub mod config;
pub mod email;
pub mod entry;
pub mod field;
pub mod http;
pub mod link;
pub mod query;
pub mod read_filter;
pub mod regex_action;
pub mod settings;
pub mod sink;
pub mod source;
pub mod task;
pub mod text;
pub mod timepoint;
pub mod transform;
