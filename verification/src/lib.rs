//! ferret: a self-hosted deal tracker. This crate is its logic, with no I/O.

pub mod ask;
pub mod attributes;
pub mod category;
pub mod chat;
pub mod client;
pub mod config;
pub mod db;
pub mod db_category;
pub mod db_rows;
pub mod deal;
pub mod decimal;
pub mod family;
pub mod fetch;
pub mod history;
pub mod ingest;
pub mod interpret;
pub mod json;
pub mod listing;
pub mod llm;
pub mod matching;
pub mod money;
pub mod normalize;
pub mod notify;
pub mod order;
pub mod pattern;
pub mod pipeline;
pub mod price;
pub mod ratio;
pub mod reading;
pub mod refine;
pub mod scheduler;
pub mod schema;
pub mod scrape;
pub mod search;
pub mod seeds;
pub mod settings;
pub mod shell;
pub mod sources;
pub mod status;
pub mod table;
pub mod text;
pub mod time;
pub mod ui;
pub mod watch;
pub mod watches;
pub mod websearch;
