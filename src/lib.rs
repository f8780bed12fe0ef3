//! Runtime core of an interactive cluster-resource terminal client: the log
//! buffer with history backfill and search, item filtering, the per-tab
//! watch bookkeeping and the mode state machine that interprets keys.
pub mod text;
pub mod models;
pub mod state;
pub mod logs;
pub mod sorting;
pub mod app;
pub mod input;
pub mod utils;
