//! Verified core of ScreenRecall: the decision logic behind capture
//! de-duplication, performance statistics, video archival planning,
//! configuration defaults and the small text protocols used by the
//! indexer, search and chat pipelines.

pub mod capture;
pub mod text;
pub mod stats;
pub mod capture_perf;
pub mod worker_activity;
pub mod config;
pub mod store;
pub mod llm;
pub mod archive;
pub mod shell;
pub mod state;
pub mod embed;
pub mod search;
pub mod stream;
pub mod commands;
pub mod util;
pub mod runtime;
pub mod paths;
pub mod ocr;
