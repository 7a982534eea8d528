//! Provenance tracking for generated project artifacts: content addressing,
//! an append-only event ledger, staleness analysis and the capability bridge
//! through which scripts reach the project.

pub mod hash;
pub mod metadata;
pub mod text;
pub mod assoc;
pub mod events;
pub mod event_log;
pub mod content_store;
pub mod backend;
pub mod llm;
pub mod bridge;
pub mod project_status;
pub mod file_history;
pub mod file_status;
pub mod sandbox;
pub mod host;
pub mod ledger_rows;
pub mod service;
pub mod templates;
pub mod table_shape;
