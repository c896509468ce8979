//! CerebroCortex core logic: typed memory records and visibility scoping, the
//! association graph and its searches, ingestion planning, concept extraction
//! and gating, the decision rules of the dream engine, the session bootstrap,
//! and the argument and tag rules of the tool and HTTP surfaces.

pub mod api;
pub mod bootstrap;
pub mod config;
pub mod engines;
pub mod graph;
pub mod ingest;
pub mod json;
pub mod mcp;
pub mod models;
pub mod numtext;
pub mod route;
pub mod pdf;
pub mod spreading;
pub mod text;
pub mod tools;
pub mod types;
pub mod vision;
