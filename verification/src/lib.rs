//! Workflow benchmarking core: model selection, workflow YAML generation,
//! step ordering, resource admission and the text helpers they share.

pub mod admission;
pub mod backend;
pub mod cleaning;
pub mod concurrency;
pub mod decimal;
pub mod detail;
pub mod detail_laws;
pub mod discovery;
pub mod dispatch;
pub mod json;
pub mod llama_backend;
pub mod model_resolution;
pub mod model_selector;
pub mod persistence;
pub mod resource_size;
pub mod run_loop;
pub mod selection_laws;
pub mod server;
pub mod settings;
pub mod step_execution;
pub mod step_order;
pub mod streaming;
pub mod telemetry;
pub mod templates;
pub mod text;
pub mod tools;
pub mod workflow;
pub mod workflow_config;
pub mod workflow_file;
pub mod workflow_text;
pub mod yaml_generator;
pub mod yaml_listing;
