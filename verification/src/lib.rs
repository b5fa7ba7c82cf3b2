//! The verified core of a terminal dashboard for local model servers.
pub mod adapter;
pub mod canvas;
pub mod double;
pub mod json;
pub mod kobold;
pub mod laws;
pub mod llama;
pub mod operator_charts;
pub mod phrase;
pub mod process_memory;
pub mod prompt_panel;
pub mod providers;
pub mod recent;
pub mod request_dashboard;
pub mod reuse;
pub mod sample;
pub mod telemetry;
pub mod text;
pub mod time;
pub mod usage_file;
