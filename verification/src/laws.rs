//! What holds of the library as a whole, proved of the models that the functions'
//! contracts speak of.
pub mod adapter;
pub mod bars;
pub mod cells;
pub mod charts;
pub mod documents;
pub mod history;
pub mod judgement;
pub mod memory;
pub mod models;
pub mod numbers;
pub mod panel;
pub mod providers;
pub mod readings;
pub mod records;
pub mod requests;
pub mod text;
pub mod usage_file;
pub mod watching;
