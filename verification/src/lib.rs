pub mod aggregates;
pub mod ansi;
pub mod datetime;
pub mod db_files;
pub mod edit_buffer;
pub mod errors;
pub mod event;
pub mod term;
pub mod term_buffer;
pub mod term_elements;
pub mod term_layers;
pub mod text;
pub mod types;
pub mod util;
