//! The decisions of the web console: what it asks of the API and what it shows.
pub mod client;
pub mod format;
pub mod forms;
pub mod rows;
pub mod runs;
pub mod theme;
