//! A terminal explorer for tabular files: the logic behind its SQL statements,
//! result tables, output layout, scrolling and key bindings.
pub mod app;
pub mod batch;
pub mod error;
pub mod events;
pub mod sql;
pub mod table;
pub mod text;
pub mod ui;
