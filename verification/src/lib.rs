//! A character-grid rendering buffer and a widget-stack dispatch engine for a
//! terminal front-end that shows search results.

pub mod canvas;
pub mod text;
pub mod event;
pub mod git;
pub mod record;
pub mod app;
