pub mod api;
pub mod app;
pub mod cache;
pub mod catalog;
pub mod chart;
pub mod date;
pub mod options;
pub mod symbols;
pub mod text;
pub mod watchlist;
