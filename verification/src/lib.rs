pub mod text;
pub mod error;
pub mod model;
pub mod api;
pub mod service;
pub mod adapters;
pub mod series;
pub mod order;
pub mod catalog;
pub mod urls;
pub mod json;
pub mod listings;
pub mod laws;
