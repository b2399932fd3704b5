//! Verified core of the RESTful API framework benchmark: configuration
//! validation, container plans, benchmark commands, Solr test data and the
//! request handling logic shared by the benchmarked web services.

pub mod text;
pub mod config;
pub mod backend;
pub mod benchmark;
pub mod api;
pub mod solr;
