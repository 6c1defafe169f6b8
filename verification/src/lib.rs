//! The logic of an MCP server for SEC EDGAR.
//!
//! A tool is called with JSON and answers with JSON. [`session`] takes a call
//! from its arguments to its reply and says what has to be done outside on the
//! way; the other modules hold what it decides by.

pub mod company;
pub mod concept;
pub mod config;
pub mod doubles;
pub mod filings;
pub mod forms;
pub mod frames;
pub mod insiders;
pub mod json;
pub mod lists;
pub mod responses;
pub mod server;
pub mod session;
pub mod text;
pub mod tickers;
pub mod urls;
pub mod xml;
