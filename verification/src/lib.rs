//! Job-application tracking: listing extraction, salary normalisation,
//! application lifecycle rules and the framed document format they are
//! stored in.

pub mod amount;
pub mod application;
pub mod command;
pub mod config;
pub mod data;
pub mod digest;
pub mod fetch;
pub mod html;
pub mod document;
pub mod job;
pub mod parse;
pub mod json;
pub mod pattern;
pub mod salary;
pub mod scrape;
pub mod text;
pub mod time;
