//! Verified core of the seoder crawler tool-set: configuration parsing,
//! crawl scheduling decisions, response routing and the web panel's
//! command handling.
mod outside;
mod std_text;
pub mod client;
pub mod content;
pub mod jsoncrawler;
pub mod panel;
pub mod patterns;
pub mod schedule;
pub mod seoder;
pub mod spider;
pub mod text;
pub mod web;
