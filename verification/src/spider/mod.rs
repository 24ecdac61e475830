//! The first crawler: it asks each site of a list for a WordPress REST
//! listing and files the site by the answer.
pub mod configuration;
pub mod utils;
pub mod website;
