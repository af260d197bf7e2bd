//! Live audio feed listings: scraping, filtering and alert-threshold policy.
pub mod config;
pub mod feed;
pub mod html;
pub mod notify;
pub mod number;
pub mod scrape;
pub mod text;
pub mod yaml;
