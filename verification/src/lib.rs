//! Proxy discovery: provider configuration, scraped-text filtering, the
//! client/daemon wire protocol, and the decisions that drive scraping.

pub mod text;
pub mod pattern;
pub mod filters;
pub mod protocol;
pub mod daemon;
pub mod client;
pub mod provider;
pub mod html;
pub mod fetch;
pub mod scraper;
pub mod scrapper;
pub mod value;
pub mod config;
