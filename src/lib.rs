//! Scraper for an academic search engine: query URLs, extraction of paper
//! records from result pages, and bounded-depth citation crawling.

pub mod crawl;
pub mod error;
pub mod html;
pub mod paper;
pub mod parse;
pub mod request;
pub mod scrape;
pub mod text;
