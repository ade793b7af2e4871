//! Scraping and analysing the donations of Games Done Quick events: reading
//! the donation tracker's pages, the decisions of a resumable scraping run,
//! and the figures drawn from its results.

pub mod text;
pub mod decimal;
pub mod time;
pub mod pattern;
pub mod html;
pub mod money;
pub mod donation;
pub mod scrape;
pub mod urls;
pub mod progress;
pub mod stats;
pub mod analysis;
pub mod historic;
pub mod webapp;
