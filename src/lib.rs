//! Acquisition pipeline for PS3 disc images: key resolution, resumable
//! transfer, archive extraction decisions, decryption supervision and
//! descriptor-based renaming, with the decisions verified.
pub mod config;
pub mod extract;
pub mod keys;
pub mod listing;
pub mod models;
pub mod numbers;
pub mod pairs;
pub mod pipeline;
pub mod scraper;
pub mod sfo;
pub mod supervisor;
pub mod text;
pub mod transfer;
pub mod utils;
