//! Anime/manga list aggregation core: record linkage of a canonical media
//! list against independently keyed secondary sources, idempotent
//! content-hash persistence, a deadline-aware cache, and the worker job
//! loop that drives periodic runs.

pub mod error;
pub mod text;
pub mod extra_map;
pub mod scraper;
pub mod alt_titles;
pub mod media;
pub mod config;
pub mod similarity;
pub mod transform;
pub mod rss;
pub mod mangadex;
pub mod combiner;
pub mod store;
pub mod cache;
pub mod worker;
pub mod anilist;
pub mod aggregator;
pub mod emitter;
pub mod merge;
pub mod options;
