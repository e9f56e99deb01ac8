use vstd::prelude::*;

verus! {

/// Default similarity threshold, in thousandths of the normalized score.
pub const DEFAULT_SIMILARITY_THRESHOLD: u32 = 800;

/// Default number of seconds a cache entry lives when no deadline applies.
pub const DEFAULT_CACHE_TTL: u64 = 86400;

pub struct AggregatorConfig {
    pub ttl: usize,
}

pub struct AniListAPIConfig {
    pub url: String,
}

pub struct MongoDBConfig {
    pub uri: String,
    pub database: String,
}

pub struct RedisConfig {
    pub uri: String,
}

pub struct DBConfig {
    pub mongodb: MongoDBConfig,
    pub redis: RedisConfig,
}

pub struct MangaDexAPIConfig {
    pub url: String,
    pub manga_agg_url: String,
    pub rate_limit: usize,
}

/// Thresholds are thousandths of the normalized similarity score: a score
/// `s` in `[0, 1]` clears a threshold `t` when `s > t / 1000`.
pub struct TransformConfig {
    pub similarity_threshold: u32,
}

pub struct CombinerConfig {
    pub similarity_threshold: u32,
}

pub struct EmitterConfig {
    pub similarity_threshold: u32,
}

pub struct SubsPleaseRSSConfig {
    pub url: String,
}

pub struct SubsPleaseScraperConfig {
    pub url: String,
    pub webdriver_url: String,
    pub chrome_options: String,
}

pub struct SubsPleaseConfig {
    pub rss: SubsPleaseRSSConfig,
    pub scraper: SubsPleaseScraperConfig,
}

pub struct WorkerConfig {
    pub retry_timeout: usize,
}

/// Everything a deployment configures; the process boundary loads it from
/// a file and hands it in as plain values.
pub struct Config {
    pub aggregator: AggregatorConfig,
    pub anilist_api: AniListAPIConfig,
    pub combiner: CombinerConfig,
    pub db: DBConfig,
    pub emitter: EmitterConfig,
    pub mangadex_api: MangaDexAPIConfig,
    pub subsplease: SubsPleaseConfig,
    pub transform: TransformConfig,
    pub worker: WorkerConfig,
}

} // verus!
