use aggregator::cache::{seconds_until_tomorrow, CacheStore};
use aggregator::config::{
    AggregatorConfig, AniListAPIConfig, CombinerConfig, Config, DBConfig, EmitterConfig,
    MangaDexAPIConfig, MongoDBConfig, RedisConfig, SubsPleaseConfig, SubsPleaseRSSConfig,
    SubsPleaseScraperConfig, TransformConfig, WorkerConfig,
};
use aggregator::error::{AggregatorError, WorkerError};
use aggregator::worker::{
    run, JobQueue, Worker, WorkerAction, WorkerEvent, WorkerState,
};

fn worker_config() -> Config {
    Config {
        aggregator: AggregatorConfig { ttl: 600 },
        anilist_api: AniListAPIConfig { url: "https://graphql.anilist.co".to_owned() },
        combiner: CombinerConfig { similarity_threshold: 800 },
        db: DBConfig {
            mongodb: MongoDBConfig {
                uri: "mongodb://localhost:27017".to_owned(),
                database: "test".to_owned(),
            },
            redis: RedisConfig { uri: "redis://localhost".to_owned() },
        },
        emitter: EmitterConfig { similarity_threshold: 800 },
        mangadex_api: MangaDexAPIConfig {
            url: "https://api.mangadex.org/list".to_owned(),
            manga_agg_url: "https://api.mangadex.org/manga/{id}/aggregate".to_owned(),
            rate_limit: 5,
        },
        subsplease: SubsPleaseConfig {
            rss: SubsPleaseRSSConfig { url: "https://subsplease.org/rss".to_owned() },
            scraper: SubsPleaseScraperConfig {
                url: "https://subsplease.org/schedule".to_owned(),
                webdriver_url: "http://localhost:4444".to_owned(),
                chrome_options: "--headless".to_owned(),
            },
        },
        transform: TransformConfig { similarity_threshold: 800 },
        worker: WorkerConfig { retry_timeout: 17 },
    }
}

#[test]
fn cache_bypass_always_misses() {
    let mut cache = CacheStore::new();
    cache.cache_value_expire("key", "value", 600, 1000, false);
    assert_eq!(cache.get_cached("key", 1001, false), Some("value".to_owned()));
    // Bypass misses even immediately after a successful write of that key.
    assert_eq!(cache.get_cached("key", 1001, true), None);
}

#[test]
fn bypassed_writes_store_nothing() {
    let mut cache = CacheStore::new();
    cache.cache_value_expire("key", "value", 600, 1000, true);
    assert_eq!(cache.get_cached("key", 1001, false), None);
}

#[test]
fn cache_entries_expire_on_the_deadline() {
    let mut cache = CacheStore::new();
    cache.cache_value_expire_at("key", "value", 2000, false);
    assert_eq!(cache.get_cached("key", 1999, false), Some("value".to_owned()));
    assert_eq!(cache.get_cached("key", 2000, false), None);
    assert_eq!(cache.get_cached("key", 2001, false), None);
    assert_eq!(cache.get_cached("other", 1999, false), None);
}

#[test]
fn cache_overwrites_keep_one_entry_per_key() {
    let mut cache = CacheStore::new();
    cache.cache_value_expire_at("key", "first", 2000, false);
    cache.cache_value_expire_at("key", "second", 3000, false);
    assert_eq!(cache.get_cached("key", 2500, false), Some("second".to_owned()));
}

#[test]
fn expire_tomorrow_stays_within_a_day() {
    for now in [0u64, 1, 86399, 86400, 86401, 1700000000] {
        let ttl = seconds_until_tomorrow(now);
        assert!(ttl > 0 && ttl <= 86400, "ttl {} out of range at {}", ttl, now);
        // The deadline is the next midnight.
        assert_eq!((now + ttl) % 86400, 0);
    }

    let now = 1700000000u64;
    let ttl = seconds_until_tomorrow(now);
    let mut cache = CacheStore::new();
    cache.cache_value_expire_tomorrow("key", "value", now, false);
    assert_eq!(cache.get_cached("key", now, false), Some("value".to_owned()));
    assert_eq!(cache.get_cached("key", now + ttl - 1, false), Some("value".to_owned()));
    assert_eq!(cache.get_cached("key", now + ttl, false), None);
}

#[test]
fn worker_steps_through_one_job() {
    let config = worker_config();
    let worker = Worker::new(&config);

    let s0 = WorkerState::WaitForConnection;
    assert_eq!(worker.action(s0), WorkerAction::Connect);

    let s1 = worker.step(s0, &WorkerEvent::Connected);
    assert_eq!(s1, WorkerState::ClaimJob);
    assert_eq!(worker.action(s1), WorkerAction::Dequeue);

    let s2 = worker.step(s1, &WorkerEvent::Claimed(Some("run:all".to_owned())));
    assert_eq!(s2, WorkerState::RunPipeline);
    assert_eq!(worker.action(s2), WorkerAction::Run);

    let s3 = worker.step(s2, &WorkerEvent::RunFinished(true));
    assert_eq!(s3, WorkerState::ClearFailed);
    assert_eq!(worker.action(s3), WorkerAction::Clear);

    let s4 = worker.step(s3, &WorkerEvent::Cleared(true));
    assert_eq!(s4, WorkerState::WaitForConnection);
}

#[test]
fn worker_ignores_unknown_jobs_and_retries_failures() {
    let config = worker_config();
    let worker = Worker::new(&config);

    // A lost connection retries from the start.
    assert_eq!(
        worker.step(WorkerState::WaitForConnection, &WorkerEvent::ConnectionFailed),
        WorkerState::WaitForConnection
    );
    // An unknown payload is ignored, but the holding list is still cleared.
    assert_eq!(
        worker.step(WorkerState::ClaimJob, &WorkerEvent::Claimed(Some("run:some".to_owned()))),
        WorkerState::ClearFailed
    );
    // An idle timeout clears and loops.
    assert_eq!(
        worker.step(WorkerState::ClaimJob, &WorkerEvent::Claimed(None)),
        WorkerState::ClearFailed
    );
    // A dequeue error goes back to connecting.
    assert_eq!(
        worker.step(WorkerState::ClaimJob, &WorkerEvent::ClaimFailed),
        WorkerState::WaitForConnection
    );
    // A failed run still clears, and a failed clear still loops.
    assert_eq!(
        worker.step(WorkerState::RunPipeline, &WorkerEvent::RunFinished(false)),
        WorkerState::ClearFailed
    );
    assert_eq!(
        worker.step(WorkerState::ClearFailed, &WorkerEvent::Cleared(false)),
        WorkerState::WaitForConnection
    );
}

#[test]
fn worker_retry_timeout_comes_from_config() {
    let config = worker_config();
    let worker = Worker::new(&config);
    assert_eq!(worker.get_retry_timeout(), 17);
    assert_eq!(worker.get_retry_timeout_duration(), 17);
}

#[test]
fn claimed_jobs_stay_visible_until_cleared() {
    let mut queue = JobQueue::new();
    queue.enqueue("run:all".to_owned());
    queue.enqueue("run:some".to_owned());
    assert_eq!(queue.pending_len(), 2);
    assert_eq!(queue.failed_len(), 0);

    // The oldest job is claimed first, and moves to the holding list in
    // the same step: a crash here would leave it recoverable.
    let job = queue.claim().unwrap();
    assert_eq!(job, "run:all");
    assert_eq!(queue.pending_len(), 1);
    assert_eq!(queue.failed_len(), 1);

    queue.clear_failed();
    assert_eq!(queue.failed_len(), 0);
    assert_eq!(queue.pending_len(), 1);

    let job = queue.claim().unwrap();
    assert_eq!(job, "run:some");
    assert_eq!(queue.claim(), None);
}

#[test]
fn worker_entry_point_succeeds() {
    assert!(run().is_ok());
}

#[test]
fn errors_render_with_their_component_prefix() {
    let a = AggregatorError::new("Could not reduce lists.");
    assert_eq!(a.message().as_str(), "Could not reduce lists.");
    assert_eq!(a.display_string(), "Aggregator Error: Could not reduce lists.");
    let w = WorkerError::new("Could not get job.");
    assert_eq!(w.message().as_str(), "Could not get job.");
    assert_eq!(w.display_string(), "Worker Error: Could not get job.");
}
