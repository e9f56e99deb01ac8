use aggregator::alt_titles::{AltTitles, AltTitlesDB, AltTitlesEntry};
use aggregator::combiner::Combiner;
use aggregator::config::{
    AggregatorConfig, AniListAPIConfig, CombinerConfig, Config, DBConfig, EmitterConfig,
    MangaDexAPIConfig, MongoDBConfig, RedisConfig, SubsPleaseConfig, SubsPleaseRSSConfig,
    SubsPleaseScraperConfig, TransformConfig, WorkerConfig,
};
use aggregator::extra_map::{ExtraMap, IdMap};
use aggregator::mangadex::{MangaDexAPI, MangaLatest};
use aggregator::media::{Latest, Media};
use aggregator::rss::{AnimeLatest, SubsPleaseRSS};
use aggregator::scraper::{AnimeSchedule, AnimeScheduleEntry, Day, SubsPleaseScraper};
use aggregator::transform::resolve_index;

fn test_config() -> Config {
    Config {
        aggregator: AggregatorConfig { ttl: 600 },
        anilist_api: AniListAPIConfig { url: "https://graphql.anilist.co".to_owned() },
        combiner: CombinerConfig { similarity_threshold: 800 },
        db: DBConfig {
            mongodb: MongoDBConfig {
                uri: "mongodb://localhost:27017".to_owned(),
                database: "test".to_owned(),
            },
            redis: RedisConfig { uri: "redis://localhost".to_owned() },
        },
        emitter: EmitterConfig { similarity_threshold: 800 },
        mangadex_api: MangaDexAPIConfig {
            url: "https://api.mangadex.org/list".to_owned(),
            manga_agg_url: "https://api.mangadex.org/manga/{id}/aggregate".to_owned(),
            rate_limit: 5,
        },
        subsplease: SubsPleaseConfig {
            rss: SubsPleaseRSSConfig { url: "https://subsplease.org/rss".to_owned() },
            scraper: SubsPleaseScraperConfig {
                url: "https://subsplease.org/schedule".to_owned(),
                webdriver_url: "http://localhost:4444".to_owned(),
                chrome_options: "--headless".to_owned(),
            },
        },
        transform: TransformConfig { similarity_threshold: 800 },
        worker: WorkerConfig { retry_timeout: 10 },
    }
}

fn make_media(
    media_id: Option<u64>,
    status: Option<&str>,
    title: Option<&str>,
    english_title: Option<&str>,
) -> Media {
    Media {
        media_id,
        media_type: None,
        status: status.map(|s| s.to_owned()),
        format: None,
        season: None,
        season_year: None,
        title: title.map(|s| s.to_owned()),
        english_title: english_title.map(|s| s.to_owned()),
        image: None,
        episodes: None,
        score: None,
        progress: None,
        schedule: None,
        latest: None,
        alt_titles: None,
    }
}

fn schedule_entry(title: &str, day: Day, time: &str) -> AnimeScheduleEntry {
    AnimeScheduleEntry { title: title.to_owned(), day, time: time.to_owned() }
}

fn schedule_map(entries: &[AnimeScheduleEntry]) -> AnimeSchedule {
    let mut map = ExtraMap::new();
    for e in entries {
        map.insert(e.title.clone(), e.clone());
    }
    AnimeSchedule(map)
}

#[test]
fn combiner_test_combine() {
    let mut media = vec![make_media(Some(1), Some("CURRENT"), Some("Gintama"), Some("Gin Tama"))];
    let schedules = vec![
        schedule_entry("gintama", Day::Saturday, "00:00"),
        schedule_entry("naruto", Day::Monday, "00:00"),
        schedule_entry("tamako market", Day::Friday, "00:00"),
    ];

    let combiner = Combiner::default();
    combiner.combine(&mut media, &schedules).unwrap();

    let actual = media[0].schedule.as_ref().unwrap();
    let expected = &schedules[0];

    assert_eq!(actual, expected);
}

#[test]
fn subsplease_scraper_test_transform() {
    let mut media = [
        make_media(Some(1), Some("CURRENT"), Some("Gintama"), Some("Gin Tama")),
        make_media(Some(1), Some("CURRENT"), Some("naruto"), None),
        make_media(Some(1), Some("CURRENT"), None, Some("tamako market")),
    ];
    let schedules = schedule_map(&[
        schedule_entry("gintama", Day::Saturday, "00:00"),
        schedule_entry("naruto", Day::Monday, "00:00"),
        schedule_entry("tamako market", Day::Friday, "00:00"),
    ]);

    let config = test_config();
    let subsplease_scraper = SubsPleaseScraper::new(&config);

    subsplease_scraper.transform(&mut media[0], &schedules).unwrap();
    assert_eq!(
        media[0].schedule,
        Some(schedule_entry("gintama", Day::Saturday, "00:00"))
    );

    subsplease_scraper.transform(&mut media[1], &schedules).unwrap();
    assert_eq!(
        media[1].schedule,
        Some(schedule_entry("naruto", Day::Monday, "00:00"))
    );

    subsplease_scraper.transform(&mut media[2], &schedules).unwrap();
    assert_eq!(
        media[2].schedule,
        Some(schedule_entry("tamako market", Day::Friday, "00:00"))
    );
}

#[test]
fn subsplease_rss_test_transform() {
    let mut media = [make_media(Some(1), Some("CURRENT"), Some("Gintama"), Some("Gin Tama"))];
    let mut latest = ExtraMap::new();
    latest.insert(
        "gintama".to_owned(),
        Latest {
            title: "gintama".to_owned(),
            episode: 1,
            url: "http:://www.test.nyaa".to_owned(),
        },
    );
    let latest = AnimeLatest(latest);

    let config = test_config();
    let subsplease_rss = SubsPleaseRSS::new(&config);

    subsplease_rss.transform(&mut media[0], &latest).unwrap();
    assert_eq!(
        media[0].latest,
        Some(Latest {
            title: "gintama".to_owned(),
            episode: 1,
            url: "http:://www.test.nyaa".to_owned(),
        })
    );
}

#[test]
fn mangadex_api_test_transform() {
    let mut media = [make_media(Some(1), Some("CURRENT"), Some("Gintama"), Some("Gin Tama"))];
    let mut latest = ExtraMap::new();
    latest.insert(
        "gintama".to_owned(),
        Latest {
            title: "gintama".to_owned(),
            episode: 1,
            url: "http://www.test.nyaa".to_owned(),
        },
    );
    let latest = MangaLatest(latest);

    let config = test_config();
    let mangadex_api = MangaDexAPI::new(&config);

    mangadex_api.transform(&mut media[0], &latest).unwrap();
    assert_eq!(
        media[0].latest,
        Some(Latest {
            title: "gintama".to_owned(),
            episode: 1,
            url: "http://www.test.nyaa".to_owned(),
        })
    );
}

#[test]
fn alt_titles_db_test_transform() {
    let mut media = [make_media(Some(1), Some("CURRENT"), Some("Gintama"), None)];
    let mut alt_titles = IdMap::new();
    alt_titles.insert(
        1,
        AltTitlesEntry { media_id: 1, alt_titles: vec!["Gin Tama".to_owned()] },
    );
    let alt_titles = AltTitles(alt_titles);

    let config = test_config();
    let alt_title_db = AltTitlesDB::new(&config);

    alt_title_db.transform(&mut media[0], &alt_titles).unwrap();
    assert_eq!(
        media[0].alt_titles,
        Some(AltTitlesEntry { media_id: 1, alt_titles: vec!["Gin Tama".to_owned()] })
    );
}

#[test]
fn exact_match_beats_fuzzy_decoy() {
    // The record's own title is an exact key, while a decoy key would win
    // any fuzzy scoring; the exact hit must decide.
    let media = make_media(Some(1), Some("CURRENT"), Some("Gintama"), Some("Gin Tama"));
    let schedules = schedule_map(&[
        schedule_entry("gintama", Day::Monday, "11:11"),
        schedule_entry("Gintama", Day::Saturday, "00:00"),
    ]);
    let i = resolve_index(&media, &schedules.0, 800).unwrap();
    assert_eq!(
        schedules.0.value_at(i),
        &schedule_entry("Gintama", Day::Saturday, "00:00")
    );
}

#[test]
fn alias_match_in_list_order() {
    let mut media = make_media(Some(1), Some("CURRENT"), Some("xxxxxxxx"), Some("yyyyyyyy"));
    media.alt_titles = Some(AltTitlesEntry {
        media_id: 1,
        alt_titles: vec!["first alias".to_owned(), "second alias".to_owned()],
    });
    let schedules = schedule_map(&[
        schedule_entry("second alias", Day::Monday, "11:11"),
        schedule_entry("first alias", Day::Saturday, "00:00"),
    ]);
    let i = resolve_index(&media, &schedules.0, 800).unwrap();
    assert_eq!(
        schedules.0.value_at(i),
        &schedule_entry("first alias", Day::Saturday, "00:00")
    );
}

#[test]
fn threshold_boundary_rejects_exact_threshold() {
    // "abcde" against "abcdX" scores exactly 4/5 = 0.8: at a threshold of
    // 0.8 the candidate is rejected, just below it the same candidate is
    // accepted.
    let media = make_media(Some(1), Some("CURRENT"), Some("abcde"), None);
    let schedules = schedule_map(&[schedule_entry("abcdX", Day::Friday, "00:00")]);

    assert_eq!(resolve_index(&media, &schedules.0, 800), None);

    let i = resolve_index(&media, &schedules.0, 799).unwrap();
    assert_eq!(i, 0);
}

#[test]
fn status_gating_blocks_perfect_match() {
    let config = test_config();
    let scraper = SubsPleaseScraper::new(&config);
    let schedules = schedule_map(&[schedule_entry("Gintama", Day::Saturday, "00:00")]);

    for status in [Some("COMPLETED"), Some("PLANNING"), None] {
        let mut media = make_media(Some(1), status, Some("Gintama"), Some("Gintama"));
        scraper.transform(&mut media, &schedules).unwrap();
        assert_eq!(media.schedule, None);
    }
}

#[test]
fn resolve_end_to_end_fuzzy() {
    // The canonical record resolves against a near-exact schedule key,
    // and against an unrelated key it resolves nothing.
    let media = make_media(Some(1), Some("CURRENT"), Some("Gintama"), Some("Gin Tama"));

    let close = schedule_map(&[schedule_entry("gintama", Day::Saturday, "00:00")]);
    let i = resolve_index(&media, &close.0, 800).unwrap();
    assert_eq!(close.0.value_at(i), &schedule_entry("gintama", Day::Saturday, "00:00"));

    let unrelated = schedule_map(&[schedule_entry("naruto", Day::Monday, "00:00")]);
    assert_eq!(resolve_index(&media, &unrelated.0, 800), None);
}

#[test]
fn combiner_leaves_schedule_when_nothing_matches() {
    let config = test_config();
    let combiner = Combiner::new(CombinerConfig {
        similarity_threshold: config.transform.similarity_threshold,
    });
    let mut media = vec![make_media(Some(1), Some("CURRENT"), Some("Gintama"), None)];
    media[0].schedule = Some(schedule_entry("earlier", Day::Monday, "09:00"));
    let schedules = vec![schedule_entry("naruto", Day::Monday, "00:00")];
    combiner.combine(&mut media, &schedules).unwrap();
    assert_eq!(
        media[0].schedule,
        Some(schedule_entry("earlier", Day::Monday, "09:00"))
    );
}
