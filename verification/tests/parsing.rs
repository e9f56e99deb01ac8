use aggregator::config::{
    AggregatorConfig, AniListAPIConfig, CombinerConfig, Config, DBConfig, EmitterConfig,
    MangaDexAPIConfig, MongoDBConfig, RedisConfig, SubsPleaseConfig, SubsPleaseRSSConfig,
    SubsPleaseScraperConfig, TransformConfig, WorkerConfig,
};
use aggregator::emitter::{Emitted, Emitter, MediaLite};
use aggregator::extra_map::ExtraMap;
use aggregator::mangadex::{
    chapter_number, MangaAggregate, MangaAggregateVolumes, MangaChapter, MangaDexAPI, MangaList,
    MangaListAttributes, MangaListData, MangaListRelationship,
};
use aggregator::media::{Latest, MediaType};
use aggregator::rss::{episode_number, AnimeRss, SubsPleaseRSS};
use aggregator::scraper::{AnimeScheduleEntry, Day, ScheduleRow, SubsPleaseScraper};
use aggregator::text::{remove_all, u64_to_string};

fn parsing_config() -> Config {
    Config {
        aggregator: AggregatorConfig { ttl: 600 },
        anilist_api: AniListAPIConfig { url: "https://graphql.anilist.co".to_owned() },
        combiner: CombinerConfig { similarity_threshold: 800 },
        db: DBConfig {
            mongodb: MongoDBConfig {
                uri: "mongodb://localhost:27017".to_owned(),
                database: "test".to_owned(),
            },
            redis: RedisConfig { uri: "redis://localhost".to_owned() },
        },
        emitter: EmitterConfig { similarity_threshold: 800 },
        mangadex_api: MangaDexAPIConfig {
            url: "https://api.mangadex.org/list".to_owned(),
            manga_agg_url: "https://api.mangadex.org/manga/{id}/aggregate".to_owned(),
            rate_limit: 2,
        },
        subsplease: SubsPleaseConfig {
            rss: SubsPleaseRSSConfig { url: "https://subsplease.org/rss".to_owned() },
            scraper: SubsPleaseScraperConfig {
                url: "https://subsplease.org/schedule".to_owned(),
                webdriver_url: "http://localhost:4444".to_owned(),
                chrome_options: "--headless".to_owned(),
            },
        },
        transform: TransformConfig { similarity_threshold: 800 },
        worker: WorkerConfig { retry_timeout: 10 },
    }
}

#[test]
fn remove_all_strips_every_occurrence() {
    assert_eq!(remove_all("Gintama - 720", " - 720"), "Gintama");
    assert_eq!(remove_all("A - 720B - 720", " - 720"), "AB");
    assert_eq!(remove_all("untouched", " - 720"), "untouched");
    assert_eq!(remove_all("", " - 720"), "");
}

#[test]
fn episode_number_reads_the_marker() {
    assert_eq!(episode_number("[SubsPlease] Gintama - 12 (720p) [ABCD].mkv"), 12);
    assert_eq!(episode_number("Gintama 0372 (720p)"), 372);
    assert_eq!(episode_number("no marker here"), 0);
    assert_eq!(episode_number("12 (1080p)"), 0);
    // Digits that do not fit a machine word fall back to zero.
    assert_eq!(episode_number("99999999999999999999999999 (720p)"), 0);
    // The leftmost marker wins.
    assert_eq!(episode_number("3 (720p) then 7 (720p)"), 3);
}

#[test]
fn rss_items_keep_highest_episode_per_show() {
    let items = vec![
        AnimeRss {
            title: "Gintama - 11 (720p)".to_owned(),
            link: "http://example.invalid/11".to_owned(),
            category: "Gintama - 720".to_owned(),
        },
        AnimeRss {
            title: "Gintama - 12 (720p)".to_owned(),
            link: "http://example.invalid/12".to_owned(),
            category: "Gintama - 720".to_owned(),
        },
        AnimeRss {
            title: "Gintama - 9 (720p)".to_owned(),
            link: "http://example.invalid/9".to_owned(),
            category: "Gintama - 720".to_owned(),
        },
    ];
    let latest = SubsPleaseRSS::latest_from_items(&items);
    assert_eq!(latest.0.len(), 1);
    let entry = latest.0.get("Gintama").unwrap();
    assert_eq!(entry.episode, 12);
    assert_eq!(entry.url, "http://example.invalid/12");
}

#[test]
fn chapter_number_takes_integer_part() {
    assert_eq!(chapter_number("24"), Some(24));
    assert_eq!(chapter_number("24.5"), Some(24));
    assert_eq!(chapter_number("24."), Some(24));
    assert_eq!(chapter_number(".5"), None);
    assert_eq!(chapter_number("abc"), None);
    assert_eq!(chapter_number(""), None);
    assert_eq!(
        chapter_number("99999999999999999999999999"),
        Some(u64::MAX)
    );
}

#[test]
fn latest_chapter_prefers_highest_and_last() {
    let config = parsing_config();
    let api = MangaDexAPI::new(&config);
    let agg = MangaAggregate {
        result: "ok".to_owned(),
        volumes: vec![
            MangaAggregateVolumes {
                chapters: vec![
                    MangaChapter { number: "1".to_owned(), id: "aa".to_owned() },
                    MangaChapter { number: "2.5".to_owned(), id: "bb".to_owned() },
                ],
            },
            MangaAggregateVolumes {
                chapters: vec![MangaChapter { number: "2".to_owned(), id: "cc".to_owned() }],
            },
        ],
    };
    let (episode, url) = api.latest_chapter(&agg);
    // Chapter 2 ties the integer part of 2.5 and is seen later, so its
    // id wins, mirroring the at-least-as-high rule.
    assert_eq!(episode, 2);
    assert_eq!(url, "https://mangadex.org/chapter/cc");

    let bad = MangaAggregate { result: "error".to_owned(), volumes: vec![] };
    let (episode, url) = api.latest_chapter(&bad);
    assert_eq!(episode, 0);
    assert_eq!(url, "");
}

#[test]
fn eligible_manga_picks_titles_and_ids() {
    let config = parsing_config();
    let api = MangaDexAPI::new(&config);

    let mut ja = ExtraMap::new();
    ja.insert("ja-ro".to_owned(), "Gintama".to_owned());
    ja.insert("en".to_owned(), "Gin Tama".to_owned());
    let mut en_only = ExtraMap::new();
    en_only.insert("en".to_owned(), "Silver Soul".to_owned());
    let empty = ExtraMap::new();

    let list = MangaList {
        result: "ok".to_owned(),
        data: MangaListData {
            relationships: vec![
                MangaListRelationship {
                    id: "id-1".to_owned(),
                    rel_kind: "manga".to_owned(),
                    attributes: Some(MangaListAttributes { title: ja }),
                },
                MangaListRelationship {
                    id: "id-2".to_owned(),
                    rel_kind: "author".to_owned(),
                    attributes: None,
                },
                MangaListRelationship {
                    id: "id-3".to_owned(),
                    rel_kind: "manga".to_owned(),
                    attributes: Some(MangaListAttributes { title: en_only }),
                },
                MangaListRelationship {
                    id: "id-4".to_owned(),
                    rel_kind: "manga".to_owned(),
                    attributes: Some(MangaListAttributes { title: empty }),
                },
            ],
        },
    };
    let pairs = api.eligible_manga(&list).unwrap();
    assert_eq!(
        pairs,
        vec![
            ("Gintama".to_owned(), "id-1".to_owned()),
            ("Silver Soul".to_owned(), "id-3".to_owned()),
        ]
    );

    let bad = MangaList {
        result: "error".to_owned(),
        data: MangaListData { relationships: vec![] },
    };
    let err = api.eligible_manga(&bad).unwrap_err();
    assert_eq!(err.message().as_str(), "Could not fetch manga list.");
}

#[test]
fn batches_respect_the_rate_limit() {
    let config = parsing_config();
    let api = MangaDexAPI::new(&config);
    let pairs: Vec<(String, String)> = ["a", "b", "c", "d", "e"]
        .iter()
        .map(|t| (t.to_string(), format!("id-{}", t)))
        .collect();
    let batches = api.collect_batches(&pairs);
    assert_eq!(batches.len(), 3);
    assert_eq!(batches[0].len(), 2);
    assert_eq!(batches[1].len(), 2);
    assert_eq!(batches[2].len(), 1);
    assert_eq!(batches[2][0].0, "e");
}

#[test]
fn schedule_rows_follow_day_headers() {
    let rows = vec![
        ScheduleRow {
            class: Some("day-of-week".to_owned()),
            heading: "Saturday".to_owned(),
            title: "".to_owned(),
            time: "".to_owned(),
        },
        ScheduleRow {
            class: Some("all-schedule-item".to_owned()),
            heading: "".to_owned(),
            title: "gintama".to_owned(),
            time: "00:00".to_owned(),
        },
        ScheduleRow {
            class: Some("all-schedule-item".to_owned()),
            heading: "".to_owned(),
            title: "".to_owned(),
            time: "00:30".to_owned(),
        },
        ScheduleRow {
            class: Some("day-of-week".to_owned()),
            heading: "NotADay".to_owned(),
            title: "".to_owned(),
            time: "".to_owned(),
        },
        ScheduleRow {
            class: Some("all-schedule-item".to_owned()),
            heading: "".to_owned(),
            title: "orphan".to_owned(),
            time: "01:00".to_owned(),
        },
        ScheduleRow {
            class: None,
            heading: "".to_owned(),
            title: "ignored".to_owned(),
            time: "02:00".to_owned(),
        },
    ];
    let schedule = SubsPleaseScraper::schedule_from_rows(&rows);
    assert_eq!(schedule.0.len(), 1);
    assert_eq!(
        schedule.0.get("gintama").unwrap(),
        &AnimeScheduleEntry {
            title: "gintama".to_owned(),
            day: Day::Saturday,
            time: "00:00".to_owned(),
        }
    );
}

#[test]
fn day_from_str_accepts_only_day_names() {
    assert_eq!(Day::from_str("Sunday").unwrap(), Day::Sunday);
    assert_eq!(Day::from_str("Saturday").unwrap(), Day::Saturday);
    let err = Day::from_str("saturday").unwrap_err();
    assert_eq!(err.message().as_str(), "Invalid day.");
}

#[test]
fn media_type_from_str_ignores_case() {
    assert_eq!(MediaType::from_str("ANIME").unwrap(), MediaType::Anime);
    assert_eq!(MediaType::from_str("Manga").unwrap(), MediaType::Manga);
    let err = MediaType::from_str("Book").unwrap_err();
    assert_eq!(err.message().as_str(), "Invalid media type: book.");
    assert_eq!(MediaType::from_option_str(Some("anime")), Some(MediaType::Anime));
    assert_eq!(MediaType::from_option_str(Some("book")), None);
    assert_eq!(MediaType::from_option_str(None), None);
}

#[test]
fn decimal_formatting_is_exact() {
    assert_eq!(u64_to_string(0), "0");
    assert_eq!(u64_to_string(7), "7");
    assert_eq!(u64_to_string(10250), "10250");
    assert_eq!(u64_to_string(u64::MAX), "18446744073709551615");
}

#[test]
fn emitter_test_combine() {
    let media = vec![MediaLite {
        status: "CURRENT".to_owned(),
        title: "Gintama".to_owned(),
        alt_title: "Gin Tama".to_owned(),
    }];
    let schedules = vec![
        AnimeScheduleEntry {
            title: "gintama".to_owned(),
            day: Day::Saturday,
            time: "00:00".to_owned(),
        },
        AnimeScheduleEntry {
            title: "naruto".to_owned(),
            day: Day::Monday,
            time: "00:00".to_owned(),
        },
        AnimeScheduleEntry {
            title: "tamako market".to_owned(),
            day: Day::Friday,
            time: "00:00".to_owned(),
        },
    ];

    let (snd, rcv) = crossbeam_channel::bounded(4);

    let config = parsing_config();
    let emitter = Emitter::new(&config.emitter);
    let emitted = emitter.emit(&media, &schedules, "schedule").unwrap();
    for msg in emitted {
        snd.send(msg).unwrap();
    }
    drop(snd);

    let mut msgs: Vec<Emitted> = Vec::new();
    for msg in rcv.iter() {
        msgs.push(msg);
    }

    assert_eq!(msgs[0].index, 0);
    assert_eq!(msgs[0].key, "schedule");
    let actual: serde_json::Value = serde_json::from_str(&msgs[0].json).unwrap();
    let expected: serde_json::Value =
        serde_json::from_str("{\"title\":\"gintama\",\"day\":\"Saturday\",\"time\":\"00:00\"}")
            .unwrap();
    assert_eq!(actual, expected);
}

#[test]
fn emitted_json_escapes_and_numbers() {
    let config = parsing_config();
    let emitter = Emitter::new(&config.emitter);
    let media = vec![MediaLite {
        status: "CURRENT".to_owned(),
        title: "He said \"hi\"\n".to_owned(),
        alt_title: "".to_owned(),
    }];
    let extras = vec![Latest {
        title: "He said \"hi\"\t".to_owned(),
        episode: 1042,
        url: "http://example.invalid/a\\b".to_owned(),
    }];
    let emitted = emitter.emit(&media, &extras, "latest").unwrap();
    assert_eq!(emitted.len(), 1);
    assert_eq!(
        emitted[0].json,
        "{\"title\":\"He said \\\"hi\\\"\\t\",\"episode\":1042,\"url\":\"http://example.invalid/a\\\\b\"}"
    );
    let parsed: serde_json::Value = serde_json::from_str(&emitted[0].json).unwrap();
    assert_eq!(parsed["episode"], serde_json::Value::from(1042u64));
}
