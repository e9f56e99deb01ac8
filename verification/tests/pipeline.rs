use aggregator::aggregator::{Aggregator, Data, Sources};
use aggregator::alt_titles::{AltTitles, AltTitlesDB, AltTitlesEntry};
use aggregator::anilist::{
    AniListAPI, CoverImage, Entry, MediaList, MediaTitle, ResultMedia,
};
use aggregator::config::{
    AggregatorConfig, AniListAPIConfig, CombinerConfig, Config, DBConfig, EmitterConfig,
    MangaDexAPIConfig, MongoDBConfig, RedisConfig, SubsPleaseConfig, SubsPleaseRSSConfig,
    SubsPleaseScraperConfig, TransformConfig, WorkerConfig,
};
use aggregator::extra_map::{ExtraMap, IdMap};
use aggregator::mangadex::{MangaDexAPI, MangaLatest};
use aggregator::media::{Latest, Media, MediaLists, MediaType, User};
use aggregator::merge::Merge;
use aggregator::rss::{AnimeLatest, SubsPleaseRSS};
use aggregator::scraper::{AnimeSchedule, AnimeScheduleEntry, Day, SubsPleaseScraper};
use aggregator::store::{hash_document, Collection, DocumentStore};

use tantivy::collector::TopDocs;
use tantivy::query::QueryParser;
use tantivy::schema::{Schema, Value, STORED, STRING, TEXT};
use tantivy::{Index, TantivyDocument};

fn pipeline_config() -> Config {
    Config {
        aggregator: AggregatorConfig { ttl: 600 },
        anilist_api: AniListAPIConfig { url: "https://graphql.anilist.co".to_owned() },
        combiner: CombinerConfig { similarity_threshold: 800 },
        db: DBConfig {
            mongodb: MongoDBConfig {
                uri: "mongodb://localhost:27017".to_owned(),
                database: "test".to_owned(),
            },
            redis: RedisConfig { uri: "redis://localhost".to_owned() },
        },
        emitter: EmitterConfig { similarity_threshold: 800 },
        mangadex_api: MangaDexAPIConfig {
            url: "https://api.mangadex.org/list".to_owned(),
            manga_agg_url: "https://api.mangadex.org/manga/{id}/aggregate".to_owned(),
            rate_limit: 5,
        },
        subsplease: SubsPleaseConfig {
            rss: SubsPleaseRSSConfig { url: "https://subsplease.org/rss".to_owned() },
            scraper: SubsPleaseScraperConfig {
                url: "https://subsplease.org/schedule".to_owned(),
                webdriver_url: "http://localhost:4444".to_owned(),
                chrome_options: "--headless".to_owned(),
            },
        },
        transform: TransformConfig { similarity_threshold: 800 },
        worker: WorkerConfig { retry_timeout: 10 },
    }
}

fn record(media_id: Option<u64>, status: &str, title: &str, english_title: &str) -> Media {
    Media {
        media_id,
        media_type: None,
        status: Some(status.to_owned()),
        format: None,
        season: None,
        season_year: None,
        title: Some(title.to_owned()),
        english_title: Some(english_title.to_owned()),
        image: None,
        episodes: None,
        score: None,
        progress: None,
        schedule: None,
        latest: None,
        alt_titles: None,
    }
}

#[test]
fn upsert_documents_is_idempotent() {
    let mut collection = Collection::new();
    let records = vec![
        record(Some(918), "CURRENT", "Gintama", "Gin Tama"),
        record(Some(30044), "CURRENT", "Gintama", "Gin Tama"),
        record(Some(918), "CURRENT", "Gintama", "Gin Tama"),
    ];

    collection.upsert_documents(&records, 1000).unwrap();
    assert_eq!(collection.len(), 2);
    let first: Vec<(Option<u64>, u64)> = (0..collection.len())
        .map(|i| (collection.doc_at(i).media.media_id, collection.doc_at(i).hash))
        .collect();

    collection.upsert_documents(&records, 2000).unwrap();
    assert_eq!(collection.len(), 2);
    for i in 0..collection.len() {
        assert_eq!(collection.doc_at(i).media.media_id, first[i].0);
        assert_eq!(collection.doc_at(i).hash, first[i].1);
        assert_eq!(collection.doc_at(i).modified, 2000);
    }
}

#[test]
fn upsert_replaces_by_id_and_rejects_missing_ids() {
    let mut collection = Collection::new();
    collection
        .upsert_documents(&vec![record(Some(1), "CURRENT", "old title", "x")], 10)
        .unwrap();
    collection
        .upsert_documents(&vec![record(Some(1), "CURRENT", "new title", "x")], 20)
        .unwrap();
    assert_eq!(collection.len(), 1);
    assert_eq!(collection.doc_at(0).media.title, Some("new title".to_owned()));
    assert_eq!(collection.doc_at(0).modified, 20);

    let err = collection
        .upsert_documents(&vec![record(None, "CURRENT", "no id", "x")], 30)
        .unwrap_err();
    assert_eq!(err.message().as_str(), "Could not find media_id.");
    assert_eq!(collection.len(), 1);
}

#[test]
fn content_hash_tracks_content_not_time() {
    let a = record(Some(1), "CURRENT", "Gintama", "Gin Tama");
    let b = record(Some(1), "CURRENT", "Gintama", "Gin Tama");
    let c = record(Some(1), "CURRENT", "Gintama!", "Gin Tama");
    assert_eq!(hash_document(&a), hash_document(&b));
    assert_ne!(hash_document(&a), hash_document(&c));
}

#[test]
fn anilist_transform_maps_entries() {
    let config = pipeline_config();
    let api = AniListAPI::new(&config);
    let lists = vec![MediaList {
        entries: vec![Entry {
            media: ResultMedia {
                id: Some(918),
                media_kind: Some("ANIME".to_owned()),
                format: Some("TV".to_owned()),
                season: Some("SPRING".to_owned()),
                season_year: Some(2006),
                title: MediaTitle {
                    romaji: Some("Gintama".to_owned()),
                    english: Some("Gin Tama".to_owned()),
                },
                cover_image: CoverImage { large: Some("http://img.invalid/g.png".to_owned()) },
                episodes: Some(201),
            },
            status: Some("CURRENT".to_owned()),
            score: Some(90),
            progress: Some(150),
        }],
    }];
    let media = api.transform(&lists).unwrap();
    assert_eq!(media.len(), 1);
    let m = &media[0];
    assert_eq!(m.media_id, Some(918));
    assert_eq!(m.media_type, Some(MediaType::Anime));
    assert_eq!(m.status, Some("CURRENT".to_owned()));
    assert_eq!(m.title, Some("Gintama".to_owned()));
    assert_eq!(m.english_title, Some("Gin Tama".to_owned()));
    assert_eq!(m.episodes, Some(201));
    assert_eq!(m.schedule, None);
    assert_eq!(m.latest, None);
    assert_eq!(m.alt_titles, None);
}

#[test]
fn combine_lists_appends_in_order() {
    let a = MediaLists {
        anime: vec![record(Some(1), "CURRENT", "a", "a")],
        manga: vec![],
    };
    let b = MediaLists {
        anime: vec![record(Some(2), "CURRENT", "b", "b")],
        manga: vec![record(Some(3), "CURRENT", "c", "c")],
    };
    let combined = AniListAPI::combine_lists(vec![a, b]).unwrap();
    assert_eq!(combined.anime.len(), 2);
    assert_eq!(combined.anime[0].media_id, Some(1));
    assert_eq!(combined.anime[1].media_id, Some(2));
    assert_eq!(combined.manga.len(), 1);

    let err = AniListAPI::combine_lists(vec![]).unwrap_err();
    assert_eq!(err.message().as_str(), "Could not reduce lists.");
}

#[test]
fn test_run() {
    // One full pipeline turn over extracted data: enrich, then persist.
    let config = pipeline_config();
    let sources = Sources {
        anilist_api: AniListAPI::new(&config),
        subsplease_scraper: SubsPleaseScraper::new(&config),
        subsplease_rss: SubsPleaseRSS::new(&config),
        mangadex_api: MangaDexAPI::new(&config),
        alt_titles_db: AltTitlesDB::new(&config),
    };
    let aggregator = Aggregator::new(&config);

    let mut schedule = ExtraMap::new();
    schedule.insert(
        "gintama".to_owned(),
        AnimeScheduleEntry {
            title: "gintama".to_owned(),
            day: Day::Saturday,
            time: "00:00".to_owned(),
        },
    );
    let mut alt_titles = IdMap::new();
    alt_titles.insert(
        918,
        AltTitlesEntry { media_id: 918, alt_titles: vec!["Silver Soul".to_owned()] },
    );
    let mut manga_latest = ExtraMap::new();
    manga_latest.insert(
        "gintama".to_owned(),
        Latest {
            title: "gintama".to_owned(),
            episode: 704,
            url: "https://mangadex.org/chapter/zz".to_owned(),
        },
    );

    let mut data = Data {
        lists: MediaLists {
            anime: vec![record(Some(918), "CURRENT", "Gintama", "Gin Tama")],
            manga: vec![record(Some(30044), "CURRENT", "Gintama", "Gin Tama")],
        },
        schedule: AnimeSchedule(schedule),
        alt_titles: AltTitles(alt_titles),
        anime_latest: AnimeLatest(ExtraMap::new()),
        manga_latest: MangaLatest(manga_latest),
    };
    let mut store = DocumentStore::init();

    aggregator.run(&sources, &mut data, &mut store, 123).unwrap();

    assert_eq!(store.anime.len(), 1);
    let anime = store.anime.doc_at(0);
    assert_eq!(anime.media.media_id, Some(918));
    assert_eq!(anime.media.title, Some("Gintama".to_owned()));
    assert_eq!(
        anime.media.alt_titles,
        Some(AltTitlesEntry { media_id: 918, alt_titles: vec!["Silver Soul".to_owned()] })
    );
    assert_eq!(
        anime.media.schedule,
        Some(AnimeScheduleEntry {
            title: "gintama".to_owned(),
            day: Day::Saturday,
            time: "00:00".to_owned(),
        })
    );
    assert_eq!(anime.modified, 123);

    assert_eq!(store.manga.len(), 1);
    let manga = store.manga.doc_at(0);
    assert_eq!(manga.media.media_id, Some(30044));
    assert_eq!(manga.media.title, Some("Gintama".to_owned()));
    assert_eq!(manga.media.latest.as_ref().unwrap().episode, 704);
}

#[test]
fn store_keeps_users_and_alt_titles_unique() {
    let mut store = DocumentStore::init();
    store.users.insert(1, User { id: 1, name: "first".to_owned() });
    store.users.insert(1, User { id: 1, name: "renamed".to_owned() });
    store.users.insert(2, User { id: 2, name: "second".to_owned() });
    assert_eq!(store.users.len(), 2);
    assert_eq!(store.users.get(1).unwrap().name, "renamed");

    store.alt_titles.insert(
        918,
        AltTitlesEntry { media_id: 918, alt_titles: vec!["Silver Soul".to_owned()] },
    );
    store.alt_titles.insert(
        918,
        AltTitlesEntry { media_id: 918, alt_titles: vec!["Silver Soul".to_owned(), "Gin Tama".to_owned()] },
    );
    assert_eq!(store.alt_titles.len(), 1);
    assert_eq!(
        store.alt_titles.get(918).unwrap().alt_titles,
        vec!["Silver Soul".to_owned(), "Gin Tama".to_owned()]
    );
}

#[test]
fn media_lists_append_moves_everything() {
    let mut a = MediaLists {
        anime: vec![record(Some(1), "CURRENT", "a", "a")],
        manga: vec![record(Some(2), "CURRENT", "b", "b")],
    };
    let mut b = MediaLists {
        anime: vec![record(Some(3), "CURRENT", "c", "c")],
        manga: vec![],
    };
    a.append(&mut b);
    assert_eq!(a.anime.len(), 2);
    assert_eq!(a.manga.len(), 1);
    assert_eq!(b.anime.len(), 0);
    assert_eq!(b.manga.len(), 0);
}

#[test]
fn merge_searches_only_current_records() {
    let mut no_status = record(Some(1), "CURRENT", "Gintama", "Gin Tama");
    no_status.status = None;
    let completed = record(Some(2), "COMPLETED", "Gintama", "Gin Tama");
    let current = record(Some(3), "CURRENT", "Gintama", "Gin Tama");
    let mut media = vec![no_status, completed, current];
    let schedules = vec![AnimeScheduleEntry {
        title: "gintama".to_owned(),
        day: Day::Saturday,
        time: "00:00".to_owned(),
    }];

    let queries = Merge::prepare_queries(&media);
    assert_eq!(queries[0], None);
    assert_eq!(queries[1], None);
    assert_eq!(queries[2], Some(("Gintama".to_owned(), "Gin Tama".to_owned())));

    // Even a verdict planted for a skipped record does not enrich it.
    let choices = vec![Some(0), Some(0), Some(0)];
    Merge::apply_choices(&mut media, &schedules, &choices).unwrap();
    assert_eq!(media[0].schedule, None);
    assert_eq!(media[1].schedule, None);
    assert_eq!(media[2].schedule.as_ref(), Some(&schedules[0]));
}

#[test]
fn test_merge() {
    let mut media = vec![record(Some(1), "CURRENT", "Gintama", "Gin Tama")];
    let schedules = vec![AnimeScheduleEntry {
        title: "gintama".to_owned(),
        day: Day::Saturday,
        time: "00:00".to_owned(),
    }];

    // The verified sides: query preparation and verdict application; the
    // full-text index between them ranks by its own scores.
    let queries = Merge::prepare_queries(&media);

    let mut schema_builder = Schema::builder();
    let schedule_index = schema_builder.add_text_field("schedule_index", STRING | STORED);
    let title_field = schema_builder.add_text_field("title", TEXT | STORED);
    let schema = schema_builder.build();
    let index = Index::create_in_ram(schema);
    let mut writer = index.writer::<TantivyDocument>(50_000_000).unwrap();
    for (i, entry) in schedules.iter().enumerate() {
        let mut document = TantivyDocument::default();
        document.add_text(schedule_index, i.to_string());
        document.add_text(title_field, &entry.title);
        writer.add_document(document).unwrap();
    }
    writer.commit().unwrap();
    let reader = index.reader().unwrap();
    let searcher = reader.searcher();
    let query_parser = QueryParser::for_index(&index, vec![title_field]);

    let mut choices: Vec<Option<usize>> = Vec::new();
    for query in &queries {
        let choice = match query {
            Some((title, alt_title)) => {
                let search_one = |text: &str| -> Option<(f32, usize)> {
                    let parsed = query_parser.parse_query(text).ok()?;
                    let top = searcher.search(&parsed, &TopDocs::with_limit(1).order_by_score()).ok()?;
                    let (score, address) = top.first()?;
                    let doc: TantivyDocument = searcher.doc(*address).ok()?;
                    let idx = doc.get_first(schedule_index)?.as_str()?.parse::<usize>().ok()?;
                    Some((*score, idx))
                };
                let by_title = search_one(title);
                let by_alt = search_one(alt_title);
                match (by_title, by_alt) {
                    (Some((s1, i1)), Some((s2, i2))) => {
                        if s1 > s2 {
                            Some(i1)
                        } else {
                            Some(i2)
                        }
                    },
                    (Some((_, i1)), None) => Some(i1),
                    (None, Some((_, i2))) => Some(i2),
                    (None, None) => None,
                }
            },
            None => None,
        };
        choices.push(choice);
    }

    Merge::apply_choices(&mut media, &schedules, &choices).unwrap();

    let actual = media[0].schedule.as_ref().unwrap();
    let expected = &schedules[0];

    assert_eq!(actual, expected);
}
