use vstd::prelude::*;
use vstd::pervasive::VecAdditionalExecFns;

use crate::alt_titles::{spec_transform_alt_titles, AltTitles, AltTitlesDB};
use crate::anilist::AniListAPI;
use crate::config::Config;
use crate::error::AggregatorError;
use crate::mangadex::{MangaDexAPI, MangaLatest};
use crate::media::{MediaLists, MediaView};
use crate::rss::{spec_transform_latest, AnimeLatest, SubsPleaseRSS};
use crate::scraper::{spec_transform_schedule, AnimeSchedule, SubsPleaseScraper};
use crate::store::{upsert_failed, upsert_ok, DocumentStore};

verus! {

/// Everything one pipeline run extracts: the canonical lists and each
/// secondary source's keyed extras.
pub struct Data {
    pub lists: MediaLists,
    pub schedule: AnimeSchedule,
    pub alt_titles: AltTitles,
    pub anime_latest: AnimeLatest,
    pub manga_latest: MangaLatest,
}

/// The five sources of one pipeline run.
pub struct Sources<'a> {
    pub anilist_api: AniListAPI<'a>,
    pub subsplease_scraper: SubsPleaseScraper<'a>,
    pub subsplease_rss: SubsPleaseRSS<'a>,
    pub mangadex_api: MangaDexAPI<'a>,
    pub alt_titles_db: AltTitlesDB<'a>,
}

/// What the transform stage makes of one anime record: alternate titles
/// are linked first, so that the later title-keyed stages can match on
/// the populated alias list; then the broadcast schedule, then the
/// release feed.
pub open spec fn spec_enrich_anime(
    m: MediaView,
    data: Data,
    t_sched: int,
    t_latest: int,
) -> MediaView {
    spec_transform_latest(
        spec_transform_schedule(
            spec_transform_alt_titles(m, data.alt_titles.0@),
            data.schedule.0@,
            t_sched,
        ),
        data.anime_latest.0@,
        t_latest,
    )
}

/// What the transform stage makes of one manga record: alternate titles,
/// then the latest-chapter aggregate.
pub open spec fn spec_enrich_manga(m: MediaView, data: Data, t: int) -> MediaView {
    spec_transform_latest(spec_transform_alt_titles(m, data.alt_titles.0@), data.manga_latest.0@, t)
}

/// The anime list after the transform stage.
pub open spec fn spec_anime_result(data: Data, t_sched: int, t_latest: int) -> Seq<MediaView> {
    data.lists.anime.deep_view().map_values(
        |m: MediaView| spec_enrich_anime(m, data, t_sched, t_latest),
    )
}

/// The manga list after the transform stage.
pub open spec fn spec_manga_result(data: Data, t: int) -> Seq<MediaView> {
    data.lists.manga.deep_view().map_values(|m: MediaView| spec_enrich_manga(m, data, t))
}

/// Sequences the pipeline: transform every record through the ordered
/// enrichment stages, then persist both lists.
pub struct Aggregator<'a> {
    pub config: &'a Config,
}

impl<'a> Aggregator<'a> {
    pub fn new(config: &'a Config) -> (a: Aggregator<'a>)
        ensures
            a.config == config,
    {
        Aggregator { config }
    }

    /// Enriches every record, record by record and stage by stage; a
    /// stage that finds nothing leaves its field alone, and no record's
    /// failure can touch another record.
    pub fn transform(&self, sources: &Sources<'a>, data: &mut Data) -> (r: Result<
        (),
        AggregatorError,
    >)
        ensures
            r is Ok,
            final(data).lists.anime.deep_view() == spec_anime_result(
                *old(data),
                sources.subsplease_scraper.config.transform.similarity_threshold as int,
                sources.subsplease_rss.config.transform.similarity_threshold as int,
            ),
            final(data).lists.manga.deep_view() == spec_manga_result(
                *old(data),
                sources.mangadex_api.config.transform.similarity_threshold as int,
            ),
            final(data).schedule == old(data).schedule,
            final(data).alt_titles == old(data).alt_titles,
            final(data).anime_latest == old(data).anime_latest,
            final(data).manga_latest == old(data).manga_latest,
    {
        let ghost orig = *old(data);
        let ghost t_sched =
            sources.subsplease_scraper.config.transform.similarity_threshold as int;
        let ghost t_latest = sources.subsplease_rss.config.transform.similarity_threshold as int;
        let ghost t_manga = sources.mangadex_api.config.transform.similarity_threshold as int;
        let ghost anime_goal = spec_anime_result(orig, t_sched, t_latest);
        let ghost manga_goal = spec_manga_result(orig, t_manga);

        let n = data.lists.anime.len();
        let mut i: usize = 0;
        while i < n
            invariant
                n == data.lists.anime@.len(),
                data.lists.anime@.len() == orig.lists.anime@.len(),
                data.lists.manga == orig.lists.manga,
                data.schedule == orig.schedule,
                data.alt_titles == orig.alt_titles,
                data.anime_latest == orig.anime_latest,
                data.manga_latest == orig.manga_latest,
                t_sched == sources.subsplease_scraper.config.transform.similarity_threshold as int,
                t_latest == sources.subsplease_rss.config.transform.similarity_threshold as int,
                anime_goal == spec_anime_result(orig, t_sched, t_latest),
                anime_goal.len() == n,
                0 <= i <= n,
                forall|j: int| 0 <= j < i ==> data.lists.anime.deep_view()[j] == anime_goal[j],
                forall|j: int|
                    i <= j < n ==> data.lists.anime.deep_view()[j]
                        == orig.lists.anime.deep_view()[j],
            decreases n - i,
        {
            let mut m = data.lists.anime[i].clone();
            let _ = sources.alt_titles_db.transform(&mut m, &data.alt_titles);
            let _ = sources.subsplease_scraper.transform(&mut m, &data.schedule);
            let _ = sources.subsplease_rss.transform(&mut m, &data.anime_latest);
            let ghost before = data.lists.anime.deep_view();
            data.lists.anime.set(i, m);
            proof {
                assert(data.lists.anime.deep_view() =~= before.update(
                    i as int,
                    anime_goal[i as int],
                ));
            }
            i = i + 1;
        }
        proof {
            assert(data.lists.anime.deep_view() =~= anime_goal);
        }

        let n = data.lists.manga.len();
        let mut i: usize = 0;
        while i < n
            invariant
                n == data.lists.manga@.len(),
                data.lists.manga@.len() == orig.lists.manga@.len(),
                data.lists.anime.deep_view() == anime_goal,
                data.schedule == orig.schedule,
                data.alt_titles == orig.alt_titles,
                data.anime_latest == orig.anime_latest,
                data.manga_latest == orig.manga_latest,
                t_manga == sources.mangadex_api.config.transform.similarity_threshold as int,
                manga_goal == spec_manga_result(orig, t_manga),
                manga_goal.len() == n,
                0 <= i <= n,
                forall|j: int| 0 <= j < i ==> data.lists.manga.deep_view()[j] == manga_goal[j],
                forall|j: int|
                    i <= j < n ==> data.lists.manga.deep_view()[j]
                        == orig.lists.manga.deep_view()[j],
            decreases n - i,
        {
            let mut m = data.lists.manga[i].clone();
            let _ = sources.alt_titles_db.transform(&mut m, &data.alt_titles);
            let _ = sources.mangadex_api.transform(&mut m, &data.manga_latest);
            let ghost before = data.lists.manga.deep_view();
            data.lists.manga.set(i, m);
            proof {
                assert(data.lists.manga.deep_view() =~= before.update(
                    i as int,
                    manga_goal[i as int],
                ));
            }
            i = i + 1;
        }
        proof {
            assert(data.lists.manga.deep_view() =~= manga_goal);
        }
        Ok(())
    }

    /// Persists both enriched lists, each through the idempotent upsert;
    /// a failed batch fails the call fast, leaving later collections
    /// untouched.
    pub fn load(&self, data: &Data, store: &mut DocumentStore, now: u64) -> (r: Result<
        (),
        AggregatorError,
    >)
        requires
            old(store).wf(),
        ensures
            final(store).wf(),
            final(store).users == old(store).users,
            final(store).alt_titles == old(store).alt_titles,
            match r {
                Ok(_) => upsert_ok(
                    old(store).anime@,
                    data.lists.anime.deep_view(),
                    now,
                    final(store).anime@,
                ) && upsert_ok(
                    old(store).manga@,
                    data.lists.manga.deep_view(),
                    now,
                    final(store).manga@,
                ),
                Err(e) => (upsert_failed(
                    old(store).anime@,
                    data.lists.anime.deep_view(),
                    now,
                    e.message_spec(),
                    final(store).anime@,
                ) && final(store).manga@ == old(store).manga@) || (upsert_ok(
                    old(store).anime@,
                    data.lists.anime.deep_view(),
                    now,
                    final(store).anime@,
                ) && upsert_failed(
                    old(store).manga@,
                    data.lists.manga.deep_view(),
                    now,
                    e.message_spec(),
                    final(store).manga@,
                )),
            },
    {
        match store.anime.upsert_documents(&data.lists.anime, now) {
            Ok(_) => {},
            Err(e) => {
                return Err(e);
            },
        }
        match store.manga.upsert_documents(&data.lists.manga, now) {
            Ok(_) => {},
            Err(e) => {
                return Err(e);
            },
        }
        Ok(())
    }

    /// One pipeline run over already-extracted data: transform, then
    /// load.
    pub fn run(&self, sources: &Sources<'a>, data: &mut Data, store: &mut DocumentStore, now: u64)
        -> (r: Result<(), AggregatorError>)
        requires
            old(store).wf(),
        ensures
            final(store).wf(),
            final(data).lists.anime.deep_view() == spec_anime_result(
                *old(data),
                sources.subsplease_scraper.config.transform.similarity_threshold as int,
                sources.subsplease_rss.config.transform.similarity_threshold as int,
            ),
            final(data).lists.manga.deep_view() == spec_manga_result(
                *old(data),
                sources.mangadex_api.config.transform.similarity_threshold as int,
            ),
            match r {
                Ok(_) => upsert_ok(
                    old(store).anime@,
                    final(data).lists.anime.deep_view(),
                    now,
                    final(store).anime@,
                ) && upsert_ok(
                    old(store).manga@,
                    final(data).lists.manga.deep_view(),
                    now,
                    final(store).manga@,
                ),
                Err(e) => e.message_spec() == "Could not find media_id."@ || e.message_spec()
                    == "Duplicate content hash."@,
            },
    {
        let _ = self.transform(sources, data);
        self.load(data, store, now)
    }
}

} // verus!
