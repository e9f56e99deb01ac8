use vstd::prelude::*;

use crate::config::Config;
use crate::error::AggregatorError;
use crate::media::{clone_opt_string, media_type_of, Media, MediaLists, MediaType, MediaView};

verus! {

/// The two title spellings the list source reports.
#[derive(PartialEq, Debug)]
pub struct MediaTitle {
    pub romaji: Option<String>,
    pub english: Option<String>,
}

/// Mathematical value of a reported title pair.
pub struct MediaTitleView {
    pub romaji: Option<Seq<char>>,
    pub english: Option<Seq<char>>,
}

impl DeepView for MediaTitle {
    type V = MediaTitleView;

    open spec fn deep_view(&self) -> MediaTitleView {
        MediaTitleView { romaji: self.romaji.deep_view(), english: self.english.deep_view() }
    }
}

/// The cover image the list source reports.
#[derive(PartialEq, Debug)]
pub struct CoverImage {
    pub large: Option<String>,
}

impl DeepView for CoverImage {
    type V = Option<Seq<char>>;

    open spec fn deep_view(&self) -> Option<Seq<char>> {
        self.large.deep_view()
    }
}

/// One media object as the list source reports it.
#[derive(PartialEq, Debug)]
pub struct ResultMedia {
    pub id: Option<u64>,
    pub media_kind: Option<String>,
    pub format: Option<String>,
    pub season: Option<String>,
    pub season_year: Option<u64>,
    pub title: MediaTitle,
    pub cover_image: CoverImage,
    pub episodes: Option<u64>,
}

/// Mathematical value of a reported media object.
pub struct ResultMediaView {
    pub id: Option<u64>,
    pub media_kind: Option<Seq<char>>,
    pub format: Option<Seq<char>>,
    pub season: Option<Seq<char>>,
    pub season_year: Option<u64>,
    pub title: MediaTitleView,
    pub cover_image: Option<Seq<char>>,
    pub episodes: Option<u64>,
}

impl DeepView for ResultMedia {
    type V = ResultMediaView;

    open spec fn deep_view(&self) -> ResultMediaView {
        ResultMediaView {
            id: self.id,
            media_kind: self.media_kind.deep_view(),
            format: self.format.deep_view(),
            season: self.season.deep_view(),
            season_year: self.season_year,
            title: self.title.deep_view(),
            cover_image: self.cover_image.deep_view(),
            episodes: self.episodes,
        }
    }
}

/// One list entry: a media object plus the user's standing on it.
#[derive(PartialEq, Debug)]
pub struct Entry {
    pub media: ResultMedia,
    pub status: Option<String>,
    pub score: Option<u64>,
    pub progress: Option<u64>,
}

/// Mathematical value of one list entry.
pub struct EntryView {
    pub media: ResultMediaView,
    pub status: Option<Seq<char>>,
    pub score: Option<u64>,
    pub progress: Option<u64>,
}

impl DeepView for Entry {
    type V = EntryView;

    open spec fn deep_view(&self) -> EntryView {
        EntryView {
            media: self.media.deep_view(),
            status: self.status.deep_view(),
            score: self.score,
            progress: self.progress,
        }
    }
}

/// One list of entries as the list source groups them.
#[derive(PartialEq, Debug)]
pub struct MediaList {
    pub entries: Vec<Entry>,
}

impl DeepView for MediaList {
    type V = Seq<EntryView>;

    open spec fn deep_view(&self) -> Seq<EntryView> {
        self.entries.deep_view()
    }
}

/// The media type a reported kind string denotes, if any.
pub open spec fn opt_media_type(s: Option<Seq<char>>) -> Option<MediaType> {
    match s {
        Some(s) => media_type_of(s),
        None => None,
    }
}

/// The canonical record one list entry maps to: enrichment fields start
/// empty.
pub open spec fn spec_media_of_entry(e: EntryView) -> MediaView {
    MediaView {
        media_id: e.media.id,
        media_type: opt_media_type(e.media.media_kind),
        status: e.status,
        format: e.media.format,
        season: e.media.season,
        season_year: e.media.season_year,
        title: e.media.title.romaji,
        english_title: e.media.title.english,
        image: e.media.cover_image,
        episodes: e.media.episodes,
        score: e.score,
        progress: e.progress,
        schedule: None,
        latest: None,
        alt_titles: None,
    }
}

/// The records of a run of lists, flattened in list order.
pub open spec fn spec_media_of_lists(ls: Seq<Seq<EntryView>>) -> Seq<MediaView>
    decreases ls.len(),
{
    if ls.len() == 0 {
        Seq::<MediaView>::empty()
    } else {
        ls[0].map_values(|e: EntryView| spec_media_of_entry(e)) + spec_media_of_lists(
            ls.drop_first(),
        )
    }
}

/// Flattening one more list appends its mapped entries.
proof fn lemma_media_of_lists_take_step(ls: Seq<Seq<EntryView>>, i: int)
    requires
        0 <= i < ls.len(),
    ensures
        spec_media_of_lists(ls.take(i + 1)) == spec_media_of_lists(ls.take(i)) + ls[i].map_values(
            |e: EntryView| spec_media_of_entry(e),
        ),
    decreases i,
{
    if i == 0 {
        assert(ls.take(1) =~= seq![ls[0]]);
        assert(ls.take(1).drop_first() =~= Seq::<Seq<EntryView>>::empty());
        assert(ls.take(0) =~= Seq::<Seq<EntryView>>::empty());
        assert(spec_media_of_lists(ls.take(1)) =~= spec_media_of_lists(ls.take(0))
            + ls[0].map_values(|e: EntryView| spec_media_of_entry(e)));
    } else {
        assert(ls.take(i + 1)[0] == ls[0]);
        assert(ls.take(i)[0] == ls[0]);
        assert(ls.take(i + 1).drop_first() =~= ls.drop_first().take(i));
        assert(ls.take(i).drop_first() =~= ls.drop_first().take(i - 1));
        assert(ls.drop_first()[i - 1] == ls[i]);
        lemma_media_of_lists_take_step(ls.drop_first(), i - 1);
        assert(spec_media_of_lists(ls.take(i + 1)) =~= spec_media_of_lists(ls.take(i))
            + ls[i].map_values(|e: EntryView| spec_media_of_entry(e)));
    }
}

/// The tracking-list source: query construction and the network round
/// trip live at the process boundary, the mapping of its replies onto
/// canonical records is here.
pub struct AniListAPI<'a> {
    pub config: &'a Config,
}

impl<'a> AniListAPI<'a> {
    pub fn new(config: &'a Config) -> (s: AniListAPI<'a>)
        ensures
            s.config == config,
    {
        AniListAPI { config }
    }

    /// Maps one reply's lists onto canonical records, in reply order.
    pub fn transform(&self, lists: &Vec<MediaList>) -> (r: Result<Vec<Media>, AggregatorError>)
        ensures
            r matches Ok(out) && out.deep_view() == spec_media_of_lists(lists.deep_view()),
    {
        let mut out: Vec<Media> = Vec::new();
        proof {
            assert(out.deep_view() =~= Seq::<MediaView>::empty());
            assert(lists.deep_view().take(0) =~= Seq::<Seq<EntryView>>::empty());
        }
        let n = lists.len();
        let mut i: usize = 0;
        while i < n
            invariant
                n == lists@.len(),
                0 <= i <= n,
                out.deep_view() == spec_media_of_lists(lists.deep_view().take(i as int)),
            decreases n - i,
        {
            let list = &lists[i];
            let m = list.entries.len();
            let ghost entries_v = list.entries.deep_view();
            let ghost before = out.deep_view();
            let mut j: usize = 0;
            while j < m
                invariant
                    m == list.entries@.len(),
                    entries_v == list.entries.deep_view(),
                    0 <= j <= m,
                    out.deep_view() == before + entries_v.take(j as int).map_values(
                        |e: EntryView| spec_media_of_entry(e),
                    ),
                decreases m - j,
            {
                let entry = &list.entries[j];
                let media = Media {
                    media_id: entry.media.id,
                    media_type: MediaType::from_option_str(
                        match &entry.media.media_kind {
                            Some(s) => Some(s.as_str()),
                            None => None,
                        },
                    ),
                    status: clone_opt_string(&entry.status),
                    format: clone_opt_string(&entry.media.format),
                    season: clone_opt_string(&entry.media.season),
                    season_year: entry.media.season_year,
                    title: clone_opt_string(&entry.media.title.romaji),
                    english_title: clone_opt_string(&entry.media.title.english),
                    image: clone_opt_string(&entry.media.cover_image.large),
                    episodes: entry.media.episodes,
                    score: entry.score,
                    progress: entry.progress,
                    schedule: None,
                    latest: None,
                    alt_titles: None,
                };
                let ghost prev = out.deep_view();
                out.push(media);
                proof {
                    assert(out.deep_view() =~= prev.push(spec_media_of_entry(
                        entries_v[j as int],
                    )));
                    assert(entries_v.take(j + 1).map_values(|e: EntryView| spec_media_of_entry(e))
                        =~= entries_v.take(j as int).map_values(
                        |e: EntryView| spec_media_of_entry(e),
                    ).push(spec_media_of_entry(entries_v[j as int])));
                    assert(out.deep_view() =~= before + entries_v.take(j + 1).map_values(
                        |e: EntryView| spec_media_of_entry(e),
                    ));
                }
                j = j + 1;
            }
            proof {
                assert(entries_v.take(m as int) == entries_v);
                assert(lists.deep_view()[i as int] == entries_v);
                lemma_media_of_lists_take_step(lists.deep_view(), i as int);
            }
            i = i + 1;
        }
        proof {
            assert(lists.deep_view().take(n as int) == lists.deep_view());
        }
        Ok(out)
    }

    /// Folds the lists fetched for each user into one pair of lists, in
    /// user order; with no user there is nothing to aggregate.
    pub fn combine_lists(lists: Vec<MediaLists>) -> (r: Result<MediaLists, AggregatorError>)
        ensures
            match r {
                Ok(out) => lists@.len() > 0 && out.anime@ == spec_concat_anime(lists@)
                    && out.manga@ == spec_concat_manga(lists@),
                Err(e) => lists@.len() == 0 && e.message_spec() == "Could not reduce lists."@,
            },
    {
        let mut lists = lists;
        if lists.len() == 0 {
            return Err(AggregatorError::new("Could not reduce lists."));
        }
        let ghost orig = lists@;
        let mut acc = lists.remove(0);
        proof {
            assert(lists@ =~= orig.drop_first());
            assert(acc.anime@ + spec_concat_anime(lists@) =~= spec_concat_anime(orig));
            assert(acc.manga@ + spec_concat_manga(lists@) =~= spec_concat_manga(orig));
        }
        while lists.len() > 0
            invariant
                acc.anime@ + spec_concat_anime(lists@) == spec_concat_anime(orig),
                acc.manga@ + spec_concat_manga(lists@) == spec_concat_manga(orig),
            decreases lists@.len(),
        {
            let ghost rem = lists@;
            let mut next = lists.remove(0);
            acc.append(&mut next);
            proof {
                assert(lists@ =~= rem.drop_first());
                assert(acc.anime@ + spec_concat_anime(lists@) =~= spec_concat_anime(orig));
                assert(acc.manga@ + spec_concat_manga(lists@) =~= spec_concat_manga(orig));
            }
        }
        proof {
            assert(acc.anime@ =~= spec_concat_anime(orig));
            assert(acc.manga@ =~= spec_concat_manga(orig));
        }
        Ok(acc)
    }
}

/// All anime records of a run of list pairs, in order.
pub open spec fn spec_concat_anime(ls: Seq<MediaLists>) -> Seq<Media>
    decreases ls.len(),
{
    if ls.len() == 0 {
        Seq::<Media>::empty()
    } else {
        ls[0].anime@ + spec_concat_anime(ls.drop_first())
    }
}

/// All manga records of a run of list pairs, in order.
pub open spec fn spec_concat_manga(ls: Seq<MediaLists>) -> Seq<Media>
    decreases ls.len(),
{
    if ls.len() == 0 {
        Seq::<Media>::empty()
    } else {
        ls[0].manga@ + spec_concat_manga(ls.drop_first())
    }
}

} // verus!
