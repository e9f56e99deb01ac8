use vstd::prelude::*;

use crate::config::Config;
use crate::error::AggregatorError;
use crate::extra_map::{has_key, spec_insert, value_of, ExtraMap};
use crate::media::{Latest, LatestView, Media, MediaView};
use crate::text::{
    digits_value, is_digit, matches_at, parse_digits, remove_all, spec_matches_at,
    spec_remove_all,
};
use crate::transform::{resolve_index, resolve_spec};

verus! {

/// One release-feed item, reduced to the fields the aggregation reads.
#[derive(PartialEq, Debug)]
pub struct AnimeRss {
    pub title: String,
    pub link: String,
    pub category: String,
}

/// Mathematical value of one release-feed item.
pub struct AnimeRssView {
    pub title: Seq<char>,
    pub link: Seq<char>,
    pub category: Seq<char>,
}

impl DeepView for AnimeRss {
    type V = AnimeRssView;

    open spec fn deep_view(&self) -> AnimeRssView {
        AnimeRssView { title: self.title@, link: self.link@, category: self.category@ }
    }
}

/// The latest episode per show that the release feed knows, keyed by show
/// title.
pub struct AnimeLatest(pub ExtraMap<Latest>);

/// Where the digit run starting at `i` ends.
pub open spec fn digit_run_end(s: Seq<char>, i: int) -> int
    decreases s.len() - i,
{
    if 0 <= i < s.len() && is_digit(s[i]) {
        digit_run_end(s, i + 1)
    } else {
        i
    }
}

/// Whether an episode marker — a digit run followed by the feed's
/// resolution tag — starts at position `i`.
pub open spec fn episode_marker_at(s: Seq<char>, i: int) -> bool {
    0 <= i < s.len() && is_digit(s[i]) && spec_matches_at(s, digit_run_end(s, i), " (720p)"@)
}

/// The leftmost position, from `i` on, where an episode marker starts.
pub open spec fn first_episode_start(s: Seq<char>, i: int) -> Option<int>
    decreases s.len() - i,
{
    if i >= s.len() || i < 0 {
        None
    } else if episode_marker_at(s, i) {
        Some(i)
    } else {
        first_episode_start(s, i + 1)
    }
}

/// The episode number a feed item's title carries: the digits of the
/// leftmost episode marker. A title without a marker, or whose digits do
/// not fit, counts as episode zero.
pub open spec fn episode_of_title(s: Seq<char>) -> u64 {
    match first_episode_start(s, 0) {
        None => 0,
        Some(i) => {
            let v = digits_value(s.subrange(i, digit_run_end(s, i)));
            if v <= u64::MAX {
                v as u64
            } else {
                0
            }
        },
    }
}

/// A digit run is made of digits and ends within the string.
proof fn lemma_digit_run_digits(s: Seq<char>, i: int)
    requires
        0 <= i <= s.len(),
    ensures
        forall|k: int| i <= k < digit_run_end(s, i) ==> is_digit(#[trigger] s[k]),
        i <= digit_run_end(s, i) <= s.len(),
    decreases s.len() - i,
{
    if 0 <= i < s.len() && is_digit(s[i]) {
        lemma_digit_run_digits(s, i + 1);
        assert forall|k: int| i <= k < digit_run_end(s, i) implies is_digit(#[trigger] s[k]) by {
            if k > i {
                assert(is_digit(s[k]));
            }
        }
    }
}

/// Finds the end of the digit run starting at `i`.
fn find_run_end(s: &str, n: usize, i: usize) -> (j: usize)
    requires
        n == s@.len(),
        i <= n,
    ensures
        j as int == digit_run_end(s@, i as int),
        i <= j <= n,
{
    let mut j = i;
    while j < n
        invariant
            n == s@.len(),
            i <= j <= n,
            digit_run_end(s@, i as int) == digit_run_end(s@, j as int),
        decreases n - j,
    {
        let c = s.get_char(j);
        if c < '0' || c > '9' {
            return j;
        }
        j = j + 1;
    }
    j
}

/// The episode number of a feed item's title.
pub fn episode_number(s: &str) -> (r: u64)
    ensures
        r == episode_of_title(s@),
{
    let n = s.unicode_len();
    let mut i: usize = 0;
    while i < n
        invariant
            n == s@.len(),
            0 <= i <= n,
            first_episode_start(s@, 0) == first_episode_start(s@, i as int),
        decreases n - i,
    {
        let c = s.get_char(i);
        if '0' <= c && c <= '9' {
            let j = find_run_end(s, n, i);
            proof {
                reveal_strlit(" (720p)");
                lemma_digit_run_digits(s@, i as int);
            }
            if matches_at(s, n, j, " (720p)", 7) {
                proof {
                    assert(episode_marker_at(s@, i as int));
                    assert(first_episode_start(s@, i as int) == Some(i as int));
                    assert(forall|k: int|
                        0 <= k < j - i ==> is_digit(
                            #[trigger] s@.subrange(i as int, j as int)[k],
                        ));
                }
                match parse_digits(s, i, j) {
                    Some(v) => {
                        return v;
                    },
                    None => {
                        return 0;
                    },
                }
            }
        }
        proof {
            assert(!episode_marker_at(s@, i as int));
        }
        i = i + 1;
    }
    0
}

/// What folding the feed items yields: each item is filed under its
/// category with the resolution tag removed, a later item replacing an
/// earlier one only with a strictly higher episode number.
pub open spec fn spec_latest_fold(items: Seq<AnimeRssView>, n: int) -> Seq<
    (Seq<char>, LatestView),
>
    decreases n,
{
    if n <= 0 {
        Seq::<(Seq<char>, LatestView)>::empty()
    } else {
        let prev = spec_latest_fold(items, n - 1);
        let it = items[n - 1];
        let title = spec_remove_all(it.category, " - 720"@);
        let ep = episode_of_title(it.title);
        if !has_key(prev, title) || value_of(prev, title).episode < ep {
            spec_insert(prev, title, LatestView { title, episode: ep, url: it.link })
        } else {
            prev
        }
    }
}

/// What linking a latest-release entry into a record leaves behind.
pub open spec fn spec_set_latest(m: MediaView, extra: Option<LatestView>) -> MediaView {
    MediaView { latest: extra, ..m }
}

/// What one latest-release enrichment pass over a record yields.
pub open spec fn spec_transform_latest(
    m: MediaView,
    entries: Seq<(Seq<char>, LatestView)>,
    t: int,
) -> MediaView {
    match resolve_spec(m, entries, t) {
        Some(v) => spec_set_latest(m, Some(v)),
        None => m,
    }
}

/// The anime release feed: fetching and XML decoding live at the process
/// boundary, the record linkage of feed entries is here.
pub struct SubsPleaseRSS<'a> {
    pub config: &'a Config,
}

impl<'a> SubsPleaseRSS<'a> {
    pub fn new(config: &'a Config) -> (s: SubsPleaseRSS<'a>)
        ensures
            s.config == config,
    {
        SubsPleaseRSS { config }
    }

    pub fn get_similarity_threshold(&self) -> (t: u32)
        ensures
            t == self.config.transform.similarity_threshold,
    {
        self.config.transform.similarity_threshold
    }

    pub fn set_media(media: &mut Media, extra: Option<Latest>)
        ensures
            final(media).deep_view() == spec_set_latest(old(media).deep_view(), extra.deep_view()),
    {
        media.latest = extra;
    }

    /// Builds the latest-episode map from the fetched feed items,
    /// keeping the highest episode seen per show.
    pub fn latest_from_items(items: &Vec<AnimeRss>) -> (r: AnimeLatest)
        ensures
            r.0@ == spec_latest_fold(items.deep_view(), items@.len() as int),
            r.0.wf(),
    {
        let mut latest: ExtraMap<Latest> = ExtraMap::new();
        let n = items.len();
        let mut i: usize = 0;
        while i < n
            invariant
                n == items@.len(),
                0 <= i <= n,
                latest.wf(),
                latest@ == spec_latest_fold(items.deep_view(), i as int),
            decreases n - i,
        {
            let item = &items[i];
            proof {
                reveal_strlit(" - 720");
            }
            let title = remove_all(item.category.as_str(), " - 720");
            let ep = episode_number(item.title.as_str());
            let replace = match latest.get(title.as_str()) {
                Some(existing) => existing.episode < ep,
                None => true,
            };
            if replace {
                latest.insert(
                    title.clone(),
                    Latest { title: title.clone(), episode: ep, url: item.link.clone() },
                );
            }
            i = i + 1;
        }
        AnimeLatest(latest)
    }

    /// Links the latest-episode entry the matcher resolves for `media`, if
    /// any.
    pub fn transform(&self, media: &mut Media, extras: &AnimeLatest) -> (r: Result<
        (),
        AggregatorError,
    >)
        ensures
            r is Ok,
            final(media).deep_view() == spec_transform_latest(
                old(media).deep_view(),
                extras.0@,
                self.config.transform.similarity_threshold as int,
            ),
    {
        match resolve_index(media, &extras.0, self.get_similarity_threshold()) {
            Some(i) => {
                let entry = extras.0.value_at(i).clone();
                media.latest = Some(entry);
            },
            None => {},
        }
        Ok(())
    }
}

} // verus!
