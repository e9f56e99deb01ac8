use vstd::prelude::*;
use vstd::string::StringExecFns;

use crate::config::Config;
use crate::error::AggregatorError;
use crate::extra_map::{has_key, spec_insert, value_of, ExtraMap};
use crate::media::{Latest, LatestView, Media, MediaView};
use crate::rss::{spec_set_latest, spec_transform_latest};
use crate::text::{all_digits, digits_value, is_digit, parse_digits};
use crate::transform::resolve_index;

verus! {

/// One chapter as the aggregate endpoint reports it: its number, as a
/// decimal string, and its id.
#[derive(PartialEq, Debug)]
pub struct MangaChapter {
    pub number: String,
    pub id: String,
}

/// Mathematical value of one reported chapter.
pub struct MangaChapterView {
    pub number: Seq<char>,
    pub id: Seq<char>,
}

impl DeepView for MangaChapter {
    type V = MangaChapterView;

    open spec fn deep_view(&self) -> MangaChapterView {
        MangaChapterView { number: self.number@, id: self.id@ }
    }
}

/// One volume's chapters, in reply order.
#[derive(PartialEq, Debug)]
pub struct MangaAggregateVolumes {
    pub chapters: Vec<MangaChapter>,
}

impl DeepView for MangaAggregateVolumes {
    type V = Seq<MangaChapterView>;

    open spec fn deep_view(&self) -> Seq<MangaChapterView> {
        self.chapters.deep_view()
    }
}

/// The chapter aggregate for one manga.
#[derive(PartialEq, Debug)]
pub struct MangaAggregate {
    pub result: String,
    pub volumes: Vec<MangaAggregateVolumes>,
}

/// Mathematical value of one chapter aggregate.
pub struct MangaAggregateView {
    pub result: Seq<char>,
    pub volumes: Seq<Seq<MangaChapterView>>,
}

impl DeepView for MangaAggregate {
    type V = MangaAggregateView;

    open spec fn deep_view(&self) -> MangaAggregateView {
        MangaAggregateView { result: self.result@, volumes: self.volumes.deep_view() }
    }
}

/// The titles of one listed manga, keyed by language tag.
pub struct MangaListAttributes {
    pub title: ExtraMap<String>,
}

impl DeepView for MangaListAttributes {
    type V = Seq<(Seq<char>, Seq<char>)>;

    open spec fn deep_view(&self) -> Seq<(Seq<char>, Seq<char>)> {
        self.title@
    }
}

/// One relationship of the manga list reply.
pub struct MangaListRelationship {
    pub id: String,
    pub rel_kind: String,
    pub attributes: Option<MangaListAttributes>,
}

/// Mathematical value of one relationship.
pub struct MangaRelView {
    pub id: Seq<char>,
    pub rel_kind: Seq<char>,
    pub attributes: Option<Seq<(Seq<char>, Seq<char>)>>,
}

impl DeepView for MangaListRelationship {
    type V = MangaRelView;

    open spec fn deep_view(&self) -> MangaRelView {
        MangaRelView {
            id: self.id@,
            rel_kind: self.rel_kind@,
            attributes: self.attributes.deep_view(),
        }
    }
}

/// The payload of the manga list reply.
pub struct MangaListData {
    pub relationships: Vec<MangaListRelationship>,
}

/// The manga list reply.
pub struct MangaList {
    pub result: String,
    pub data: MangaListData,
}

/// The chapter number a reported chapter string denotes: its integer
/// part, clamped to the largest representable number; a string that is
/// not a plain decimal denotes nothing.
pub open spec fn chapter_num_of(s: Seq<char>) -> Option<u64> {
    let d = first_dot(s, 0);
    if 1 <= d && all_digits(s.take(d)) && (d == s.len() || all_digits(
        s.subrange(d + 1, s.len() as int),
    )) {
        let v = digits_value(s.take(d));
        if v <= u64::MAX {
            Some(v as u64)
        } else {
            Some(u64::MAX)
        }
    } else {
        None
    }
}

/// Position of the first decimal point at or after `i`, or the string's
/// end.
pub open spec fn first_dot(s: Seq<char>, i: int) -> int
    decreases s.len() - i,
{
    if i < 0 || i >= s.len() {
        s.len() as int
    } else if s[i] == '.' {
        i
    } else {
        first_dot(s, i + 1)
    }
}

/// Decides whether `s[from..to]` is all digits.
fn digits_in_range(s: &str, n: usize, from: usize, to: usize) -> (r: bool)
    requires
        n == s@.len(),
        from <= to <= n,
    ensures
        r == all_digits(s@.subrange(from as int, to as int)),
{
    let ghost sub = s@.subrange(from as int, to as int);
    let mut k = from;
    while k < to
        invariant
            n == s@.len(),
            from <= k <= to <= n,
            sub == s@.subrange(from as int, to as int),
            forall|k2: int| 0 <= k2 < k - from ==> is_digit(#[trigger] sub[k2]),
        decreases to - k,
    {
        let c = s.get_char(k);
        if c < '0' || c > '9' {
            proof {
                assert(sub[k - from] == s@[k as int]);
            }
            return false;
        }
        proof {
            assert(sub[k - from] == s@[k as int]);
        }
        k = k + 1;
    }
    true
}

/// Finds the first decimal point, or the string's end.
fn find_dot(s: &str, n: usize) -> (d: usize)
    requires
        n == s@.len(),
    ensures
        d as int == first_dot(s@, 0),
        d <= n,
{
    let mut d: usize = 0;
    while d < n
        invariant
            n == s@.len(),
            0 <= d <= n,
            first_dot(s@, 0) == first_dot(s@, d as int),
        decreases n - d,
    {
        let c = s.get_char(d);
        if c == '.' {
            return d;
        }
        d = d + 1;
    }
    d
}

/// Parses a reported chapter number down to its integer part.
pub fn chapter_number(s: &str) -> (r: Option<u64>)
    ensures
        r == chapter_num_of(s@),
{
    let n = s.unicode_len();
    let d = find_dot(s, n);
    if d < 1 {
        return None;
    }
    if !digits_in_range(s, n, 0, d) {
        proof {
            assert(s@.take(d as int) =~= s@.subrange(0, d as int));
        }
        return None;
    }
    if d < n {
        if !digits_in_range(s, n, d + 1, n) {
            return None;
        }
    }
    proof {
        assert(s@.take(d as int) =~= s@.subrange(0, d as int));
    }
    match parse_digits(s, 0, d) {
        Some(v) => Some(v),
        None => Some(u64::MAX),
    }
}

/// The running latest chapter after one volume's chapters: a chapter at
/// least as high as the best so far takes over, carrying its reader URL.
pub open spec fn spec_latest_in_volume(
    chs: Seq<MangaChapterView>,
    state: (u64, Seq<char>),
    n: int,
) -> (u64, Seq<char>)
    decreases n,
{
    if n <= 0 {
        state
    } else {
        let st = spec_latest_in_volume(chs, state, n - 1);
        let ch = chs[n - 1];
        match chapter_num_of(ch.number) {
            Some(c) => if c >= st.0 {
                (c, "https://mangadex.org/chapter/"@ + ch.id)
            } else {
                st
            },
            None => st,
        }
    }
}

/// The running latest chapter after the first `n` volumes.
pub open spec fn spec_latest_in_volumes(
    vols: Seq<Seq<MangaChapterView>>,
    state: (u64, Seq<char>),
    n: int,
) -> (u64, Seq<char>)
    decreases n,
{
    if n <= 0 {
        state
    } else {
        spec_latest_in_volume(
            vols[n - 1],
            spec_latest_in_volumes(vols, state, n - 1),
            vols[n - 1].len() as int,
        )
    }
}

/// The latest chapter of one aggregate: chapter zero with no URL when
/// the reply is not `ok` or nothing parses.
pub open spec fn spec_latest_chapter(agg: MangaAggregateView) -> (u64, Seq<char>) {
    if agg.result == "ok"@ {
        spec_latest_in_volumes(agg.volumes, (0u64, Seq::<char>::empty()), agg.volumes.len() as int)
    } else {
        (0u64, Seq::<char>::empty())
    }
}

/// The latest chapter per manga that the chapter aggregator knows, keyed
/// by manga title.
pub struct MangaLatest(pub ExtraMap<Latest>);

/// The title one listed manga goes by: the romanized title when the
/// reply carries one, else the English title, else nothing.
pub open spec fn spec_manga_title(attrs: Seq<(Seq<char>, Seq<char>)>) -> Seq<char> {
    if has_key(attrs, "ja-ro"@) {
        value_of(attrs, "ja-ro"@)
    } else if has_key(attrs, "en"@) {
        value_of(attrs, "en"@)
    } else {
        Seq::<char>::empty()
    }
}

/// Picks the title one listed manga goes by.
pub fn manga_title_of(attrs: &MangaListAttributes) -> (r: String)
    ensures
        r@ == spec_manga_title(attrs.deep_view()),
{
    match attrs.title.get("ja-ro") {
        Some(t) => t.clone(),
        None => match attrs.title.get("en") {
            Some(t) => t.clone(),
            None => String::new(),
        },
    }
}

/// The `(title, id)` pairs of the listed manga that can be joined: those
/// of kind `manga`, with attributes, whose picked title is not empty.
pub open spec fn spec_eligible_fold(rels: Seq<MangaRelView>, n: int) -> Seq<
    (Seq<char>, Seq<char>),
>
    decreases n,
{
    if n <= 0 {
        Seq::<(Seq<char>, Seq<char>)>::empty()
    } else {
        let prev = spec_eligible_fold(rels, n - 1);
        let rel = rels[n - 1];
        if rel.rel_kind == "manga"@ && rel.attributes is Some {
            let title = spec_manga_title(rel.attributes.unwrap());
            if title.len() > 0 {
                prev.push((title, rel.id))
            } else {
                prev
            }
        } else {
            prev
        }
    }
}

/// The batches the rate limit cuts the pairs into, in order.
pub open spec fn spec_batches_fold(ps: Seq<(Seq<char>, Seq<char>)>, limit: int, n: int) -> (
    Seq<Seq<(Seq<char>, Seq<char>)>>,
    Seq<(Seq<char>, Seq<char>)>,
)
    decreases n,
{
    if n <= 0 {
        (Seq::<Seq<(Seq<char>, Seq<char>)>>::empty(), Seq::<(Seq<char>, Seq<char>)>::empty())
    } else {
        let prev = spec_batches_fold(ps, limit, n - 1);
        let p = ps[n - 1];
        if prev.1.len() < limit {
            (prev.0, prev.1.push(p))
        } else {
            (prev.0.push(prev.1), seq![p])
        }
    }
}

/// The batches the rate limit cuts the pairs into, the last partial
/// batch included.
pub open spec fn spec_collect_batches(ps: Seq<(Seq<char>, Seq<char>)>, limit: int) -> Seq<
    Seq<(Seq<char>, Seq<char>)>,
> {
    let folded = spec_batches_fold(ps, limit, ps.len() as int);
    if folded.1.len() > 0 {
        folded.0.push(folded.1)
    } else {
        folded.0
    }
}

/// The manga chapter source: fetching lives at the process boundary, the
/// record linkage of chapter entries is here.
pub struct MangaDexAPI<'a> {
    pub config: &'a Config,
}

impl<'a> MangaDexAPI<'a> {
    pub fn new(config: &'a Config) -> (s: MangaDexAPI<'a>)
        ensures
            s.config == config,
    {
        MangaDexAPI { config }
    }

    pub fn get_similarity_threshold(&self) -> (t: u32)
        ensures
            t == self.config.transform.similarity_threshold,
    {
        self.config.transform.similarity_threshold
    }

    pub fn set_media(media: &mut Media, extra: Option<Latest>)
        ensures
            final(media).deep_view() == spec_set_latest(old(media).deep_view(), extra.deep_view()),
    {
        media.latest = extra;
    }

    /// Checks the list reply and collects the joinable `(title, id)`
    /// pairs, in reply order.
    pub fn eligible_manga(&self, list: &MangaList) -> (r: Result<
        Vec<(String, String)>,
        AggregatorError,
    >)
        ensures
            match r {
                Ok(v) => list.result@ == "ok"@ && v.deep_view() == spec_eligible_fold(
                    list.data.relationships.deep_view(),
                    list.data.relationships@.len() as int,
                ),
                Err(e) => list.result@ != "ok"@ && e.message_spec()
                    == "Could not fetch manga list."@,
            },
    {
        if !crate::text::str_eq(list.result.as_str(), "ok") {
            return Err(AggregatorError::new("Could not fetch manga list."));
        }
        let ghost rels = list.data.relationships.deep_view();
        let mut out: Vec<(String, String)> = Vec::new();
        proof {
            assert(out.deep_view() =~= spec_eligible_fold(rels, 0));
        }
        let n = list.data.relationships.len();
        let mut i: usize = 0;
        while i < n
            invariant
                n == list.data.relationships@.len(),
                rels == list.data.relationships.deep_view(),
                0 <= i <= n,
                out.deep_view() == spec_eligible_fold(rels, i as int),
            decreases n - i,
        {
            let rel = &list.data.relationships[i];
            if crate::text::str_eq(rel.rel_kind.as_str(), "manga") {
                match &rel.attributes {
                    Some(attrs) => {
                        let title = manga_title_of(attrs);
                        if !title.as_str().is_empty() {
                            let ghost prev = out.deep_view();
                            out.push((title, rel.id.clone()));
                            proof {
                                assert(out.deep_view() =~= prev.push(
                                    (spec_manga_title(rels[i as int].attributes.unwrap()),
                                    rels[i as int].id),
                                ));
                                assert(out.deep_view() =~= spec_eligible_fold(rels, i + 1));
                            }
                        }
                    },
                    None => {},
                }
            }
            i = i + 1;
        }
        Ok(out)
    }

    /// Cuts the joinable pairs into batches no larger than the rate
    /// limit allows per second.
    pub fn collect_batches(&self, pairs: &Vec<(String, String)>) -> (r: Vec<
        Vec<(String, String)>,
    >)
        ensures
            r.deep_view() == spec_collect_batches(
                pairs.deep_view(),
                self.config.mangadex_api.rate_limit as int,
            ),
    {
        let limit = self.config.mangadex_api.rate_limit;
        let ghost ps = pairs.deep_view();
        let mut batches: Vec<Vec<(String, String)>> = Vec::new();
        let mut current: Vec<(String, String)> = Vec::new();
        proof {
            assert(batches.deep_view() =~= spec_batches_fold(ps, limit as int, 0).0);
            assert(current.deep_view() =~= spec_batches_fold(ps, limit as int, 0).1);
        }
        let n = pairs.len();
        let mut i: usize = 0;
        while i < n
            invariant
                n == pairs@.len(),
                ps == pairs.deep_view(),
                limit == self.config.mangadex_api.rate_limit,
                0 <= i <= n,
                batches.deep_view() == spec_batches_fold(ps, limit as int, i as int).0,
                current.deep_view() == spec_batches_fold(ps, limit as int, i as int).1,
            decreases n - i,
        {
            let p = (pairs[i].0.clone(), pairs[i].1.clone());
            proof {
                assert(p.deep_view() == ps[i as int]);
            }
            let ghost bs_prev = batches.deep_view();
            let ghost cur_prev = current.deep_view();
            if current.len() < limit {
                current.push(p);
                proof {
                    assert(current.deep_view() =~= cur_prev.push(ps[i as int]));
                }
            } else {
                batches.push(current);
                current = Vec::new();
                current.push(p);
                proof {
                    assert(batches.deep_view() =~= bs_prev.push(cur_prev));
                    assert(current.deep_view() =~= seq![ps[i as int]]);
                }
            }
            i = i + 1;
        }
        if current.len() > 0 {
            let ghost bs_prev = batches.deep_view();
            let ghost cur_prev = current.deep_view();
            batches.push(current);
            proof {
                assert(batches.deep_view() =~= bs_prev.push(cur_prev));
            }
        }
        batches
    }

    /// Finds the highest-numbered chapter of one aggregate and the URL
    /// that reads it.
    pub fn latest_chapter(&self, agg: &MangaAggregate) -> (r: (u64, String))
        ensures
            r.0 == spec_latest_chapter(agg.deep_view()).0,
            r.1@ == spec_latest_chapter(agg.deep_view()).1,
    {
        proof {
            reveal_strlit("");
        }
        if !crate::text::str_eq(agg.result.as_str(), "ok") {
            let empty = String::new();
            return (0, empty);
        }
        let ghost vols = agg.volumes.deep_view();
        let mut best: u64 = 0;
        let mut url = String::new();
        proof {
            assert((best, url@) == spec_latest_in_volumes(
                vols,
                (0u64, Seq::<char>::empty()),
                0,
            ));
        }
        let nv = agg.volumes.len();
        let mut vi: usize = 0;
        while vi < nv
            invariant
                nv == agg.volumes@.len(),
                vols == agg.volumes.deep_view(),
                0 <= vi <= nv,
                best == spec_latest_in_volumes(vols, (0u64, Seq::<char>::empty()), vi as int).0,
                url@ == spec_latest_in_volumes(vols, (0u64, Seq::<char>::empty()), vi as int).1,
            decreases nv - vi,
        {
            let volume = &agg.volumes[vi];
            let ghost chs = volume.chapters.deep_view();
            let ghost state0 = spec_latest_in_volumes(vols, (0u64, Seq::<char>::empty()), vi as int);
            let nc = volume.chapters.len();
            let mut ci: usize = 0;
            while ci < nc
                invariant
                    nc == volume.chapters@.len(),
                    chs == volume.chapters.deep_view(),
                    0 <= ci <= nc,
                    best == spec_latest_in_volume(chs, state0, ci as int).0,
                    url@ == spec_latest_in_volume(chs, state0, ci as int).1,
                decreases nc - ci,
            {
                let chapter = &volume.chapters[ci];
                match chapter_number(chapter.number.as_str()) {
                    Some(c) => {
                        if c >= best {
                            best = c;
                            let mut u = "https://mangadex.org/chapter/".to_owned();
                            u.append(chapter.id.as_str());
                            url = u;
                        }
                    },
                    None => {},
                }
                ci = ci + 1;
            }
            proof {
                assert(vols[vi as int] == chs);
            }
            vi = vi + 1;
        }
        (best, url)
    }

    /// Files the latest chapter found for one manga under its title; a
    /// later reply for the same title replaces the earlier one.
    pub fn merge_aggregate(&self, map: &mut MangaLatest, title: &str, agg: &MangaAggregate)
        requires
            old(map).0.wf(),
        ensures
            final(map).0.wf(),
            final(map).0@ == spec_insert(
                old(map).0@,
                title@,
                LatestView {
                    title: title@,
                    episode: spec_latest_chapter(agg.deep_view()).0,
                    url: spec_latest_chapter(agg.deep_view()).1,
                },
            ),
    {
        let (episode, url) = self.latest_chapter(agg);
        map.0.insert(title.to_owned(), Latest { title: title.to_owned(), episode, url });
    }

    /// Links the latest-chapter entry the matcher resolves for `media`, if
    /// any.
    pub fn transform(&self, media: &mut Media, extras: &MangaLatest) -> (r: Result<
        (),
        AggregatorError,
    >)
        ensures
            r is Ok,
            final(media).deep_view() == spec_transform_latest(
                old(media).deep_view(),
                extras.0@,
                self.config.transform.similarity_threshold as int,
            ),
    {
        match resolve_index(media, &extras.0, self.get_similarity_threshold()) {
            Some(i) => {
                let entry = extras.0.value_at(i).clone();
                media.latest = Some(entry);
            },
            None => {},
        }
        Ok(())
    }
}

} // verus!
