use vstd::prelude::*;

use crate::config::Config;
use crate::error::AggregatorError;
use crate::extra_map::{has_id, id_value_of, IdMap};
use crate::media::{spec_is_current, Media, MediaView};

verus! {

/// Mathematical value of one alternate-titles record.
pub struct AltTitlesView {
    pub media_id: u64,
    pub alt_titles: Seq<Seq<char>>,
}

/// Alternate titles registered for one media id, in registry order.
#[derive(PartialEq, Debug, Hash)]
pub struct AltTitlesEntry {
    pub media_id: u64,
    pub alt_titles: Vec<String>,
}

impl DeepView for AltTitlesEntry {
    type V = AltTitlesView;

    open spec fn deep_view(&self) -> AltTitlesView {
        AltTitlesView { media_id: self.media_id, alt_titles: self.alt_titles.deep_view() }
    }
}

impl Clone for AltTitlesEntry {
    fn clone(&self) -> (r: Self)
        ensures
            r.deep_view() == self.deep_view(),
    {
        let n = self.alt_titles.len();
        let mut titles: Vec<String> = Vec::new();
        let mut i: usize = 0;
        while i < n
            invariant
                n == self.alt_titles@.len(),
                0 <= i <= n,
                titles.deep_view() =~= self.alt_titles.deep_view().take(i as int),
            decreases n - i,
        {
            let ghost prev = titles.deep_view();
            titles.push(self.alt_titles[i].clone());
            proof {
                assert(titles.deep_view() =~= prev.push(
                    self.alt_titles.deep_view()[i as int],
                ));
                assert(self.alt_titles.deep_view().take(i + 1) =~= prev.push(
                    self.alt_titles.deep_view()[i as int],
                ));
            }
            i = i + 1;
        }
        proof {
            assert(titles.deep_view() =~= self.alt_titles.deep_view());
        }
        AltTitlesEntry { media_id: self.media_id, alt_titles: titles }
    }
}

/// The alternate-title registry, keyed by canonical media id.
pub struct AltTitles(pub IdMap<AltTitlesEntry>);

/// What linking an alternate-titles record into a record leaves behind.
pub open spec fn spec_set_alt_titles(m: MediaView, extra: Option<AltTitlesView>) -> MediaView {
    MediaView { alt_titles: extra, ..m }
}

/// What one alternate-titles pass over a record yields: a `CURRENT`
/// record whose id has a registry entry is linked to it by exact id
/// match, and every other record is untouched.
pub open spec fn spec_transform_alt_titles(
    m: MediaView,
    entries: Seq<(u64, AltTitlesView)>,
) -> MediaView {
    if spec_is_current(m) {
        match m.media_id {
            Some(id) => if has_id(entries, id) {
                spec_set_alt_titles(m, Some(id_value_of(entries, id)))
            } else {
                m
            },
            None => m,
        }
    } else {
        m
    }
}

/// The alternate-title registry source: the registry read lives at the
/// process boundary, the exact-id record linkage is here.
pub struct AltTitlesDB<'a> {
    pub config: &'a Config,
}

impl<'a> AltTitlesDB<'a> {
    pub fn new(config: &'a Config) -> (s: AltTitlesDB<'a>)
        ensures
            s.config == config,
    {
        AltTitlesDB { config }
    }

    /// Alternate titles are joined by id, so only an identical key may
    /// match.
    pub fn get_similarity_threshold(&self) -> (t: u32)
        ensures
            t == 1000,
    {
        1000
    }

    pub fn set_media(media: &mut Media, extra: Option<AltTitlesEntry>)
        ensures
            final(media).deep_view() == spec_set_alt_titles(
                old(media).deep_view(),
                extra.deep_view(),
            ),
    {
        media.alt_titles = extra;
    }

    /// Links the registry entry stored under the record's id, if any.
    pub fn transform(&self, media: &mut Media, extra: &AltTitles) -> (r: Result<
        (),
        AggregatorError,
    >)
        ensures
            r is Ok,
            final(media).deep_view() == spec_transform_alt_titles(
                old(media).deep_view(),
                extra.0@,
            ),
    {
        if media.is_current() {
            let id = match media.media_id {
                Some(id) => id,
                None => {
                    return Ok(());
                },
            };
            match extra.0.get(id) {
                Some(entry) => {
                    let entry = entry.clone();
                    media.alt_titles = Some(entry);
                },
                None => {},
            }
        }
        Ok(())
    }
}

} // verus!
