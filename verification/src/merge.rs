use vstd::prelude::*;
use vstd::pervasive::VecAdditionalExecFns;

use crate::error::AggregatorError;
use crate::media::{spec_is_current, Media, MediaView};
use crate::scraper::{AnimeScheduleEntry, ScheduleEntryView};
use crate::text::push_char;

verus! {

/// Whether a character is dropped before a title is handed to the
/// schedule search.
pub open spec fn is_separator(c: char) -> bool {
    c == '-' || c == ':'
}

/// A title with its separator characters removed.
pub open spec fn strip_separators(s: Seq<char>) -> Seq<char>
    decreases s.len(),
{
    if s.len() == 0 {
        Seq::<char>::empty()
    } else if is_separator(s.last()) {
        strip_separators(s.drop_last())
    } else {
        strip_separators(s.drop_last()).push(s.last())
    }
}

/// The two search queries one record contributes, or nothing for a
/// record the merge skips: only a `CURRENT` record with both titles is
/// searched.
pub open spec fn query_spec(m: MediaView) -> Option<(Seq<char>, Seq<char>)> {
    if !spec_is_current(m) {
        None
    } else {
        match (m.title, m.english_title) {
            (Some(t), Some(e)) => Some((strip_separators(t), strip_separators(e))),
            _ => None,
        }
    }
}

/// What applying one search verdict to one record leaves: the chosen
/// schedule entry is linked in when the record was searched and the
/// verdict names an entry; everything else is untouched.
pub open spec fn spec_apply_one(
    m: MediaView,
    scheds: Seq<ScheduleEntryView>,
    choice: Option<usize>,
) -> MediaView {
    if query_spec(m) is Some && (choice matches Some(j) && j < scheds.len()) {
        MediaView { schedule: Some(scheds[choice.unwrap() as int]), ..m }
    } else {
        m
    }
}

/// The verdict the searched record at `i` got, or nothing.
pub open spec fn choice_at(choices: Seq<Option<usize>>, i: int) -> Option<usize> {
    if 0 <= i < choices.len() {
        choices[i]
    } else {
        None
    }
}

/// Joins the canonical list with the schedule through a full-text search
/// index: this side prepares the queries and applies the verdicts, while
/// the index itself — ranking by relevance scores — lives at the process
/// boundary.
pub struct Merge;

impl Merge {
    /// Strips the separator characters a query must not carry.
    pub fn strip_query(s: &str) -> (r: String)
        ensures
            r@ == strip_separators(s@),
    {
        let n = s.unicode_len();
        let mut out = String::new();
        let mut i: usize = 0;
        while i < n
            invariant
                n == s@.len(),
                0 <= i <= n,
                out@ == strip_separators(s@.take(i as int)),
            decreases n - i,
        {
            let c = s.get_char(i);
            proof {
                assert(s@.take(i + 1).drop_last() =~= s@.take(i as int));
                assert(s@.take(i + 1).last() == s@[i as int]);
            }
            if !(c == '-' || c == ':') {
                push_char(&mut out, c);
            }
            i = i + 1;
        }
        proof {
            assert(s@.take(n as int) == s@);
        }
        out
    }

    /// The query pair of each record, in list order; a skipped record
    /// contributes nothing.
    pub fn prepare_queries(media: &Vec<Media>) -> (r: Vec<Option<(String, String)>>)
        ensures
            r.deep_view() == media.deep_view().map_values(|m: MediaView| query_spec(m)),
    {
        let ghost goal = media.deep_view().map_values(|m: MediaView| query_spec(m));
        let mut out: Vec<Option<(String, String)>> = Vec::new();
        proof {
            assert(out.deep_view() =~= goal.take(0));
        }
        let n = media.len();
        let mut i: usize = 0;
        while i < n
            invariant
                n == media@.len(),
                goal == media.deep_view().map_values(|m: MediaView| query_spec(m)),
                goal.len() == n,
                0 <= i <= n,
                out.deep_view() == goal.take(i as int),
            decreases n - i,
        {
            let m = &media[i];
            let ghost prev = out.deep_view();
            if !m.is_current() {
                out.push(None);
            } else {
                match (&m.title, &m.english_title) {
                    (Some(t), Some(e)) => {
                        let qt = Self::strip_query(t.as_str());
                        let qe = Self::strip_query(e.as_str());
                        out.push(Some((qt, qe)));
                    },
                    _ => {
                        out.push(None);
                    },
                }
            }
            proof {
                assert(out.deep_view() =~= prev.push(goal[i as int]));
                assert(out.deep_view() =~= goal.take(i + 1));
            }
            i = i + 1;
        }
        proof {
            assert(goal.take(n as int) == goal);
        }
        out
    }

    /// Applies the search verdicts: each searched record takes the
    /// schedule entry its verdict names, when it names one.
    pub fn apply_choices(
        media: &mut Vec<Media>,
        schedules: &Vec<AnimeScheduleEntry>,
        choices: &Vec<Option<usize>>,
    ) -> (r: Result<(), AggregatorError>)
        ensures
            r is Ok,
            final(media).deep_view().len() == old(media).deep_view().len(),
            forall|i: int|
                0 <= i < old(media)@.len() ==> final(media).deep_view()[i] == spec_apply_one(
                    old(media).deep_view()[i],
                    schedules.deep_view(),
                    choice_at(choices@, i),
                ),
    {
        let n = media.len();
        let mut i: usize = 0;
        while i < n
            invariant
                n == media@.len(),
                media@.len() == old(media)@.len(),
                0 <= i <= n,
                forall|j: int|
                    0 <= j < i ==> media.deep_view()[j] == spec_apply_one(
                        old(media).deep_view()[j],
                        schedules.deep_view(),
                        choice_at(choices@, j),
                    ),
                forall|j: int|
                    i <= j < n ==> media.deep_view()[j] == old(media).deep_view()[j],
            decreases n - i,
        {
            let m = &media[i];
            let searched = m.is_current() && m.title.is_some() && m.english_title.is_some();
            let choice: Option<usize> = if i < choices.len() {
                choices[i]
            } else {
                None
            };
            let apply = searched && match choice {
                Some(j) => j < schedules.len(),
                None => false,
            };
            if apply {
                let j = match choice {
                    Some(j) => j,
                    None => 0,
                };
                let mut record = media[i].clone();
                record.schedule = Some(schedules[j].clone());
                let ghost before = media.deep_view();
                media.set(i, record);
                proof {
                    assert(media.deep_view() =~= before.update(
                        i as int,
                        spec_apply_one(
                            old(media).deep_view()[i as int],
                            schedules.deep_view(),
                            choice_at(choices@, i as int),
                        ),
                    ));
                }
            } else {
                proof {
                    assert(media.deep_view()[i as int] == spec_apply_one(
                        old(media).deep_view()[i as int],
                        schedules.deep_view(),
                        choice_at(choices@, i as int),
                    ));
                }
            }
            i = i + 1;
        }
        Ok(())
    }
}

} // verus!
