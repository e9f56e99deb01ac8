use vstd::prelude::*;
use vstd::pervasive::VecAdditionalExecFns;

use crate::config::{CombinerConfig, DEFAULT_SIMILARITY_THRESHOLD};
use crate::error::AggregatorError;
use crate::media::{spec_is_current, Media, MediaView};
use crate::scraper::{AnimeScheduleEntry, ScheduleEntryView};
use crate::similarity::{exceeds_threshold, fraction_gt, score_parts, sim_den, sim_num};
use crate::transform::{consider, fuzzy_scan, lemma_fuzzy_scan_in_range, opt_title};

verus! {

/// The titles of a schedule list, in list order.
pub open spec fn schedule_titles(scheds: Seq<ScheduleEntryView>) -> Seq<Seq<char>> {
    scheds.map_values(|s: ScheduleEntryView| s.title)
}

/// What combining one record with the schedule list yields: a `CURRENT`
/// record gets the best fuzzy match above the threshold as its schedule;
/// a record nothing clears the threshold for, like any record that is
/// not `CURRENT`, is untouched.
pub open spec fn spec_combine_one(
    m: MediaView,
    scheds: Seq<ScheduleEntryView>,
    t: int,
) -> MediaView {
    if spec_is_current(m) {
        let keys = schedule_titles(scheds);
        match fuzzy_scan(keys, opt_title(m.title), opt_title(m.english_title), t, keys.len() as int) {
            Some(b) => MediaView { schedule: Some(scheds[b.idx]), ..m },
            None => m,
        }
    } else {
        m
    }
}

/// Joins the canonical anime list with the scraped broadcast schedule by
/// fuzzy title similarity alone.
pub struct Combiner {
    pub config: CombinerConfig,
}

impl Combiner {
    pub fn new(config: CombinerConfig) -> (c: Combiner)
        ensures
            c.config == config,
    {
        Combiner { config }
    }

    /// Resolves the best-scoring schedule entry for one record.
    fn combine_one(&self, media: &Media, schedules: &Vec<AnimeScheduleEntry>) -> (r: Option<
        usize,
    >)
        ensures
            ({
                let keys = schedule_titles(schedules.deep_view());
                let scan = fuzzy_scan(
                    keys,
                    opt_title(media.deep_view().title),
                    opt_title(media.deep_view().english_title),
                    self.config.similarity_threshold as int,
                    keys.len() as int,
                );
                match (r, scan) {
                    (None, None) => true,
                    (Some(i), Some(b)) => i < schedules@.len() && i as int == b.idx,
                    _ => false,
                }
            }),
    {
        proof {
            reveal_strlit("");
            assert(""@ =~= Seq::<char>::empty());
        }
        let title: &str = match &media.title {
            Some(t) => t.as_str(),
            None => "",
        };
        let english: &str = match &media.english_title {
            Some(t) => t.as_str(),
            None => "",
        };
        let ghost keys = schedule_titles(schedules.deep_view());
        let ghost t = self.config.similarity_threshold as int;
        let ghost title_v = title@;
        let ghost english_v = english@;
        let threshold = self.config.similarity_threshold;
        let n = schedules.len();
        let mut best: Option<(usize, usize, usize)> = None;
        let mut i: usize = 0;
        while i < n
            invariant
                n == schedules@.len(),
                keys == schedule_titles(schedules.deep_view()),
                keys.len() == n,
                t == threshold as int,
                title_v == title@,
                english_v == english@,
                0 <= i <= n,
                match (best, fuzzy_scan(keys, title_v, english_v, t, i as int)) {
                    (None, None) => true,
                    (Some((bi, bn, bd)), Some(fb)) => bi < n && bi as int == fb.idx
                        && bn as int == fb.num && bd as int == fb.den,
                    _ => false,
                },
            decreases n - i,
        {
            let ghost prev_best = fuzzy_scan(keys, title_v, english_v, t, i as int);
            let ghost k = keys[i as int];
            let key = &schedules[i].title;
            proof {
                assert(keys[i as int] == schedules.deep_view()[i as int].title);
            }
            let (n1, d1) = score_parts(title, key.as_str());
            let clears1 = exceeds_threshold(n1, d1, threshold);
            let better1 = match best {
                None => true,
                Some((_, bn, bd)) => fraction_gt(n1, d1, bn, bd),
            };
            if clears1 && better1 {
                best = Some((i, n1, d1));
            }
            proof {
                let at = consider(prev_best, i as int, sim_num(title_v, k), sim_den(title_v, k), t);
                assert(match (best, at) {
                    (None, None) => true,
                    (Some((bi, bn, bd)), Some(fb)) => bi < n && bi as int == fb.idx
                        && bn as int == fb.num && bd as int == fb.den,
                    _ => false,
                });
            }
            let (n2, d2) = score_parts(english, key.as_str());
            let clears2 = exceeds_threshold(n2, d2, threshold);
            let better2 = match best {
                None => true,
                Some((_, bn, bd)) => fraction_gt(n2, d2, bn, bd),
            };
            if clears2 && better2 {
                best = Some((i, n2, d2));
            }
            proof {
                let at = consider(prev_best, i as int, sim_num(title_v, k), sim_den(title_v, k), t);
                let ae = consider(at, i as int, sim_num(english_v, k), sim_den(english_v, k), t);
                assert(fuzzy_scan(keys, title_v, english_v, t, i + 1) == ae);
                assert(match (best, ae) {
                    (None, None) => true,
                    (Some((bi, bn, bd)), Some(fb)) => bi < n && bi as int == fb.idx
                        && bn as int == fb.num && bd as int == fb.den,
                    _ => false,
                });
            }
            i = i + 1;
        }
        match best {
            Some((bi, _, _)) => Some(bi),
            None => None,
        }
    }

    /// Joins every `CURRENT` anime record with its best-matching schedule
    /// entry, leaving records nothing matches untouched.
    pub fn combine(&self, anime: &mut Vec<Media>, schedules: &Vec<AnimeScheduleEntry>) -> (r:
        Result<(), AggregatorError>)
        ensures
            r is Ok,
            final(anime).deep_view() == old(anime).deep_view().map_values(
                |m: MediaView| spec_combine_one(
                    m,
                    schedules.deep_view(),
                    self.config.similarity_threshold as int,
                ),
            ),
    {
        let ghost scheds = schedules.deep_view();
        let ghost t = self.config.similarity_threshold as int;
        let ghost goal = old(anime).deep_view().map_values(
            |m: MediaView| spec_combine_one(m, scheds, t),
        );
        let n = anime.len();
        let mut i: usize = 0;
        while i < n
            invariant
                n == anime@.len(),
                anime@.len() == old(anime)@.len(),
                scheds == schedules.deep_view(),
                t == self.config.similarity_threshold as int,
                goal == old(anime).deep_view().map_values(
                    |m: MediaView| spec_combine_one(m, scheds, t),
                ),
                goal.len() == n,
                0 <= i <= n,
                forall|j: int| 0 <= j < i ==> anime.deep_view()[j] == goal[j],
                forall|j: int| i <= j < n ==> anime.deep_view()[j] == old(anime).deep_view()[j],
            decreases n - i,
        {
            let current = anime[i].is_current();
            if current {
                let choice = self.combine_one(&anime[i], schedules);
                match choice {
                    Some(bi) => {
                        proof {
                            lemma_fuzzy_scan_in_range(
                                schedule_titles(scheds),
                                opt_title(anime.deep_view()[i as int].title),
                                opt_title(anime.deep_view()[i as int].english_title),
                                t,
                                scheds.len() as int,
                            );
                        }
                        let mut record = anime[i].clone();
                        record.schedule = Some(schedules[bi].clone());
                        let ghost before = anime.deep_view();
                        anime.set(i, record);
                        proof {
                            assert(anime.deep_view() =~= before.update(
                                i as int,
                                goal[i as int],
                            ));
                        }
                    },
                    None => {
                        proof {
                            assert(anime.deep_view()[i as int] == goal[i as int]);
                        }
                    },
                }
            } else {
                proof {
                    assert(anime.deep_view()[i as int] == goal[i as int]);
                }
            }
            i = i + 1;
        }
        proof {
            assert(anime.deep_view() =~= goal);
        }
        Ok(())
    }
}

impl Default for Combiner {
    /// A combiner with the default similarity threshold.
    fn default() -> (c: Combiner)
        ensures
            c.config.similarity_threshold == DEFAULT_SIMILARITY_THRESHOLD,
    {
        Combiner::new(CombinerConfig { similarity_threshold: DEFAULT_SIMILARITY_THRESHOLD })
    }
}

} // verus!
