use vstd::prelude::*;

use crate::config::Config;
use crate::error::AggregatorError;
use crate::extra_map::{spec_insert, ExtraMap};
use crate::media::{Media, MediaView};
use crate::text::str_eq;
use crate::transform::{resolve_index, resolve_spec};

verus! {

/// Day of the week a show airs on.
#[derive(Clone, Copy, PartialEq, Eq, Structural, Debug, Hash)]
pub enum Day {
    Sunday,
    Monday,
    Tuesday,
    Wednesday,
    Thursday,
    Friday,
    Saturday,
}

/// Which day, if any, a day name denotes.
pub open spec fn day_of_str(s: Seq<char>) -> Option<Day> {
    if s == "Sunday"@ {
        Some(Day::Sunday)
    } else if s == "Monday"@ {
        Some(Day::Monday)
    } else if s == "Tuesday"@ {
        Some(Day::Tuesday)
    } else if s == "Wednesday"@ {
        Some(Day::Wednesday)
    } else if s == "Thursday"@ {
        Some(Day::Thursday)
    } else if s == "Friday"@ {
        Some(Day::Friday)
    } else if s == "Saturday"@ {
        Some(Day::Saturday)
    } else {
        None
    }
}

impl Day {
    pub fn from_str(day: &str) -> (r: Result<Day, AggregatorError>)
        ensures
            match day_of_str(day@) {
                Some(d) => r == Ok::<Day, AggregatorError>(d),
                None => r matches Err(e) && e.message_spec() == "Invalid day."@,
            },
    {
        if str_eq(day, "Sunday") {
            Ok(Day::Sunday)
        } else if str_eq(day, "Monday") {
            Ok(Day::Monday)
        } else if str_eq(day, "Tuesday") {
            Ok(Day::Tuesday)
        } else if str_eq(day, "Wednesday") {
            Ok(Day::Wednesday)
        } else if str_eq(day, "Thursday") {
            Ok(Day::Thursday)
        } else if str_eq(day, "Friday") {
            Ok(Day::Friday)
        } else if str_eq(day, "Saturday") {
            Ok(Day::Saturday)
        } else {
            Err(AggregatorError::new("Invalid day."))
        }
    }
}

/// Mathematical value of one broadcast-schedule entry.
pub struct ScheduleEntryView {
    pub title: Seq<char>,
    pub day: Day,
    pub time: Seq<char>,
}

/// One row of the broadcast schedule: a show, the day it airs, and the time.
#[derive(PartialEq, Debug, Hash)]
pub struct AnimeScheduleEntry {
    pub title: String,
    pub day: Day,
    pub time: String,
}

impl DeepView for AnimeScheduleEntry {
    type V = ScheduleEntryView;

    open spec fn deep_view(&self) -> ScheduleEntryView {
        ScheduleEntryView { title: self.title@, day: self.day, time: self.time@ }
    }
}

impl Clone for AnimeScheduleEntry {
    fn clone(&self) -> (r: Self)
        ensures
            r == *self,
    {
        AnimeScheduleEntry {
            title: self.title.clone(),
            day: self.day,
            time: self.time.clone(),
        }
    }
}

/// The broadcast schedule, keyed by the show title as the schedule source
/// spells it.
pub struct AnimeSchedule(pub ExtraMap<AnimeScheduleEntry>);

/// What linking a schedule entry into a record leaves behind.
pub open spec fn spec_set_schedule(m: MediaView, extra: Option<ScheduleEntryView>) -> MediaView {
    MediaView { schedule: extra, ..m }
}

/// What one schedule-enrichment pass over a record yields: the resolved
/// entry is linked in, and a record nothing resolves for is untouched.
pub open spec fn spec_transform_schedule(
    m: MediaView,
    entries: Seq<(Seq<char>, ScheduleEntryView)>,
    t: int,
) -> MediaView {
    match resolve_spec(m, entries, t) {
        Some(v) => spec_set_schedule(m, Some(v)),
        None => m,
    }
}

/// Mathematical value of one scraped table row.
pub struct ScheduleRowView {
    pub class: Option<Seq<char>>,
    pub heading: Seq<char>,
    pub title: Seq<char>,
    pub time: Seq<char>,
}

/// One row of the scraped schedule table, reduced to plain values: its
/// class attribute and the text of the cells the scraper reads. A cell
/// the page does not carry is the empty string.
#[derive(PartialEq, Debug)]
pub struct ScheduleRow {
    pub class: Option<String>,
    pub heading: String,
    pub title: String,
    pub time: String,
}

impl DeepView for ScheduleRow {
    type V = ScheduleRowView;

    open spec fn deep_view(&self) -> ScheduleRowView {
        ScheduleRowView {
            class: self.class.deep_view(),
            heading: self.heading@,
            title: self.title@,
            time: self.time@,
        }
    }
}

/// What folding the table rows yields: the schedule built so far and the
/// day the last day header named. A day-header row sets the current day;
/// an item row with a title, a time and a current day files the entry
/// under its title; every other row changes nothing.
pub open spec fn spec_schedule_fold(rows: Seq<ScheduleRowView>, n: int) -> (
    Seq<(Seq<char>, ScheduleEntryView)>,
    Option<Day>,
)
    decreases n,
{
    if n <= 0 {
        (Seq::<(Seq<char>, ScheduleEntryView)>::empty(), None::<Day>)
    } else {
        let prev = spec_schedule_fold(rows, n - 1);
        let row = rows[n - 1];
        match row.class {
            Some(c) => if c == "day-of-week"@ {
                (prev.0, day_of_str(row.heading))
            } else if c == "all-schedule-item"@ {
                if row.title.len() > 0 && row.time.len() > 0 && prev.1 is Some {
                    (
                        spec_insert(
                            prev.0,
                            row.title,
                            ScheduleEntryView {
                                title: row.title,
                                day: prev.1.unwrap(),
                                time: row.time,
                            },
                        ),
                        prev.1,
                    )
                } else {
                    prev
                }
            } else {
                prev
            },
            None => prev,
        }
    }
}

/// The schedule source: scraping lives at the process boundary, the
/// record linkage of scraped entries is here.
pub struct SubsPleaseScraper<'a> {
    pub config: &'a Config,
}

impl<'a> SubsPleaseScraper<'a> {
    pub fn new(config: &'a Config) -> (s: SubsPleaseScraper<'a>)
        ensures
            s.config == config,
    {
        SubsPleaseScraper { config }
    }

    pub fn get_similarity_threshold(&self) -> (t: u32)
        ensures
            t == self.config.transform.similarity_threshold,
    {
        self.config.transform.similarity_threshold
    }

    pub fn set_media(media: &mut Media, extra: Option<AnimeScheduleEntry>)
        ensures
            final(media).deep_view() == spec_set_schedule(
                old(media).deep_view(),
                extra.deep_view(),
            ),
    {
        media.schedule = extra;
    }

    /// Builds the broadcast schedule from the scraped table rows,
    /// tracking the day headers as they pass.
    pub fn schedule_from_rows(rows: &Vec<ScheduleRow>) -> (r: AnimeSchedule)
        ensures
            r.0@ == spec_schedule_fold(rows.deep_view(), rows@.len() as int).0,
            r.0.wf(),
    {
        let mut days: ExtraMap<AnimeScheduleEntry> = ExtraMap::new();
        let mut current_day: Option<Day> = None;
        let n = rows.len();
        let mut i: usize = 0;
        while i < n
            invariant
                n == rows@.len(),
                0 <= i <= n,
                days.wf(),
                (days@, current_day) == spec_schedule_fold(rows.deep_view(), i as int),
            decreases n - i,
        {
            let row = &rows[i];
            match &row.class {
                Some(c) => {
                    if str_eq(c.as_str(), "day-of-week") {
                        current_day = match Day::from_str(row.heading.as_str()) {
                            Ok(d) => Some(d),
                            Err(_) => None,
                        };
                    } else if str_eq(c.as_str(), "all-schedule-item") {
                        if !row.title.as_str().is_empty() && !row.time.as_str().is_empty()
                            && current_day.is_some() {
                            let day = match current_day {
                                Some(d) => d,
                                None => Day::Sunday,
                            };
                            days.insert(
                                row.title.clone(),
                                AnimeScheduleEntry {
                                    title: row.title.clone(),
                                    day,
                                    time: row.time.clone(),
                                },
                            );
                        }
                    }
                },
                None => {},
            }
            i = i + 1;
        }
        AnimeSchedule(days)
    }

    /// Links the schedule entry the matcher resolves for `media`, if any.
    pub fn transform(&self, media: &mut Media, extras: &AnimeSchedule) -> (r: Result<
        (),
        AggregatorError,
    >)
        ensures
            r is Ok,
            final(media).deep_view() == spec_transform_schedule(
                old(media).deep_view(),
                extras.0@,
                self.config.transform.similarity_threshold as int,
            ),
    {
        match resolve_index(media, &extras.0, self.get_similarity_threshold()) {
            Some(i) => {
                let entry = extras.0.value_at(i).clone();
                media.schedule = Some(entry);
            },
            None => {},
        }
        Ok(())
    }
}

} // verus!
