use vstd::prelude::*;
use vstd::string::StringExecFns;

use crate::alt_titles::{AltTitlesEntry, AltTitlesView};
use crate::error::AggregatorError;
use crate::scraper::{AnimeScheduleEntry, ScheduleEntryView};
use crate::text::{lower_chars, str_eq, to_ascii_lower};

verus! {

/// Whether an entry tracks an anime or a manga.
#[derive(Clone, Copy, PartialEq, Eq, Structural, Debug, Hash)]
pub enum MediaType {
    Anime,
    Manga,
}

/// Which media type, if any, a name denotes, compared without regard to
/// ASCII case.
pub open spec fn media_type_of(s: Seq<char>) -> Option<MediaType> {
    if lower_chars(s) == "anime"@ {
        Some(MediaType::Anime)
    } else if lower_chars(s) == "manga"@ {
        Some(MediaType::Manga)
    } else {
        None
    }
}

impl MediaType {
    pub fn from_str(s: &str) -> (r: Result<MediaType, AggregatorError>)
        ensures
            match media_type_of(s@) {
                Some(t) => r == Ok::<MediaType, AggregatorError>(t),
                None => r matches Err(e) && e.message_spec() == "Invalid media type: "@
                    + lower_chars(s@) + "."@,
            },
    {
        let low = to_ascii_lower(s);
        if str_eq(low.as_str(), "anime") {
            Ok(MediaType::Anime)
        } else if str_eq(low.as_str(), "manga") {
            Ok(MediaType::Manga)
        } else {
            let mut message = "Invalid media type: ".to_owned();
            message.append(low.as_str());
            message.append(".");
            Err(AggregatorError::new(message.as_str()))
        }
    }

    pub fn from_option_str(s: Option<&str>) -> (r: Option<MediaType>)
        ensures
            r == match s {
                Some(s) => media_type_of(s@),
                None => None::<MediaType>,
            },
    {
        match s {
            Some(s) => match Self::from_str(s) {
                Ok(t) => Some(t),
                Err(_) => None,
            },
            None => None,
        }
    }
}

/// Mathematical value of one latest-release record.
pub struct LatestView {
    pub title: Seq<char>,
    pub episode: u64,
    pub url: Seq<char>,
}

/// The most recent episode or chapter a release feed knows for a title.
#[derive(PartialEq, Debug, Hash)]
pub struct Latest {
    pub title: String,
    pub episode: u64,
    pub url: String,
}

impl DeepView for Latest {
    type V = LatestView;

    open spec fn deep_view(&self) -> LatestView {
        LatestView { title: self.title@, episode: self.episode, url: self.url@ }
    }
}

impl Clone for Latest {
    fn clone(&self) -> (r: Self)
        ensures
            r == *self,
    {
        Latest { title: self.title.clone(), episode: self.episode, url: self.url.clone() }
    }
}

/// Mathematical value of one canonical media record.
pub struct MediaView {
    pub media_id: Option<u64>,
    pub media_type: Option<MediaType>,
    pub status: Option<Seq<char>>,
    pub format: Option<Seq<char>>,
    pub season: Option<Seq<char>>,
    pub season_year: Option<u64>,
    pub title: Option<Seq<char>>,
    pub english_title: Option<Seq<char>>,
    pub image: Option<Seq<char>>,
    pub episodes: Option<u64>,
    pub score: Option<u64>,
    pub progress: Option<u64>,
    pub schedule: Option<ScheduleEntryView>,
    pub latest: Option<LatestView>,
    pub alt_titles: Option<AltTitlesView>,
}

/// One tracked anime or manga entry, as the list source reports it and as
/// the enrichment stages fill it in.
#[derive(PartialEq, Debug)]
pub struct Media {
    pub media_id: Option<u64>,
    pub media_type: Option<MediaType>,
    pub status: Option<String>,
    pub format: Option<String>,
    pub season: Option<String>,
    pub season_year: Option<u64>,
    pub title: Option<String>,
    pub english_title: Option<String>,
    pub image: Option<String>,
    pub episodes: Option<u64>,
    pub score: Option<u64>,
    pub progress: Option<u64>,
    pub schedule: Option<AnimeScheduleEntry>,
    pub latest: Option<Latest>,
    pub alt_titles: Option<AltTitlesEntry>,
}

impl DeepView for Media {
    type V = MediaView;

    open spec fn deep_view(&self) -> MediaView {
        MediaView {
            media_id: self.media_id,
            media_type: self.media_type,
            status: self.status.deep_view(),
            format: self.format.deep_view(),
            season: self.season.deep_view(),
            season_year: self.season_year,
            title: self.title.deep_view(),
            english_title: self.english_title.deep_view(),
            image: self.image.deep_view(),
            episodes: self.episodes,
            score: self.score,
            progress: self.progress,
            schedule: self.schedule.deep_view(),
            latest: self.latest.deep_view(),
            alt_titles: self.alt_titles.deep_view(),
        }
    }
}

/// Clones an optional string, keeping its value.
pub(crate) fn clone_opt_string(s: &Option<String>) -> (r: Option<String>)
    ensures
        r == *s,
{
    match s {
        Some(s) => Some(s.clone()),
        None => None,
    }
}

impl Clone for Media {
    fn clone(&self) -> (r: Self)
        ensures
            r.deep_view() == self.deep_view(),
    {
        Media {
            media_id: self.media_id,
            media_type: self.media_type,
            status: clone_opt_string(&self.status),
            format: clone_opt_string(&self.format),
            season: clone_opt_string(&self.season),
            season_year: self.season_year,
            title: clone_opt_string(&self.title),
            english_title: clone_opt_string(&self.english_title),
            image: clone_opt_string(&self.image),
            episodes: self.episodes,
            score: self.score,
            progress: self.progress,
            schedule: match &self.schedule {
                Some(s) => Some(s.clone()),
                None => None,
            },
            latest: match &self.latest {
                Some(l) => Some(l.clone()),
                None => None,
            },
            alt_titles: match &self.alt_titles {
                Some(a) => Some(a.clone()),
                None => None,
            },
        }
    }
}

/// Whether a record is in the lifecycle state that enrichment applies to.
pub open spec fn spec_is_current(m: MediaView) -> bool {
    match m.status {
        Some(s) => s == "CURRENT"@,
        None => false,
    }
}

impl Media {
    /// Only records whose status is `CURRENT` are enriched.
    pub fn is_current(&self) -> (r: bool)
        ensures
            r == spec_is_current(self.deep_view()),
    {
        match &self.status {
            Some(s) => str_eq(s.as_str(), "CURRENT"),
            None => false,
        }
    }
}

/// Mathematical value of one tracked user.
pub struct UserView {
    pub id: u64,
    pub name: Seq<char>,
}

/// A user whose tracking list is aggregated.
#[derive(PartialEq, Debug, Hash)]
pub struct User {
    pub id: u64,
    pub name: String,
}

impl DeepView for User {
    type V = UserView;

    open spec fn deep_view(&self) -> UserView {
        UserView { id: self.id, name: self.name@ }
    }
}

/// The anime and manga lists of one aggregation run.
#[derive(PartialEq, Debug)]
pub struct MediaLists {
    pub anime: Vec<Media>,
    pub manga: Vec<Media>,
}

impl MediaLists {
    /// Moves every record of `other` onto the end of `self`, in order.
    pub fn append(&mut self, other: &mut MediaLists)
        ensures
            final(self).anime@ == old(self).anime@ + old(other).anime@,
            final(self).manga@ == old(self).manga@ + old(other).manga@,
            final(other).anime@ == Seq::<Media>::empty(),
            final(other).manga@ == Seq::<Media>::empty(),
    {
        self.anime.append(&mut other.anime);
        self.manga.append(&mut other.manga);
    }
}

} // verus!
