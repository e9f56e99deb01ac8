use vstd::prelude::*;
use vstd::string::StringExecFns;

use crate::config::EmitterConfig;
use crate::error::AggregatorError;
use crate::media::{Latest, LatestView};
use crate::scraper::{AnimeScheduleEntry, Day, ScheduleEntryView};
use crate::similarity::{exceeds_threshold, fraction_gt, score_parts, sim_den, sim_num};
use crate::text::{dec_digits, push_char, str_eq, u64_to_string};
use crate::transform::{consider, fuzzy_scan};

verus! {

/// A hexadecimal digit, lower case.
pub open spec fn hex_digit(d: int) -> char {
    if d < 10 {
        (d + '0' as int) as char
    } else {
        (d - 10 + 'a' as int) as char
    }
}

/// How one character is written inside a JSON string.
pub open spec fn json_escape_char(c: char) -> Seq<char> {
    if c == '"' {
        seq!['\\', '"']
    } else if c == '\\' {
        seq!['\\', '\\']
    } else if c as int == 8 {
        seq!['\\', 'b']
    } else if c == '\t' {
        seq!['\\', 't']
    } else if c == '\n' {
        seq!['\\', 'n']
    } else if c as int == 12 {
        seq!['\\', 'f']
    } else if c == '\r' {
        seq!['\\', 'r']
    } else if (c as int) < 32 {
        seq!['\\', 'u', '0', '0', hex_digit(c as int / 16), hex_digit(c as int % 16)]
    } else {
        seq![c]
    }
}

/// The body of a JSON string, character by character.
pub open spec fn json_escaped(s: Seq<char>) -> Seq<char>
    decreases s.len(),
{
    if s.len() == 0 {
        Seq::<char>::empty()
    } else {
        json_escaped(s.drop_last()) + json_escape_char(s.last())
    }
}

/// A JSON string literal for `s`.
pub open spec fn json_string(s: Seq<char>) -> Seq<char> {
    seq!['"'] + json_escaped(s) + seq!['"']
}

/// Appends one escaped character.
fn push_escaped(out: &mut String, c: char)
    ensures
        final(out)@ == old(out)@ + json_escape_char(c),
{
    let ghost before = out@;
    if c == '"' {
        push_char(out, '\\');
        push_char(out, '"');
    } else if c == '\\' {
        push_char(out, '\\');
        push_char(out, '\\');
    } else if c as u32 == 8 {
        push_char(out, '\\');
        push_char(out, 'b');
    } else if c == '\t' {
        push_char(out, '\\');
        push_char(out, 't');
    } else if c == '\n' {
        push_char(out, '\\');
        push_char(out, 'n');
    } else if c as u32 == 12 {
        push_char(out, '\\');
        push_char(out, 'f');
    } else if c == '\r' {
        push_char(out, '\\');
        push_char(out, 'r');
    } else if (c as u32) < 32 {
        push_char(out, '\\');
        push_char(out, 'u');
        push_char(out, '0');
        push_char(out, '0');
        let d = c as u8;
        let hi = d / 16;
        let lo = d % 16;
        let hc: char = if hi < 10 {
            ((hi + 48) as u8) as char
        } else {
            ((hi - 10 + 97) as u8) as char
        };
        let lc: char = if lo < 10 {
            ((lo + 48) as u8) as char
        } else {
            ((lo - 10 + 97) as u8) as char
        };
        push_char(out, hc);
        push_char(out, lc);
    } else {
        push_char(out, c);
    }
    proof {
        assert(out@ =~= before + json_escape_char(c));
    }
}

/// Writes `s` as a JSON string literal onto `out`.
fn push_json_string(out: &mut String, s: &str)
    ensures
        final(out)@ == old(out)@ + json_string(s@),
{
    let ghost before = out@;
    push_char(out, '"');
    let n = s.unicode_len();
    let mut i: usize = 0;
    while i < n
        invariant
            n == s@.len(),
            0 <= i <= n,
            out@ == before + seq!['"'] + json_escaped(s@.take(i as int)),
        decreases n - i,
    {
        let c = s.get_char(i);
        push_escaped(out, c);
        proof {
            assert(s@.take(i + 1).drop_last() =~= s@.take(i as int));
            assert(s@.take(i + 1).last() == s@[i as int]);
            assert(out@ =~= before + seq!['"'] + json_escaped(s@.take(i + 1)));
        }
        i = i + 1;
    }
    push_char(out, '"');
    proof {
        assert(s@.take(n as int) == s@);
        assert(out@ =~= before + json_string(s@));
    }
}

/// The name a weekday serializes as.
pub open spec fn day_name(d: Day) -> Seq<char> {
    match d {
        Day::Sunday => "Sunday"@,
        Day::Monday => "Monday"@,
        Day::Tuesday => "Tuesday"@,
        Day::Wednesday => "Wednesday"@,
        Day::Thursday => "Thursday"@,
        Day::Friday => "Friday"@,
        Day::Saturday => "Saturday"@,
    }
}

/// The JSON object a schedule entry serializes to.
pub open spec fn schedule_json(e: ScheduleEntryView) -> Seq<char> {
    "{\"title\":"@ + json_string(e.title) + ",\"day\":"@ + json_string(day_name(e.day))
        + ",\"time\":"@ + json_string(e.time) + "}"@
}

/// The JSON object a latest-release entry serializes to.
pub open spec fn latest_json(l: LatestView) -> Seq<char> {
    "{\"title\":"@ + json_string(l.title) + ",\"episode\":"@ + dec_digits(l.episode as int)
        + ",\"url\":"@ + json_string(l.url) + "}"@
}

/// What every emittable extra offers: the title it is matched by, and
/// its serialized form.
pub trait Extra: Sized {
    spec fn title_spec(&self) -> Seq<char>;

    spec fn json_spec(&self) -> Seq<char>;

    fn get_title(&self) -> (t: &String)
        ensures
            t@ == self.title_spec(),
    ;

    fn to_json(&self) -> (s: String)
        ensures
            s@ == self.json_spec(),
    ;
}

impl Extra for AnimeScheduleEntry {
    open spec fn title_spec(&self) -> Seq<char> {
        self.title@
    }

    open spec fn json_spec(&self) -> Seq<char> {
        schedule_json(self.deep_view())
    }

    fn get_title(&self) -> (t: &String) {
        &self.title
    }

    fn to_json(&self) -> (s: String) {
        let mut out = "{\"title\":".to_owned();
        push_json_string(&mut out, self.title.as_str());
        out.append(",\"day\":");
        let name: &str = match self.day {
            Day::Sunday => "Sunday",
            Day::Monday => "Monday",
            Day::Tuesday => "Tuesday",
            Day::Wednesday => "Wednesday",
            Day::Thursday => "Thursday",
            Day::Friday => "Friday",
            Day::Saturday => "Saturday",
        };
        push_json_string(&mut out, name);
        out.append(",\"time\":");
        push_json_string(&mut out, self.time.as_str());
        out.append("}");
        proof {
            assert(out@ =~= schedule_json(self.deep_view()));
        }
        out
    }
}

impl Extra for Latest {
    open spec fn title_spec(&self) -> Seq<char> {
        self.title@
    }

    open spec fn json_spec(&self) -> Seq<char> {
        latest_json(self.deep_view())
    }

    fn get_title(&self) -> (t: &String) {
        &self.title
    }

    fn to_json(&self) -> (s: String) {
        let mut out = "{\"title\":".to_owned();
        push_json_string(&mut out, self.title.as_str());
        out.append(",\"episode\":");
        let ep = u64_to_string(self.episode);
        out.append(ep.as_str());
        out.append(",\"url\":");
        push_json_string(&mut out, self.url.as_str());
        out.append("}");
        proof {
            assert(out@ =~= latest_json(self.deep_view()));
        }
        out
    }
}

/// The slice of a record the emitter needs.
#[derive(PartialEq, Debug)]
pub struct MediaLite {
    pub title: String,
    pub alt_title: String,
    pub status: String,
}

/// Mathematical value of an emitter record.
pub struct MediaLiteView {
    pub title: Seq<char>,
    pub alt_title: Seq<char>,
    pub status: Seq<char>,
}

impl DeepView for MediaLite {
    type V = MediaLiteView;

    open spec fn deep_view(&self) -> MediaLiteView {
        MediaLiteView { title: self.title@, alt_title: self.alt_title@, status: self.status@ }
    }
}

/// One emitted message: which record matched, under what key it was
/// emitted, and the matched extra serialized as JSON.
#[derive(PartialEq, Debug)]
pub struct Emitted {
    pub index: usize,
    pub key: String,
    pub json: String,
}

/// Mathematical value of one emitted message.
pub struct EmittedView {
    pub index: usize,
    pub key: Seq<char>,
    pub json: Seq<char>,
}

impl DeepView for Emitted {
    type V = EmittedView;

    open spec fn deep_view(&self) -> EmittedView {
        EmittedView { index: self.index, key: self.key@, json: self.json@ }
    }
}

/// The messages emitting the first `n` records yields: one per `CURRENT`
/// record whose best fuzzy match over the extras' titles clears the
/// threshold.
pub open spec fn spec_emit<T: Extra>(
    media: Seq<MediaLiteView>,
    extras: Seq<T>,
    key: Seq<char>,
    t: int,
    n: int,
) -> Seq<EmittedView>
    decreases n,
{
    if n <= 0 {
        Seq::<EmittedView>::empty()
    } else {
        let prev = spec_emit(media, extras, key, t, n - 1);
        let m = media[n - 1];
        if m.status == "CURRENT"@ {
            let keys = extras.map_values(|x: T| x.title_spec());
            match fuzzy_scan(keys, m.title, m.alt_title, t, keys.len() as int) {
                Some(b) => prev.push(
                    EmittedView {
                        index: (n - 1) as usize,
                        key,
                        json: extras[b.idx].json_spec(),
                    },
                ),
                None => prev,
            }
        } else {
            prev
        }
    }
}

/// Sends the best extra match of each tracked record to a consumer; the
/// channel itself lives at the process boundary.
pub struct Emitter<'a> {
    pub config: &'a EmitterConfig,
}

impl<'a> Emitter<'a> {
    pub fn new(config: &'a EmitterConfig) -> (e: Emitter<'a>)
        ensures
            e.config == config,
    {
        Emitter { config }
    }

    /// The best fuzzy match over the extras' titles for one record.
    fn best_extra<T: Extra>(&self, media: &MediaLite, extra: &Vec<T>) -> (r: Option<usize>)
        ensures
            ({
                let keys = extra@.map_values(|x: T| x.title_spec());
                let scan = fuzzy_scan(
                    keys,
                    media.deep_view().title,
                    media.deep_view().alt_title,
                    self.config.similarity_threshold as int,
                    keys.len() as int,
                );
                match (r, scan) {
                    (None, None) => true,
                    (Some(i), Some(b)) => i < extra@.len() && i as int == b.idx,
                    _ => false,
                }
            }),
    {
        let ghost keys = extra@.map_values(|x: T| x.title_spec());
        let ghost t = self.config.similarity_threshold as int;
        let ghost title_v = media.deep_view().title;
        let ghost english_v = media.deep_view().alt_title;
        let threshold = self.config.similarity_threshold;
        let n = extra.len();
        let mut best: Option<(usize, usize, usize)> = None;
        let mut i: usize = 0;
        while i < n
            invariant
                n == extra@.len(),
                keys == extra@.map_values(|x: T| x.title_spec()),
                keys.len() == n,
                t == threshold as int,
                title_v == media.deep_view().title,
                english_v == media.deep_view().alt_title,
                0 <= i <= n,
                match (best, fuzzy_scan(keys, title_v, english_v, t, i as int)) {
                    (None, None) => true,
                    (Some((bi, bn, bd)), Some(fb)) => bi < n && bi as int == fb.idx
                        && bn as int == fb.num && bd as int == fb.den,
                    _ => false,
                },
            decreases n - i,
        {
            let ghost prev_best = fuzzy_scan(keys, title_v, english_v, t, i as int);
            let ghost k = keys[i as int];
            let ex = &extra[i];
            let key = ex.get_title();
            proof {
                assert(keys[i as int] == extra@[i as int].title_spec());
            }
            let (n1, d1) = score_parts(media.title.as_str(), key.as_str());
            let clears1 = exceeds_threshold(n1, d1, threshold);
            let better1 = match best {
                None => true,
                Some((_, bn, bd)) => fraction_gt(n1, d1, bn, bd),
            };
            if clears1 && better1 {
                best = Some((i, n1, d1));
            }
            proof {
                let at = consider(prev_best, i as int, sim_num(title_v, k), sim_den(title_v, k), t);
                assert(match (best, at) {
                    (None, None) => true,
                    (Some((bi, bn, bd)), Some(fb)) => bi < n && bi as int == fb.idx
                        && bn as int == fb.num && bd as int == fb.den,
                    _ => false,
                });
            }
            let (n2, d2) = score_parts(media.alt_title.as_str(), key.as_str());
            let clears2 = exceeds_threshold(n2, d2, threshold);
            let better2 = match best {
                None => true,
                Some((_, bn, bd)) => fraction_gt(n2, d2, bn, bd),
            };
            if clears2 && better2 {
                best = Some((i, n2, d2));
            }
            proof {
                let at = consider(prev_best, i as int, sim_num(title_v, k), sim_den(title_v, k), t);
                let ae = consider(at, i as int, sim_num(english_v, k), sim_den(english_v, k), t);
                assert(fuzzy_scan(keys, title_v, english_v, t, i + 1) == ae);
                assert(match (best, ae) {
                    (None, None) => true,
                    (Some((bi, bn, bd)), Some(fb)) => bi < n && bi as int == fb.idx
                        && bn as int == fb.num && bd as int == fb.den,
                    _ => false,
                });
            }
            i = i + 1;
        }
        match best {
            Some((bi, _, _)) => Some(bi),
            None => None,
        }
    }

    /// Emits one message per `CURRENT` record whose best title match
    /// over the extras clears the threshold, in record order.
    pub fn emit<T: Extra>(&self, media: &Vec<MediaLite>, extra: &Vec<T>, key: &str) -> (r: Result<
        Vec<Emitted>,
        AggregatorError,
    >)
        ensures
            r matches Ok(out) && out.deep_view() == spec_emit(
                media.deep_view(),
                extra@,
                key@,
                self.config.similarity_threshold as int,
                media@.len() as int,
            ),
    {
        let ghost t = self.config.similarity_threshold as int;
        let mut out: Vec<Emitted> = Vec::new();
        proof {
            assert(out.deep_view() =~= spec_emit(media.deep_view(), extra@, key@, t, 0));
        }
        let n = media.len();
        let mut i: usize = 0;
        while i < n
            invariant
                n == media@.len(),
                t == self.config.similarity_threshold as int,
                0 <= i <= n,
                out.deep_view() == spec_emit(media.deep_view(), extra@, key@, t, i as int),
            decreases n - i,
        {
            let entry = &media[i];
            if str_eq(entry.status.as_str(), "CURRENT") {
                match self.best_extra(entry, extra) {
                    Some(bi) => {
                        let ghost prev = out.deep_view();
                        let json = extra[bi].to_json();
                        out.push(Emitted { index: i, key: key.to_owned(), json });
                        proof {
                            assert(out.deep_view() =~= prev.push(
                                EmittedView {
                                    index: i,
                                    key: key@,
                                    json: extra@[bi as int].json_spec(),
                                },
                            ));
                        }
                    },
                    None => {},
                }
            }
            i = i + 1;
        }
        Ok(out)
    }
}

} // verus!
