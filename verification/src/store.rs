use vstd::prelude::*;
use vstd::pervasive::VecAdditionalExecFns;

use crate::alt_titles::{AltTitlesEntry, AltTitlesView};
use crate::error::AggregatorError;
use crate::extra_map::IdMap;
use crate::media::{LatestView, Media, MediaType, MediaView, User, UserView};
use crate::scraper::{Day, ScheduleEntryView};

verus! {

pub const FNV_OFFSET: u64 = 0xcbf29ce484222325;

pub const FNV_PRIME: u64 = 0x100000001b3;

/// One step of the FNV-1a fold over a word stream.
pub open spec fn fnv_step(h: u64, w: u64) -> u64 {
    ((((h ^ w) as int) * (FNV_PRIME as int)) % 0x10000000000000000) as u64
}

/// FNV-1a over the first `n` words.
pub open spec fn fnv_upto(words: Seq<u64>, n: int) -> u64
    decreases n,
{
    if n <= 0 {
        FNV_OFFSET
    } else {
        fnv_step(fnv_upto(words, n - 1), words[n - 1])
    }
}

/// FNV-1a over a word stream.
pub open spec fn fnv_hash(words: Seq<u64>) -> u64 {
    fnv_upto(words, words.len() as int)
}

/// A fixed small word for each weekday.
pub open spec fn day_word(d: Day) -> u64 {
    match d {
        Day::Sunday => 0,
        Day::Monday => 1,
        Day::Tuesday => 2,
        Day::Wednesday => 3,
        Day::Thursday => 4,
        Day::Friday => 5,
        Day::Saturday => 6,
    }
}

/// A string as a word stream: its length, then its characters.
pub open spec fn str_words(s: Seq<char>) -> Seq<u64> {
    seq![s.len() as u64] + s.map_values(|c: char| c as u64)
}

/// An optional number as a word stream, tagged by presence.
pub open spec fn opt_u64_words(v: Option<u64>) -> Seq<u64> {
    match v {
        None => seq![0u64],
        Some(x) => seq![1u64, x],
    }
}

/// An optional string as a word stream, tagged by presence.
pub open spec fn opt_str_words(v: Option<Seq<char>>) -> Seq<u64> {
    match v {
        None => seq![0u64],
        Some(s) => seq![1u64] + str_words(s),
    }
}

/// A list of strings as a word stream: the count, then each string.
pub open spec fn strs_words(ss: Seq<Seq<char>>) -> Seq<u64>
    decreases ss.len(),
{
    if ss.len() == 0 {
        Seq::<u64>::empty()
    } else {
        str_words(ss[0]) + strs_words(ss.drop_first())
    }
}

/// A schedule entry as a word stream.
pub open spec fn schedule_words(s: ScheduleEntryView) -> Seq<u64> {
    str_words(s.title) + seq![day_word(s.day)] + str_words(s.time)
}

/// A latest-release entry as a word stream.
pub open spec fn latest_words(l: LatestView) -> Seq<u64> {
    str_words(l.title) + seq![l.episode] + str_words(l.url)
}

/// An alternate-titles entry as a word stream.
pub open spec fn alt_words(a: AltTitlesView) -> Seq<u64> {
    seq![a.media_id, a.alt_titles.len() as u64] + strs_words(a.alt_titles)
}

/// The media type as a word stream, tagged by presence.
pub open spec fn media_type_words(v: Option<MediaType>) -> Seq<u64> {
    match v {
        None => seq![0u64],
        Some(MediaType::Anime) => seq![1u64, 0u64],
        Some(MediaType::Manga) => seq![1u64, 1u64],
    }
}

/// The versioned field list of the content hash: every semantically
/// significant field of a record, in a fixed order; bookkeeping such as
/// the modification stamp stays out.
#[verifier::opaque]
pub open spec fn media_words(m: MediaView) -> Seq<u64> {
    opt_u64_words(m.media_id) + media_type_words(m.media_type) + opt_str_words(m.status)
        + opt_str_words(m.format) + opt_str_words(m.season) + opt_u64_words(m.season_year)
        + opt_str_words(m.title) + opt_str_words(m.english_title) + opt_str_words(m.image)
        + opt_u64_words(m.episodes) + opt_u64_words(m.score) + opt_u64_words(m.progress) + (
    match m.schedule {
        None => seq![0u64],
        Some(s) => seq![1u64] + schedule_words(s),
    }) + (match m.latest {
        None => seq![0u64],
        Some(l) => seq![1u64] + latest_words(l),
    }) + (match m.alt_titles {
        None => seq![0u64],
        Some(a) => seq![1u64] + alt_words(a),
    })
}

/// The change-detection token of a record.
pub open spec fn media_hash(m: MediaView) -> u64 {
    fnv_hash(media_words(m))
}

/// One FNV-1a step.
fn fnv_step_exec(h: u64, w: u64) -> (r: u64)
    ensures
        r == fnv_step(h, w),
{
    let x: u128 = (h ^ w) as u128;
    let prod: u128 = x * (FNV_PRIME as u128);
    (prod % 0x10000000000000000u128) as u64
}

/// Appends a string's words.
fn push_str_words(out: &mut Vec<u64>, s: &str)
    ensures
        final(out)@ == old(out)@ + str_words(s@),
{
    let n = s.unicode_len();
    out.push(n as u64);
    let mut i: usize = 0;
    while i < n
        invariant
            n == s@.len(),
            0 <= i <= n,
            out@ == old(out)@ + seq![n as u64] + s@.take(i as int).map_values(
                |c: char| c as u64,
            ),
        decreases n - i,
    {
        let c = s.get_char(i);
        out.push(c as u64);
        proof {
            assert(s@.take(i + 1) == s@.take(i as int).push(s@[i as int]));
            assert(s@.take(i + 1).map_values(|c: char| c as u64) =~= s@.take(i as int).map_values(
                |c: char| c as u64,
            ).push(s@[i as int] as u64));
            assert(out@ =~= old(out)@ + seq![n as u64] + s@.take(i + 1).map_values(
                |c: char| c as u64,
            ));
        }
        i = i + 1;
    }
    proof {
        assert(s@.take(n as int) == s@);
        assert(old(out)@ + seq![n as u64] + s@.map_values(|c: char| c as u64) =~= old(out)@
            + str_words(s@));
    }
}

/// Appends an optional string's words.
fn push_opt_str_words(out: &mut Vec<u64>, s: &Option<String>)
    ensures
        final(out)@ == old(out)@ + opt_str_words(s.deep_view()),
{
    match s {
        None => {
            out.push(0);
            proof {
                assert(out@ =~= old(out)@ + opt_str_words(s.deep_view()));
            }
        },
        Some(s2) => {
            out.push(1);
            push_str_words(out, s2.as_str());
            proof {
                assert(out@ =~= old(out)@ + opt_str_words(s.deep_view()));
            }
        },
    }
}

/// Appends an optional number's words.
fn push_opt_u64(out: &mut Vec<u64>, v: &Option<u64>)
    ensures
        final(out)@ == old(out)@ + opt_u64_words(*v),
{
    match v {
        None => {
            out.push(0);
            proof {
                assert(out@ =~= old(out)@ + opt_u64_words(*v));
            }
        },
        Some(x) => {
            out.push(1);
            out.push(*x);
            proof {
                assert(out@ =~= old(out)@ + opt_u64_words(*v));
            }
        },
    }
}

/// Appends each string of a list, in order.
fn push_strs_words(out: &mut Vec<u64>, ss: &Vec<String>)
    ensures
        final(out)@ == old(out)@ + strs_words(ss.deep_view()),
{
    let n = ss.len();
    let mut i: usize = 0;
    while i < n
        invariant
            n == ss@.len(),
            0 <= i <= n,
            out@ == old(out)@ + strs_words(ss.deep_view().take(i as int)),
        decreases n - i,
    {
        let ghost before = out@;
        push_str_words(out, ss[i].as_str());
        proof {
            lemma_strs_words_take_step(ss.deep_view(), i as int);
        }
        i = i + 1;
    }
    proof {
        assert(ss.deep_view().take(n as int) == ss.deep_view());
    }
}

/// Taking one more string extends the word stream by that string's words.
proof fn lemma_strs_words_take_step(ss: Seq<Seq<char>>, i: int)
    requires
        0 <= i < ss.len(),
    ensures
        strs_words(ss.take(i + 1)) == strs_words(ss.take(i)) + str_words(ss[i]),
    decreases i,
{
    if i == 0 {
        assert(ss.take(1) =~= seq![ss[0]]);
        assert(ss.take(1).drop_first() =~= Seq::<Seq<char>>::empty());
        assert(ss.take(0) =~= Seq::<Seq<char>>::empty());
        assert(strs_words(ss.take(1)) =~= strs_words(ss.take(0)) + str_words(ss[0]));
    } else {
        assert(ss.take(i + 1)[0] == ss[0]);
        assert(ss.take(i + 1).drop_first() =~= ss.drop_first().take(i));
        assert(ss.take(i).drop_first() =~= ss.drop_first().take(i - 1));
        assert(ss.drop_first()[i - 1] == ss[i]);
        lemma_strs_words_take_step(ss.drop_first(), i - 1);
        assert(strs_words(ss.take(i + 1)) =~= strs_words(ss.take(i)) + str_words(ss[i]));
    }
}

/// Appends one word.
fn push_word(out: &mut Vec<u64>, w: u64)
    ensures
        final(out)@ == old(out)@ + seq![w],
{
    let ghost before = out@;
    out.push(w);
    proof {
        assert(out@ =~= before + seq![w]);
    }
}

/// Appends the tagged media-type words.
fn push_media_type_words(out: &mut Vec<u64>, v: &Option<MediaType>)
    ensures
        final(out)@ == old(out)@ + media_type_words(*v),
{
    let ghost before = out@;
    match v {
        None => push_word(out, 0),
        Some(MediaType::Anime) => {
            push_word(out, 1);
            push_word(out, 0);
        },
        Some(MediaType::Manga) => {
            push_word(out, 1);
            push_word(out, 1);
        },
    }
    proof {
        assert(out@ =~= before + media_type_words(*v));
    }
}

/// Appends the tagged schedule words.
fn push_schedule_field_words(out: &mut Vec<u64>, v: &Option<crate::scraper::AnimeScheduleEntry>)
    ensures
        final(out)@ == old(out)@ + (match v.deep_view() {
            None => seq![0u64],
            Some(s) => seq![1u64] + schedule_words(s),
        }),
{
    let ghost before = out@;
    match v {
        None => push_word(out, 0),
        Some(s) => {
            push_word(out, 1);
            push_str_words(out, s.title.as_str());
            let dw: u64 = match s.day {
                Day::Sunday => 0,
                Day::Monday => 1,
                Day::Tuesday => 2,
                Day::Wednesday => 3,
                Day::Thursday => 4,
                Day::Friday => 5,
                Day::Saturday => 6,
            };
            push_word(out, dw);
            push_str_words(out, s.time.as_str());
            proof {
                assert(out@ =~= before + (seq![1u64] + schedule_words(s.deep_view())));
            }
        },
    }
}

/// Appends the tagged latest-release words.
fn push_latest_field_words(out: &mut Vec<u64>, v: &Option<crate::media::Latest>)
    ensures
        final(out)@ == old(out)@ + (match v.deep_view() {
            None => seq![0u64],
            Some(l) => seq![1u64] + latest_words(l),
        }),
{
    let ghost before = out@;
    match v {
        None => push_word(out, 0),
        Some(l) => {
            push_word(out, 1);
            push_str_words(out, l.title.as_str());
            push_word(out, l.episode);
            push_str_words(out, l.url.as_str());
            proof {
                assert(out@ =~= before + (seq![1u64] + latest_words(l.deep_view())));
            }
        },
    }
}

/// Appends the tagged alternate-titles words.
fn push_alt_field_words(out: &mut Vec<u64>, v: &Option<crate::alt_titles::AltTitlesEntry>)
    ensures
        final(out)@ == old(out)@ + (match v.deep_view() {
            None => seq![0u64],
            Some(a) => seq![1u64] + alt_words(a),
        }),
{
    let ghost before = out@;
    match v {
        None => push_word(out, 0),
        Some(a) => {
            push_word(out, 1);
            push_word(out, a.media_id);
            push_word(out, a.alt_titles.len() as u64);
            push_strs_words(out, &a.alt_titles);
            proof {
                assert(out@ =~= before + (seq![1u64] + alt_words(a.deep_view())));
            }
        },
    }
}

/// The word stream of one record, as `media_words` lays it out.
#[verifier::rlimit(100)]
fn collect_media_words(media: &Media) -> (out: Vec<u64>)
    ensures
        out@ == media_words(media.deep_view()),
{
    let mut out: Vec<u64> = Vec::new();
    proof {
        assert(out@ =~= Seq::<u64>::empty());
    }
    push_opt_u64(&mut out, &media.media_id);
    push_media_type_words(&mut out, &media.media_type);
    push_opt_str_words(&mut out, &media.status);
    push_opt_str_words(&mut out, &media.format);
    push_opt_str_words(&mut out, &media.season);
    push_opt_u64(&mut out, &media.season_year);
    push_opt_str_words(&mut out, &media.title);
    push_opt_str_words(&mut out, &media.english_title);
    push_opt_str_words(&mut out, &media.image);
    push_opt_u64(&mut out, &media.episodes);
    push_opt_u64(&mut out, &media.score);
    push_opt_u64(&mut out, &media.progress);
    push_schedule_field_words(&mut out, &media.schedule);
    push_latest_field_words(&mut out, &media.latest);
    push_alt_field_words(&mut out, &media.alt_titles);
    proof {
        reveal(media_words);
        let m = media.deep_view();
        assert(Seq::<u64>::empty() + opt_u64_words(m.media_id) =~= opt_u64_words(m.media_id));
        assert(out@ =~= media_words(m));
    }
    out
}

/// Computes the change-detection token of a record from its semantically
/// significant fields alone.
pub fn hash_document(media: &Media) -> (h: u64)
    ensures
        h == media_hash(media.deep_view()),
{
    let words = collect_media_words(media);
    let n = words.len();
    let mut h: u64 = FNV_OFFSET;
    let mut i: usize = 0;
    while i < n
        invariant
            n == words@.len(),
            words@ == media_words(media.deep_view()),
            0 <= i <= n,
            h == fnv_upto(words@, i as int),
        decreases n - i,
    {
        h = fnv_step_exec(h, words[i]);
        i = i + 1;
    }
    h
}

/// Mathematical value of one stored document.
pub struct StoredDocView {
    pub media: MediaView,
    pub hash: u64,
    pub modified: u64,
}

/// One document as the store holds it: the record, its content hash, and
/// the time it was last written.
pub struct StoredDocument {
    pub media: Media,
    pub hash: u64,
    pub modified: u64,
}

impl DeepView for StoredDocument {
    type V = StoredDocView;

    open spec fn deep_view(&self) -> StoredDocView {
        StoredDocView { media: self.media.deep_view(), hash: self.hash, modified: self.modified }
    }
}

/// Whether the store holds a document under the identity key `id`.
pub open spec fn has_doc(s: Seq<StoredDocView>, id: u64) -> bool {
    exists|i: int| 0 <= i < s.len() && s[i].media.media_id == Some(id)
}

/// Index of the first document under the identity key `id`.
pub open spec fn doc_index(s: Seq<StoredDocView>, id: u64) -> int
    decreases s.len(),
{
    if s.len() == 0 {
        0
    } else if s[0].media.media_id == Some(id) {
        0
    } else {
        1 + doc_index(s.drop_first(), id)
    }
}

/// When `id` is present, `doc_index` lands on a document that carries it.
pub proof fn lemma_doc_index_props(s: Seq<StoredDocView>, id: u64)
    requires
        has_doc(s, id),
    ensures
        0 <= doc_index(s, id) < s.len(),
        s[doc_index(s, id)].media.media_id == Some(id),
    decreases s.len(),
{
    if s[0].media.media_id == Some(id) {
    } else {
        let i = choose|i: int| 0 <= i < s.len() && s[i].media.media_id == Some(id);
        assert(s.drop_first()[i - 1] == s[i]);
        lemma_doc_index_props(s.drop_first(), id);
    }
}

/// If `id` first occurs at `i`, then `doc_index` finds exactly `i`.
pub proof fn lemma_doc_index_first(s: Seq<StoredDocView>, id: u64, i: int)
    requires
        0 <= i < s.len(),
        s[i].media.media_id == Some(id),
        forall|j: int| 0 <= j < i ==> s[j].media.media_id != Some(id),
    ensures
        has_doc(s, id),
        doc_index(s, id) == i,
    decreases i,
{
    if i == 0 {
    } else {
        assert(s[0].media.media_id != Some(id));
        lemma_doc_index_first(s.drop_first(), id, i - 1);
    }
}

/// The document an upsert writes for a record at a given time.
pub open spec fn stored_doc(m: MediaView, now: u64) -> StoredDocView {
    StoredDocView { media: m, hash: media_hash(m), modified: now }
}

/// What one upsert yields: the document under the record's id is replaced
/// in place, or appended when the id is new. A record without an id
/// leaves the store as it is.
pub open spec fn spec_upsert_one(s: Seq<StoredDocView>, m: MediaView, now: u64) -> Seq<
    StoredDocView,
> {
    match m.media_id {
        Some(id) => if has_doc(s, id) {
            s.update(doc_index(s, id), stored_doc(m, now))
        } else {
            s.push(stored_doc(m, now))
        },
        None => s,
    }
}

/// What upserting a whole batch yields, record by record in batch order.
pub open spec fn spec_upsert_all(s: Seq<StoredDocView>, rs: Seq<MediaView>, now: u64) -> Seq<
    StoredDocView,
>
    decreases rs.len(),
{
    if rs.len() == 0 {
        s
    } else {
        spec_upsert_all(spec_upsert_one(s, rs[0], now), rs.drop_first(), now)
    }
}

/// Whether every record of a batch carries an identity key.
pub open spec fn all_have_ids(rs: Seq<MediaView>) -> bool {
    forall|j: int| 0 <= j < rs.len() ==> (#[trigger] rs[j]).media_id is Some
}

/// Whether some record of the batch carries the id `id`.
pub open spec fn rs_has_id(rs: Seq<MediaView>, id: u64) -> bool {
    exists|j: int| 0 <= j < rs.len() && rs[j].media_id == Some(id)
}

/// The last record of the batch that carries the id `id`: the one whose
/// write survives the batch.
pub open spec fn last_record(rs: Seq<MediaView>, id: u64) -> MediaView
    decreases rs.len(),
{
    if rs.len() == 0 {
        vstd::pervasive::arbitrary()
    } else if rs_has_id(rs.drop_first(), id) {
        last_record(rs.drop_first(), id)
    } else {
        rs[0]
    }
}

/// The identity-key constraint of a collection: every document carries
/// an id, ids never repeat, and every stored hash is the content hash of
/// the stored record.
pub open spec fn ids_wf(s: Seq<StoredDocView>) -> bool {
    (forall|i: int| 0 <= i < s.len() ==> (#[trigger] s[i]).media.media_id is Some) && (forall|
        i: int,
        j: int,
    |
        0 <= i < j < s.len() ==> s[i].media.media_id != s[j].media.media_id) && (forall|i: int|
        0 <= i < s.len() ==> (#[trigger] s[i]).hash == media_hash(s[i].media))
}

/// The unique index on the content hash: no two documents share one.
pub open spec fn unique_hashes(s: Seq<StoredDocView>) -> bool {
    forall|i: int, j: int| 0 <= i < j < s.len() ==> s[i].hash != s[j].hash
}

/// Store well-formedness: both unique indexes of the collection — on the
/// identity key and on the content hash — together with the hash
/// coupling every write establishes.
pub open spec fn docs_wf(s: Seq<StoredDocView>) -> bool {
    ids_wf(s) && unique_hashes(s)
}

/// Whether writing a record with id `id` and content hash `h` would
/// violate the unique hash index: some document under another id already
/// carries that hash.
pub open spec fn hash_conflict(s: Seq<StoredDocView>, id: u64, h: u64) -> bool {
    exists|i: int| 0 <= i < s.len() && s[i].media.media_id != Some(id) && s[i].hash == h
}

/// Whether a whole batch writes cleanly: no step of the fold runs into
/// the unique hash index.
pub open spec fn batch_ok(s: Seq<StoredDocView>, rs: Seq<MediaView>, t: u64) -> bool
    decreases rs.len(),
{
    if rs.len() == 0 {
        true
    } else {
        &&& !hash_conflict(s, rs[0].media_id.unwrap(), media_hash(rs[0]))
        &&& batch_ok(spec_upsert_one(s, rs[0], t), rs.drop_first(), t)
    }
}

/// Everything one upsert does to a well-formed store.
pub proof fn lemma_upsert_one_shape(s: Seq<StoredDocView>, m: MediaView, now: u64)
    requires
        ids_wf(s),
        m.media_id is Some,
    ensures
        ({
            let r = spec_upsert_one(s, m, now);
            let id = m.media_id.unwrap();
            &&& ids_wf(r)
            &&& (unique_hashes(s) && !hash_conflict(s, id, media_hash(m)) ==> unique_hashes(r))
            &&& s.len() <= r.len()
            &&& (has_doc(s, id) ==> r.len() == s.len())
            &&& (!has_doc(s, id) ==> r.len() == s.len() + 1)
            &&& (forall|i: int|
                0 <= i < s.len() ==> (#[trigger] r[i]).media.media_id == s[i].media.media_id)
            &&& (forall|i: int|
                0 <= i < r.len() && (#[trigger] r[i]).media.media_id == Some(id) ==> r[i]
                    == stored_doc(m, now))
            &&& (forall|i: int|
                0 <= i < s.len() && (#[trigger] s[i]).media.media_id != Some(id) ==> r[i] == s[i])
            &&& has_doc(r, id)
            &&& (forall|id2: u64| has_doc(s, id2) ==> has_doc(r, id2))
            &&& (forall|i: int|
                s.len() <= i < r.len() ==> (#[trigger] r[i]).media.media_id == Some(id))
        }),
{
    let r = spec_upsert_one(s, m, now);
    let id = m.media_id.unwrap();
    if has_doc(s, id) {
        lemma_doc_index_props(s, id);
        let di = doc_index(s, id);
        assert(forall|i: int|
            0 <= i < s.len() && i != di ==> (#[trigger] s[i]).media.media_id != Some(id));
        assert(r[di] == stored_doc(m, now));
        assert(forall|id2: u64|
            has_doc(s, id2) ==> has_doc(r, id2)) by {
            assert forall|id2: u64| has_doc(s, id2) implies has_doc(r, id2) by {
                let w = choose|w: int| 0 <= w < s.len() && s[w].media.media_id == Some(id2);
                if w == di {
                    assert(r[di].media.media_id == Some(id));
                } else {
                    assert(r[w] == s[w]);
                }
            }
        }
    } else {
        assert(r[s.len() as int] == stored_doc(m, now));
        assert(forall|i: int| 0 <= i < s.len() ==> r[i] == s[i]);
        assert forall|id2: u64| has_doc(s, id2) implies has_doc(r, id2) by {
            let w = choose|w: int| 0 <= w < s.len() && s[w].media.media_id == Some(id2);
            assert(r[w] == s[w]);
        }
        assert forall|i: int, j: int| 0 <= i < j < r.len() implies r[i].media.media_id
            != r[j].media.media_id by {
            if j == s.len() as int {
                assert(r[i] == s[i]);
                assert(!(s[i].media.media_id == Some(id)));
            }
        }
    }
    if unique_hashes(s) && !hash_conflict(s, id, media_hash(m)) {
        assert forall|i: int, j: int| 0 <= i < j < r.len() implies r[i].hash != r[j].hash by {
            if has_doc(s, id) {
                lemma_doc_index_props(s, id);
                let di = doc_index(s, id);
                if i == di {
                    assert(r[j] == s[j]);
                    assert(s[j].media.media_id != Some(id));
                    assert(!(s[j].hash == media_hash(m)));
                } else if j == di {
                    assert(r[i] == s[i]);
                    assert(s[i].media.media_id != Some(id));
                    assert(!(s[i].hash == media_hash(m)));
                } else {
                    assert(r[i] == s[i] && r[j] == s[j]);
                }
            } else {
                if j == s.len() as int {
                    assert(r[i] == s[i]);
                    assert(s[i].media.media_id != Some(id));
                    assert(!(s[i].hash == media_hash(m)));
                } else {
                    assert(r[i] == s[i] && r[j] == s[j]);
                }
            }
        }
    }
}

/// What survives the batch for an id does not depend on the batch head,
/// unless the head is its only carrier.
pub proof fn lemma_last_record_step(rs: Seq<MediaView>, id: u64)
    requires
        rs.len() > 0,
    ensures
        rs_has_id(rs.drop_first(), id) ==> last_record(rs, id) == last_record(
            rs.drop_first(),
            id,
        ),
        !rs_has_id(rs.drop_first(), id) && rs[0].media_id == Some(id) ==> last_record(rs, id)
            == rs[0],
{
}

/// Everything a whole batch upsert does to a well-formed store: ids
/// already stored keep their position; the id of every batch record ends
/// up stored, holding the batch's last write for that id; documents whose
/// id the batch never names are untouched; and nothing is appended unless
/// its id comes from the batch.
pub proof fn lemma_upsert_all_shape(u: Seq<StoredDocView>, rs: Seq<MediaView>, t: u64)
    requires
        ids_wf(u),
        all_have_ids(rs),
    ensures
        ({
            let r = spec_upsert_all(u, rs, t);
            &&& ids_wf(r)
            &&& (unique_hashes(u) && batch_ok(u, rs, t) ==> unique_hashes(r))
            &&& u.len() <= r.len()
            &&& (forall|i: int|
                0 <= i < u.len() ==> (#[trigger] r[i]).media.media_id == u[i].media.media_id)
            &&& (forall|i: int|
                0 <= i < r.len() && #[trigger] rs_has_id(rs, r[i].media.media_id.unwrap())
                    ==> r[i].media == last_record(rs, r[i].media.media_id.unwrap()))
            &&& (forall|i: int|
                0 <= i < u.len() && !(#[trigger] rs_has_id(rs, u[i].media.media_id.unwrap()))
                    ==> r[i] == u[i])
            &&& (forall|id: u64| #[trigger] rs_has_id(rs, id) ==> has_doc(r, id))
            &&& (forall|id: u64| #[trigger] has_doc(u, id) ==> has_doc(r, id))
            &&& ((forall|id: u64| #[trigger] rs_has_id(rs, id) ==> has_doc(u, id)) ==> r.len()
                == u.len())
            &&& (forall|i: int|
                u.len() <= i < r.len() ==> rs_has_id(
                    rs,
                    (#[trigger] r[i]).media.media_id.unwrap(),
                ))
        }),
    decreases rs.len(),
{
    let r = spec_upsert_all(u, rs, t);
    if rs.len() == 0 {
    } else {
        let m0 = rs[0];
        let id0 = m0.media_id.unwrap();
        let u1 = spec_upsert_one(u, m0, t);
        let rest = rs.drop_first();
        lemma_upsert_one_shape(u, m0, t);
        lemma_upsert_all_shape(u1, rest, t);
        assert(r == spec_upsert_all(u1, rest, t));
        assert(rs_has_id(rs, id0)) by {
            assert(rs[0].media_id == Some(id0));
        }
        assert forall|id: u64| #[trigger] rs_has_id(rest, id) implies rs_has_id(rs, id) by {
            let j = choose|j: int| 0 <= j < rest.len() && rest[j].media_id == Some(id);
            assert(rs[j + 1] == rest[j]);
        }
        assert forall|id: u64| #[trigger] rs_has_id(rs, id) && id != id0 implies rs_has_id(
            rest,
            id,
        ) by {
            let j = choose|j: int| 0 <= j < rs.len() && rs[j].media_id == Some(id);
            assert(j != 0);
            assert(rest[j - 1] == rs[j]);
        }

        // A clean batch keeps the hash index unique, step by step.
        if unique_hashes(u) && batch_ok(u, rs, t) {
            assert(!hash_conflict(u, id0, media_hash(m0)));
            assert(unique_hashes(u1));
            assert(batch_ok(u1, rest, t));
        }

        // Ids already stored keep their position.
        assert forall|i: int| 0 <= i < u.len() implies (#[trigger] r[i]).media.media_id
            == u[i].media.media_id by {
            assert(r[i].media.media_id == u1[i].media.media_id);
        }

        // Every stored id named by the batch holds the batch's last write.
        assert forall|i: int|
            0 <= i < r.len() && #[trigger] rs_has_id(rs, r[i].media.media_id.unwrap()) implies r[i].media
            == last_record(rs, r[i].media.media_id.unwrap()) by {
            let id = r[i].media.media_id.unwrap();
            lemma_last_record_step(rs, id);
            if rs_has_id(rest, id) {
            } else {
                assert(id == id0);
                assert(last_record(rs, id0) == m0);
                if i < u1.len() {
                    assert(r[i] == u1[i]);
                    assert(u1[i].media.media_id == r[i].media.media_id);
                    assert(u1[i] == stored_doc(m0, t));
                } else {
                    assert(rs_has_id(rest, r[i].media.media_id.unwrap()));
                }
            }
        }

        // Documents whose id the batch never names are untouched.
        assert forall|i: int|
            0 <= i < u.len() && !(#[trigger] rs_has_id(rs, u[i].media.media_id.unwrap())) implies r[i]
            == u[i] by {
            let id = u[i].media.media_id.unwrap();
            assert(id != id0);
            assert(u[i].media.media_id != Some(id0));
            assert(u1[i] == u[i]);
            assert(!rs_has_id(rest, id));
            assert(u1[i].media.media_id.unwrap() == id);
            assert(r[i] == u1[i]);
        }

        // The id of every batch record ends up stored.
        assert forall|id: u64| #[trigger] rs_has_id(rs, id) implies has_doc(r, id) by {
            if rs_has_id(rest, id) {
            } else {
                assert(id == id0);
                assert(has_doc(u1, id0));
            }
        }

        // When every batch id is already stored, nothing is appended.
        if forall|id: u64| #[trigger] rs_has_id(rs, id) ==> has_doc(u, id) {
            assert(has_doc(u, id0));
            assert(u1.len() == u.len());
            assert forall|id: u64| #[trigger] rs_has_id(rest, id) implies has_doc(u1, id) by {
                assert(rs_has_id(rs, id));
                assert(has_doc(u, id));
            }
            assert(r.len() == u1.len());
        }

        // Appended documents carry batch ids.
        assert forall|i: int| u.len() <= i < r.len() implies rs_has_id(
            rs,
            (#[trigger] r[i]).media.media_id.unwrap(),
        ) by {
            if i < u1.len() {
                assert(r[i].media.media_id == u1[i].media.media_id);
                assert(u1[i].media.media_id == Some(id0));
            } else {
                assert(rs_has_id(rest, r[i].media.media_id.unwrap()));
            }
        }
    }
}

/// The idempotent-upsert law: writing one batch twice leaves, document
/// for document, the records and content hashes of the first write; only
/// the modification stamps move. Together with store well-formedness and
/// the shape lemma this pins the store after a double upsert to exactly
/// one document per distinct batch id.
pub proof fn lemma_upsert_idempotent(
    s: Seq<StoredDocView>,
    rs: Seq<MediaView>,
    t1: u64,
    t2: u64,
)
    requires
        docs_wf(s),
        all_have_ids(rs),
    ensures
        ({
            let s1 = spec_upsert_all(s, rs, t1);
            let s2 = spec_upsert_all(s1, rs, t2);
            &&& s2.len() == s1.len()
            &&& (forall|i: int|
                0 <= i < s1.len() ==> (#[trigger] s2[i]).media == s1[i].media && s2[i].hash
                    == s1[i].hash)
        }),
{
    let s1 = spec_upsert_all(s, rs, t1);
    let s2 = spec_upsert_all(s1, rs, t2);
    lemma_upsert_all_shape(s, rs, t1);
    lemma_upsert_all_shape(s1, rs, t2);
    assert(s2.len() == s1.len());
    assert forall|i: int| 0 <= i < s1.len() implies (#[trigger] s2[i]).media == s1[i].media
        && s2[i].hash == s1[i].hash by {
        let id = s1[i].media.media_id.unwrap();
        if rs_has_id(rs, id) {
            assert(s2[i].media.media_id == s1[i].media.media_id);
            assert(s2[i].media == last_record(rs, id));
            assert(s1[i].media == last_record(rs, id));
            assert(s2[i].hash == media_hash(s2[i].media));
            assert(s1[i].hash == media_hash(s1[i].media));
        } else {
            assert(s2[i] == s1[i]);
        }
    }
}

/// Upserting into an empty store yields a document for exactly the
/// distinct ids of the batch: every batch id is stored, under unique ids,
/// and nothing else is.
pub proof fn lemma_upsert_from_empty(rs: Seq<MediaView>, t: u64)
    requires
        all_have_ids(rs),
    ensures
        ({
            let s1 = spec_upsert_all(Seq::<StoredDocView>::empty(), rs, t);
            &&& ids_wf(s1)
            &&& (batch_ok(Seq::<StoredDocView>::empty(), rs, t) ==> unique_hashes(s1))
            &&& (forall|id: u64| #[trigger] rs_has_id(rs, id) <==> has_doc(s1, id))
        }),
{
    let s1 = spec_upsert_all(Seq::<StoredDocView>::empty(), rs, t);
    lemma_upsert_all_shape(Seq::<StoredDocView>::empty(), rs, t);
    assert forall|id: u64| #[trigger] has_doc(s1, id) implies rs_has_id(rs, id) by {
        let i = choose|i: int| 0 <= i < s1.len() && s1[i].media.media_id == Some(id);
        assert(rs_has_id(rs, s1[i].media.media_id.unwrap()));
    }
}

/// Upserting one more record continues the fold.
#[verifier::rlimit(100)]
pub proof fn lemma_upsert_all_take_step(
    s: Seq<StoredDocView>,
    rs: Seq<MediaView>,
    t: u64,
    j: int,
)
    requires
        0 <= j < rs.len(),
    ensures
        spec_upsert_all(s, rs.take(j + 1), t) == spec_upsert_one(
            spec_upsert_all(s, rs.take(j), t),
            rs[j],
            t,
        ),
    decreases j,
{
    if j == 0 {
        assert(rs.take(1) =~= seq![rs[0]]);
        assert(rs.take(1)[0] == rs[0]);
        assert(rs.take(1).drop_first() =~= Seq::<MediaView>::empty());
        assert(rs.take(0) =~= Seq::<MediaView>::empty());
        assert(spec_upsert_all(s, rs.take(0), t) == s);
        assert(spec_upsert_all(spec_upsert_one(s, rs[0], t), Seq::<MediaView>::empty(), t)
            == spec_upsert_one(s, rs[0], t));
    } else {
        let s1 = spec_upsert_one(s, rs[0], t);
        assert(rs.take(j + 1)[0] == rs[0]);
        assert(rs.take(j)[0] == rs[0]);
        assert(rs.take(j + 1).drop_first() =~= rs.drop_first().take(j));
        assert(rs.take(j).drop_first() =~= rs.drop_first().take(j - 1));
        assert(rs.drop_first()[j - 1] == rs[j]);
        lemma_upsert_all_take_step(s1, rs.drop_first(), t, j - 1);
    }
}

/// Two stores that hold the same documents, their modification stamps
/// aside.
pub open spec fn same_docs(a: Seq<StoredDocView>, b: Seq<StoredDocView>) -> bool {
    a.len() == b.len() && forall|i: int|
        0 <= i < a.len() ==> (#[trigger] b[i]).media == a[i].media && b[i].hash == a[i].hash
}

/// Stores with the same ids position for position index alike.
proof fn lemma_doc_index_same_ids(a: Seq<StoredDocView>, b: Seq<StoredDocView>, id: u64)
    requires
        a.len() == b.len(),
        forall|i: int| 0 <= i < a.len() ==> (#[trigger] a[i]).media.media_id == b[i].media.media_id,
    ensures
        has_doc(a, id) == has_doc(b, id),
        doc_index(a, id) == doc_index(b, id),
    decreases a.len(),
{
    if a.len() > 0 {
        assert(forall|i: int|
            0 <= i < a.len() - 1 ==> (#[trigger] a.drop_first()[i]).media.media_id == a[i + 1]
                .media.media_id && b.drop_first()[i].media.media_id == b[i + 1].media.media_id);
        lemma_doc_index_same_ids(a.drop_first(), b.drop_first(), id);
        if has_doc(a, id) {
            let w = choose|w: int| 0 <= w < a.len() && a[w].media.media_id == Some(id);
            assert(a[w].media.media_id == b[w].media.media_id);
            assert(has_doc(b, id));
        }
        if has_doc(b, id) {
            let w = choose|w: int| 0 <= w < b.len() && b[w].media.media_id == Some(id);
            assert(a[w].media.media_id == b[w].media.media_id);
            assert(has_doc(a, id));
        }
    }
}

/// In a batch of pairwise distinct ids, each record is the surviving
/// write for its own id.
proof fn lemma_last_record_unique(rs: Seq<MediaView>, k: int)
    requires
        all_have_ids(rs),
        forall|i: int, j: int|
            0 <= i < j < rs.len() ==> (#[trigger] rs[i]).media_id != (#[trigger] rs[j]).media_id,
        0 <= k < rs.len(),
    ensures
        last_record(rs, rs[k].media_id.unwrap()) == rs[k],
    decreases rs.len(),
{
    let id = rs[k].media_id.unwrap();
    if k == 0 {
        assert(!rs_has_id(rs.drop_first(), id)) by {
            if rs_has_id(rs.drop_first(), id) {
                let j = choose|j: int|
                    0 <= j < rs.drop_first().len() && rs.drop_first()[j].media_id == Some(id);
                assert(rs[j + 1] == rs.drop_first()[j]);
                assert(rs[0].media_id == rs[j + 1].media_id);
            }
        }
    } else {
        assert(rs_has_id(rs.drop_first(), id)) by {
            assert(rs.drop_first()[k - 1] == rs[k]);
        }
        assert(forall|i: int|
            0 <= i < rs.len() - 1 ==> (#[trigger] rs.drop_first()[i]) == rs[i + 1]);
        lemma_last_record_unique(rs.drop_first(), k - 1);
    }
}

/// A batch writes cleanly against any store that already holds, for each
/// batch record, that very record under its id — the second run only
/// rewrites documents with what they hold.
proof fn lemma_rerun_batch_ok_aux(
    s1: Seq<StoredDocView>,
    u: Seq<StoredDocView>,
    rs: Seq<MediaView>,
    t2: u64,
)
    requires
        docs_wf(s1),
        ids_wf(u),
        same_docs(s1, u),
        all_have_ids(rs),
        forall|k: int|
            0 <= k < rs.len() ==> has_doc(u, (#[trigger] rs[k]).media_id.unwrap()) && u[doc_index(
                u,
                rs[k].media_id.unwrap(),
            )].media == rs[k],
    ensures
        batch_ok(u, rs, t2),
    decreases rs.len(),
{
    if rs.len() > 0 {
        let m0 = rs[0];
        let id0 = m0.media_id.unwrap();
        lemma_doc_index_props(u, id0);
        let di = doc_index(u, id0);
        assert(u[di].media == m0);
        assert(u[di].hash == media_hash(m0));
        assert(!hash_conflict(u, id0, media_hash(m0))) by {
            if hash_conflict(u, id0, media_hash(m0)) {
                let w = choose|w: int|
                    0 <= w < u.len() && u[w].media.media_id != Some(id0) && u[w].hash
                        == media_hash(m0);
                assert(w != di);
                assert(s1[w].hash == s1[di].hash);
            }
        }
        let u1 = spec_upsert_one(u, m0, t2);
        lemma_upsert_one_shape(u, m0, t2);
        assert(u1.len() == u.len());
        assert(same_docs(s1, u1)) by {
            assert forall|i: int|
                0 <= i < s1.len() implies (#[trigger] u1[i]).media == s1[i].media && u1[i].hash
                == s1[i].hash by {
                if u[i].media.media_id == Some(id0) {
                    assert(i == di);
                    assert(u1[i] == stored_doc(m0, t2));
                } else {
                    assert(u1[i] == u[i]);
                }
            }
        }
        let rest = rs.drop_first();
        assert(forall|i: int| 0 <= i < rest.len() ==> (#[trigger] rest[i]) == rs[i + 1]);
        assert forall|k: int|
            0 <= k < rest.len() implies has_doc(u1, (#[trigger] rest[k]).media_id.unwrap())
            && u1[doc_index(u1, rest[k].media_id.unwrap())].media == rest[k] by {
            let id = rest[k].media_id.unwrap();
            lemma_doc_index_same_ids(u, u1, id);
            assert(has_doc(u, id));
            let idx = doc_index(u, id);
            lemma_doc_index_props(u, id);
            if idx == di {
                assert(u[di].media == rest[k]);
                assert(rest[k] == m0);
                assert(u1[di] == stored_doc(m0, t2));
            } else {
                assert(u[idx].media.media_id != Some(id0));
                assert(u1[idx] == u[idx]);
            }
        }
        lemma_rerun_batch_ok_aux(s1, u1, rest, t2);
    }
}

/// Re-running a batch of pairwise distinct ids against the store its
/// first run left cannot hit the unique hash index: together with the
/// idempotence law, the double upsert succeeds and changes nothing but
/// the modification stamps.
pub proof fn lemma_rerun_batch_ok(s: Seq<StoredDocView>, rs: Seq<MediaView>, t1: u64, t2: u64)
    requires
        docs_wf(s),
        all_have_ids(rs),
        batch_ok(s, rs, t1),
        forall|i: int, j: int|
            0 <= i < j < rs.len() ==> (#[trigger] rs[i]).media_id != (#[trigger] rs[j]).media_id,
    ensures
        batch_ok(spec_upsert_all(s, rs, t1), rs, t2),
{
    let s1 = spec_upsert_all(s, rs, t1);
    lemma_upsert_all_shape(s, rs, t1);
    assert(docs_wf(s1));
    assert forall|k: int|
        0 <= k < rs.len() implies has_doc(s1, (#[trigger] rs[k]).media_id.unwrap()) && s1[doc_index(
        s1,
        rs[k].media_id.unwrap(),
    )].media == rs[k] by {
        let id = rs[k].media_id.unwrap();
        assert(rs_has_id(rs, id)) by {
            assert(rs[k].media_id == Some(id));
        }
        assert(has_doc(s1, id));
        lemma_doc_index_props(s1, id);
        let idx = doc_index(s1, id);
        assert(rs_has_id(rs, s1[idx].media.media_id.unwrap()));
        assert(s1[idx].media == last_record(rs, id));
        lemma_last_record_unique(rs, k);
    }
    lemma_rerun_batch_ok_aux(s1, s1, rs, t2);
}

/// A clean batch stays clean on every prefix.
#[verifier::rlimit(100)]
pub proof fn lemma_batch_ok_prefix(s: Seq<StoredDocView>, rs: Seq<MediaView>, t: u64, j: int)
    requires
        0 <= j <= rs.len(),
        batch_ok(s, rs, t),
    ensures
        batch_ok(s, rs.take(j), t),
    decreases rs.len(),
{
    if j == 0 {
        assert(rs.take(0) =~= Seq::<MediaView>::empty());
    } else {
        let s1 = spec_upsert_one(s, rs[0], t);
        assert(rs.take(j)[0] == rs[0]);
        assert(rs.take(j).drop_first() =~= rs.drop_first().take(j - 1));
        lemma_batch_ok_prefix(s1, rs.drop_first(), t, j - 1);
    }
}

/// One more record extends a clean prefix exactly when its write is
/// conflict-free against the state the prefix left behind.
#[verifier::rlimit(100)]
pub proof fn lemma_batch_ok_take_step(s: Seq<StoredDocView>, rs: Seq<MediaView>, t: u64, j: int)
    requires
        0 <= j < rs.len(),
    ensures
        batch_ok(s, rs.take(j + 1), t) == (batch_ok(s, rs.take(j), t) && !hash_conflict(
            spec_upsert_all(s, rs.take(j), t),
            rs[j].media_id.unwrap(),
            media_hash(rs[j]),
        )),
    decreases j,
{
    if j == 0 {
        assert(rs.take(1) =~= seq![rs[0]]);
        assert(rs.take(1)[0] == rs[0]);
        assert(rs.take(1).drop_first() =~= Seq::<MediaView>::empty());
        assert(rs.take(0) =~= Seq::<MediaView>::empty());
        assert(spec_upsert_all(s, rs.take(0), t) == s);
        assert(batch_ok(spec_upsert_one(s, rs[0], t), Seq::<MediaView>::empty(), t));
    } else {
        let s1 = spec_upsert_one(s, rs[0], t);
        assert(rs.take(j + 1)[0] == rs[0]);
        assert(rs.take(j)[0] == rs[0]);
        assert(rs.take(j + 1).drop_first() =~= rs.drop_first().take(j));
        assert(rs.take(j).drop_first() =~= rs.drop_first().take(j - 1));
        assert(rs.drop_first()[j - 1] == rs[j]);
        lemma_batch_ok_take_step(s1, rs.drop_first(), t, j - 1);
        lemma_upsert_all_take_step(s, rs, t, j);
        assert(spec_upsert_all(s, rs.take(j), t) == spec_upsert_all(
            s1,
            rs.drop_first().take(j - 1),
            t,
        ));
    }
}

/// What a successful batch upsert guarantees: every record carried its
/// id, no write hit the unique hash index, and the store holds the fold
/// of the whole batch.
pub open spec fn upsert_ok(
    s_old: Seq<StoredDocView>,
    rs: Seq<MediaView>,
    now: u64,
    s_new: Seq<StoredDocView>,
) -> bool {
    &&& all_have_ids(rs)
    &&& batch_ok(s_old, rs, now)
    &&& s_new == spec_upsert_all(s_old, rs, now)
}

/// What a failed batch upsert leaves behind: a batch with a record
/// missing its id fails before anything is written; a write that runs
/// into the unique hash index fails the batch fast, the writes before it
/// staying committed, each being independently transactional.
pub open spec fn upsert_failed(
    s_old: Seq<StoredDocView>,
    rs: Seq<MediaView>,
    now: u64,
    msg: Seq<char>,
    s_new: Seq<StoredDocView>,
) -> bool {
    ||| (!all_have_ids(rs) && s_new == s_old && msg == "Could not find media_id."@)
    ||| (all_have_ids(rs) && !batch_ok(s_old, rs, now) && msg == "Duplicate content hash."@
        && exists|k: int|
        0 <= k < rs.len() && batch_ok(s_old, rs.take(k), now) && s_new == spec_upsert_all(
            s_old,
            rs.take(k),
            now,
        ))
}

/// One document collection of the store, with unique indexes on the
/// identity key and on the content hash.
pub struct Collection {
    docs: Vec<StoredDocument>,
}

impl View for Collection {
    type V = Seq<StoredDocView>;

    closed spec fn view(&self) -> Seq<StoredDocView> {
        self.docs.deep_view()
    }
}

impl Collection {
    /// The uniqueness the store's indexes enforce, together with the hash
    /// coupling every write establishes.
    pub open spec fn wf(&self) -> bool {
        docs_wf(self@)
    }

    pub fn new() -> (c: Collection)
        ensures
            c@ == Seq::<StoredDocView>::empty(),
            c.wf(),
    {
        let c = Collection { docs: Vec::new() };
        proof {
            assert(c@ =~= Seq::<StoredDocView>::empty());
        }
        c
    }

    pub fn len(&self) -> (n: usize)
        ensures
            n == self@.len(),
    {
        self.docs.len()
    }

    pub fn doc_at(&self, i: usize) -> (d: &StoredDocument)
        requires
            i < self@.len(),
        ensures
            d.deep_view() == self@[i as int],
    {
        &self.docs[i]
    }

    /// Index of the document under `id`, if the id is stored.
    fn find_index(&self, id: u64) -> (r: Option<usize>)
        ensures
            match r {
                Some(i) => has_doc(self@, id) && doc_index(self@, id) == i as int && i
                    < self@.len(),
                None => !has_doc(self@, id),
            },
    {
        let n = self.docs.len();
        let mut i: usize = 0;
        while i < n
            invariant
                n == self@.len(),
                0 <= i <= n,
                forall|j: int| 0 <= j < i ==> (#[trigger] self@[j]).media.media_id != Some(id),
            decreases n - i,
        {
            let matches_id = match &self.docs[i].media.media_id {
                Some(d) => *d == id,
                None => false,
            };
            if matches_id {
                proof {
                    lemma_doc_index_first(self@, id, i as int);
                }
                return Some(i);
            }
            i = i + 1;
        }
        None
    }

    /// Whether a write under `id` with content hash `h` would hit the
    /// unique hash index.
    fn has_hash_conflict(&self, id: u64, h: u64) -> (r: bool)
        ensures
            r == hash_conflict(self@, id, h),
    {
        let n = self.docs.len();
        let mut i: usize = 0;
        while i < n
            invariant
                n == self@.len(),
                0 <= i <= n,
                forall|j: int|
                    0 <= j < i ==> !((#[trigger] self@[j]).media.media_id != Some(id)
                        && self@[j].hash == h),
            decreases n - i,
        {
            let other_id = match &self.docs[i].media.media_id {
                Some(d) => *d != id,
                None => true,
            };
            if other_id && self.docs[i].hash == h {
                proof {
                    assert(self@[i as int].media.media_id != Some(id) && self@[i as int].hash
                        == h);
                }
                return true;
            }
            i = i + 1;
        }
        false
    }

    /// Content-hash idempotent upsert of a whole batch: one write per
    /// record, keyed by `media_id`. A record without an id fails the
    /// whole call before anything is written; a write that would
    /// duplicate a stored content hash under another id fails it there.
    pub fn upsert_documents(&mut self, documents: &Vec<Media>, now: u64) -> (r: Result<
        (),
        AggregatorError,
    >)
        requires
            old(self).wf(),
        ensures
            final(self).wf(),
            match r {
                Ok(_) => upsert_ok(old(self)@, documents.deep_view(), now, final(self)@),
                Err(e) => upsert_failed(
                    old(self)@,
                    documents.deep_view(),
                    now,
                    e.message_spec(),
                    final(self)@,
                ),
            },
    {
        let n = documents.len();
        let mut j: usize = 0;
        while j < n
            invariant
                n == documents@.len(),
                0 <= j <= n,
                self@ == old(self)@,
                docs_wf(self@),
                forall|i: int| 0 <= i < j ==> (#[trigger] documents.deep_view()[i]).media_id is Some,
            decreases n - j,
        {
            if documents[j].media_id.is_none() {
                proof {
                    assert(!((documents.deep_view()[j as int]).media_id is Some));
                }
                return Err(AggregatorError::new("Could not find media_id."));
            }
            j = j + 1;
        }
        let ghost rs = documents.deep_view();
        let ghost before = self@;
        let mut j: usize = 0;
        while j < n
            invariant
                n == documents@.len(),
                rs == documents.deep_view(),
                rs.len() == n,
                all_have_ids(rs),
                before == old(self)@,
                docs_wf(before),
                0 <= j <= n,
                self@ == spec_upsert_all(before, rs.take(j as int), now),
                batch_ok(before, rs.take(j as int), now),
                docs_wf(self@),
            decreases n - j,
        {
            let record = &documents[j];
            let id = match record.media_id {
                Some(id) => id,
                None => {
                    proof {
                        assert(rs[j as int].media_id is Some);
                    }
                    return Err(AggregatorError::new("Could not find media_id."));
                },
            };
            let hash = hash_document(record);
            if self.has_hash_conflict(id, hash) {
                proof {
                    lemma_batch_ok_take_step(before, rs, now, j as int);
                    if batch_ok(before, rs, now) {
                        lemma_batch_ok_prefix(before, rs, now, j + 1);
                    }
                    assert(!batch_ok(before, rs, now));
                    assert(batch_ok(before, rs.take(j as int), now) && self@ == spec_upsert_all(
                        before,
                        rs.take(j as int),
                        now,
                    ));
                }
                return Err(AggregatorError::new("Duplicate content hash."));
            }
            let doc = StoredDocument { media: record.clone(), hash, modified: now };
            proof {
                assert(doc.deep_view() == stored_doc(rs[j as int], now));
            }
            let ghost mid = self@;
            match self.find_index(id) {
                Some(i) => {
                    self.docs.set(i, doc);
                    proof {
                        assert(self@ =~= mid.update(doc_index(mid, id), stored_doc(
                            rs[j as int],
                            now,
                        )));
                    }
                },
                None => {
                    self.docs.push(doc);
                    proof {
                        assert(self@ =~= mid.push(stored_doc(rs[j as int], now)));
                    }
                },
            }
            proof {
                assert(self@ == spec_upsert_one(mid, rs[j as int], now));
                lemma_upsert_all_take_step(before, rs, now, j as int);
                lemma_batch_ok_take_step(before, rs, now, j as int);
                lemma_upsert_one_shape(mid, rs[j as int], now);
            }
            j = j + 1;
        }
        proof {
            assert(rs.take(n as int) == rs);
        }
        Ok(())
    }
}

/// The document store of one deployment, with the collections the
/// pipeline touches: the two record collections, each with unique
/// indexes on `media_id` and on the content hash; the tracked users,
/// unique on `id`; and the alternate-title registry, unique on
/// `media_id`.
pub struct DocumentStore {
    pub anime: Collection,
    pub manga: Collection,
    pub users: IdMap<User>,
    pub alt_titles: IdMap<AltTitlesEntry>,
}

impl DocumentStore {
    pub open spec fn wf(&self) -> bool {
        self.anime.wf() && self.manga.wf() && self.users.wf() && self.alt_titles.wf()
    }

    /// An empty store with every uniqueness constraint in place before
    /// the first write.
    pub fn init() -> (s: DocumentStore)
        ensures
            s.anime@ == Seq::<StoredDocView>::empty(),
            s.manga@ == Seq::<StoredDocView>::empty(),
            s.users@ == Seq::<(u64, UserView)>::empty(),
            s.alt_titles@ == Seq::<(u64, AltTitlesView)>::empty(),
            s.wf(),
    {
        DocumentStore {
            anime: Collection::new(),
            manga: Collection::new(),
            users: IdMap::new(),
            alt_titles: IdMap::new(),
        }
    }
}

} // verus!
