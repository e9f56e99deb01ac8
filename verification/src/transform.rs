use vstd::prelude::*;

use crate::extra_map::{has_key, key_index, lemma_key_index_props, value_of, ExtraMap};
use crate::media::{spec_is_current, Media, MediaView};
use crate::similarity::{
    clears_threshold, exceeds_threshold, fraction_gt, score_gt, score_parts, sim_den, sim_num,
};

verus! {

/// The best fuzzy candidate seen so far: the entry index and the score as
/// an exact fraction.
pub struct FuzzyBest {
    pub idx: int,
    pub num: int,
    pub den: int,
}

/// One candidate score folded into the running best: it wins when it lies
/// strictly above the threshold and strictly above the best so far.
pub open spec fn consider(best: Option<FuzzyBest>, idx: int, num: int, den: int, t: int) -> Option<
    FuzzyBest,
> {
    let better = match best {
        None => true,
        Some(b) => score_gt(num, den, b.num, b.den),
    };
    if 1000 * num > t * den && better {
        Some(FuzzyBest { idx, num, den })
    } else {
        best
    }
}

/// The running best over the first `n` keys, scoring each key against the
/// record's title and then against its English title.
pub open spec fn fuzzy_scan(
    keys: Seq<Seq<char>>,
    title: Seq<char>,
    english: Seq<char>,
    t: int,
    n: int,
) -> Option<FuzzyBest>
    decreases n,
{
    if n <= 0 {
        None
    } else {
        let prev = fuzzy_scan(keys, title, english, t, n - 1);
        let k = keys[n - 1];
        let after_title = consider(prev, n - 1, sim_num(title, k), sim_den(title, k), t);
        consider(after_title, n - 1, sim_num(english, k), sim_den(english, k), t)
    }
}

/// Index of the entry the fuzzy fallback picks, if any key clears the
/// threshold.
pub open spec fn fuzzy_choice(
    keys: Seq<Seq<char>>,
    title: Seq<char>,
    english: Seq<char>,
    t: int,
) -> Option<int> {
    match fuzzy_scan(keys, title, english, t, keys.len() as int) {
        Some(b) => Some(b.idx),
        None => None,
    }
}

/// The fuzzy fallback only ever picks an index of the key list.
pub proof fn lemma_fuzzy_scan_in_range(
    keys: Seq<Seq<char>>,
    title: Seq<char>,
    english: Seq<char>,
    t: int,
    n: int,
)
    requires
        n <= keys.len(),
    ensures
        match fuzzy_scan(keys, title, english, t, n) {
            Some(b) => 0 <= b.idx < keys.len(),
            None => true,
        },
    decreases n,
{
    if n > 0 {
        lemma_fuzzy_scan_in_range(keys, title, english, t, n - 1);
    }
}

/// A record's searchable form of an optional title: the empty string when
/// the field is unset.
pub open spec fn opt_title(s: Option<Seq<char>>) -> Seq<char> {
    match s {
        Some(t) => t,
        None => Seq::<char>::empty(),
    }
}

/// The aliases of a record, in registry order; empty when no
/// alternate-titles record has been linked yet.
pub open spec fn alt_title_list(m: MediaView) -> Seq<Seq<char>> {
    match m.alt_titles {
        Some(a) => a.alt_titles,
        None => Seq::<Seq<char>>::empty(),
    }
}

/// The first alias that is an exact key of the extras, in alias order.
pub open spec fn first_alias_key<V>(
    alts: Seq<Seq<char>>,
    entries: Seq<(Seq<char>, V)>,
) -> Option<Seq<char>>
    decreases alts.len(),
{
    if alts.len() == 0 {
        None
    } else if has_key(entries, alts[0]) {
        Some(alts[0])
    } else {
        first_alias_key(alts.drop_first(), entries)
    }
}

/// When the aliases before `j` miss and the alias at `j` hits, the alias
/// scan picks exactly the alias at `j`.
pub proof fn lemma_first_alias_key_at<V>(
    alts: Seq<Seq<char>>,
    entries: Seq<(Seq<char>, V)>,
    j: int,
)
    requires
        0 <= j < alts.len(),
        has_key(entries, alts[j]),
        forall|j2: int| 0 <= j2 < j ==> !has_key(entries, alts[j2]),
    ensures
        first_alias_key(alts, entries) == Some(alts[j]),
    decreases j,
{
    if j > 0 {
        assert(alts.drop_first()[j - 1] == alts[j]);
        assert(forall|j2: int|
            0 <= j2 < j - 1 ==> alts.drop_first()[j2] == alts[j2 + 1]
                && !has_key(entries, alts[j2 + 1]));
        lemma_first_alias_key_at(alts.drop_first(), entries, j - 1);
    }
}

/// When no alias is a key, the alias scan finds nothing.
pub proof fn lemma_first_alias_key_none<V>(alts: Seq<Seq<char>>, entries: Seq<(Seq<char>, V)>)
    requires
        forall|j: int| 0 <= j < alts.len() ==> !has_key(entries, alts[j]),
    ensures
        first_alias_key(alts, entries) is None,
    decreases alts.len(),
{
    if alts.len() > 0 {
        assert(forall|j: int|
            0 <= j < alts.len() - 1 ==> alts.drop_first()[j] == alts[j + 1]
                && !has_key(entries, alts[j + 1]));
        lemma_first_alias_key_none(alts.drop_first(), entries);
    }
}

/// The keys of an extras map, in entry order.
pub open spec fn keys_of<V>(entries: Seq<(Seq<char>, V)>) -> Seq<Seq<char>> {
    entries.map_values(|p: (Seq<char>, V)| p.0)
}

/// Index of the extras entry the matcher resolves a record to. The
/// strategies run in fixed precedence, short-circuiting at the first hit:
/// a record that is not `CURRENT` is never matched; then an exact key
/// match on the title, on the English title, and on each alias in order;
/// and last the fuzzy fallback over every key.
pub open spec fn resolve_index_spec<V>(
    m: MediaView,
    entries: Seq<(Seq<char>, V)>,
    t: int,
) -> Option<int> {
    if !spec_is_current(m) {
        None
    } else {
        let title = opt_title(m.title);
        let english = opt_title(m.english_title);
        if has_key(entries, title) {
            Some(key_index(entries, title))
        } else if has_key(entries, english) {
            Some(key_index(entries, english))
        } else if first_alias_key(alt_title_list(m), entries) is Some {
            Some(key_index(entries, first_alias_key(alt_title_list(m), entries).unwrap()))
        } else {
            fuzzy_choice(keys_of(entries), title, english, t)
        }
    }
}

/// The extras record the matcher resolves a record to, if any.
pub open spec fn resolve_spec<V>(m: MediaView, entries: Seq<(Seq<char>, V)>, t: int) -> Option<
    V,
> {
    match resolve_index_spec(m, entries, t) {
        Some(i) => Some(entries[i].1),
        None => None,
    }
}

/// A resolved index always lies inside the extras map.
pub proof fn lemma_resolve_index_in_range<V>(m: MediaView, entries: Seq<(Seq<char>, V)>, t: int)
    ensures
        match resolve_index_spec(m, entries, t) {
            Some(i) => 0 <= i < entries.len(),
            None => true,
        },
{
    if spec_is_current(m) {
        let title = opt_title(m.title);
        let english = opt_title(m.english_title);
        if has_key(entries, title) {
            lemma_key_index_props(entries, title);
        } else if has_key(entries, english) {
            lemma_key_index_props(entries, english);
        } else if first_alias_key(alt_title_list(m), entries) is Some {
            lemma_first_alias_key_is_key(alt_title_list(m), entries);
            lemma_key_index_props(
                entries,
                first_alias_key(alt_title_list(m), entries).unwrap(),
            );
        } else {
            lemma_fuzzy_scan_in_range(keys_of(entries), title, english, t, entries.len() as int);
        }
    }
}

/// What the alias scan returns is a key of the extras.
pub proof fn lemma_first_alias_key_is_key<V>(
    alts: Seq<Seq<char>>,
    entries: Seq<(Seq<char>, V)>,
)
    ensures
        match first_alias_key(alts, entries) {
            Some(k) => has_key(entries, k),
            None => true,
        },
    decreases alts.len(),
{
    if alts.len() > 0 && !has_key(entries, alts[0]) {
        lemma_first_alias_key_is_key(alts.drop_first(), entries);
    }
}

/// Status gating: a record whose status is not `CURRENT` is never
/// enriched, whatever the extras hold and however well they would match.
pub proof fn lemma_status_gating<V>(m: MediaView, entries: Seq<(Seq<char>, V)>, t: int)
    requires
        !spec_is_current(m),
    ensures
        resolve_spec(m, entries, t) is None,
{
}

/// Exact-match precedence: when the record's title, English title or an
/// alias is an exact key of the extras, the matcher returns that key's
/// entry — in that order of precedence — and the fuzzy fallback never
/// decides, whatever any similarity score would say.
pub proof fn lemma_exact_match_precedence<V>(m: MediaView, entries: Seq<(Seq<char>, V)>, t: int)
    requires
        spec_is_current(m),
    ensures
        has_key(entries, opt_title(m.title)) ==> resolve_spec(m, entries, t) == Some(
            value_of(entries, opt_title(m.title)),
        ),
        !has_key(entries, opt_title(m.title)) && has_key(entries, opt_title(m.english_title))
            ==> resolve_spec(m, entries, t) == Some(
            value_of(entries, opt_title(m.english_title)),
        ),
        (!has_key(entries, opt_title(m.title)) && !has_key(entries, opt_title(m.english_title))
            && (first_alias_key(alt_title_list(m), entries) matches Some(k))) ==> resolve_spec(
            m,
            entries,
            t,
        ) == Some(value_of(entries, first_alias_key(alt_title_list(m), entries).unwrap())),
{
}

/// The fuzzy fallback finds a candidate exactly when some key's
/// similarity to the title or to the English title clears the threshold.
pub proof fn lemma_fuzzy_scan_some_iff(
    keys: Seq<Seq<char>>,
    title: Seq<char>,
    english: Seq<char>,
    t: int,
    n: int,
)
    requires
        0 <= n <= keys.len(),
    ensures
        (fuzzy_scan(keys, title, english, t, n) is Some) <==> exists|i: int|
            0 <= i < n && (clears_threshold(title, keys[i], t) || clears_threshold(
                english,
                keys[i],
                t,
            )),
    decreases n,
{
    if n > 0 {
        lemma_fuzzy_scan_some_iff(keys, title, english, t, n - 1);
        let prev = fuzzy_scan(keys, title, english, t, n - 1);
        if fuzzy_scan(keys, title, english, t, n) is Some {
            if prev is Some {
                let i = choose|i: int|
                    0 <= i < n - 1 && (clears_threshold(title, keys[i], t) || clears_threshold(
                        english,
                        keys[i],
                        t,
                    ));
                assert(0 <= i < n && (clears_threshold(title, keys[i], t) || clears_threshold(
                    english,
                    keys[i],
                    t,
                )));
            } else {
                assert(clears_threshold(title, keys[n - 1], t) || clears_threshold(
                    english,
                    keys[n - 1],
                    t,
                ));
            }
        }
        if exists|i: int|
            0 <= i < n && (clears_threshold(title, keys[i], t) || clears_threshold(
                english,
                keys[i],
                t,
            )) {
            let i = choose|i: int|
                0 <= i < n && (clears_threshold(title, keys[i], t) || clears_threshold(
                    english,
                    keys[i],
                    t,
                ));
            if i < n - 1 {
                assert(prev is Some);
            }
        }
    }
}

/// Threshold boundary: with no exact hit anywhere, the matcher resolves
/// something exactly when some key's similarity score lies strictly
/// above the threshold — a candidate scoring exactly the threshold is
/// rejected, one scoring any amount above it is accepted.
pub proof fn lemma_threshold_boundary<V>(m: MediaView, entries: Seq<(Seq<char>, V)>, t: int)
    requires
        spec_is_current(m),
        !has_key(entries, opt_title(m.title)),
        !has_key(entries, opt_title(m.english_title)),
        first_alias_key(alt_title_list(m), entries) is None,
    ensures
        (resolve_spec(m, entries, t) is Some) <==> exists|i: int|
            0 <= i < entries.len() && (clears_threshold(opt_title(m.title), entries[i].0, t)
                || clears_threshold(opt_title(m.english_title), entries[i].0, t)),
{
    let keys = keys_of(entries);
    let title = opt_title(m.title);
    let english = opt_title(m.english_title);
    lemma_fuzzy_scan_some_iff(keys, title, english, t, keys.len() as int);
    assert(keys.len() == entries.len());
    if resolve_spec(m, entries, t) is Some {
        let i = choose|i: int|
            0 <= i < keys.len() && (clears_threshold(title, keys[i], t) || clears_threshold(
                english,
                keys[i],
                t,
            ));
        assert(keys[i] == entries[i].0);
        assert(0 <= i < entries.len() && (clears_threshold(title, entries[i].0, t)
            || clears_threshold(english, entries[i].0, t)));
    }
    if exists|i: int|
        0 <= i < entries.len() && (clears_threshold(title, entries[i].0, t) || clears_threshold(
            english,
            entries[i].0,
            t,
        )) {
        let i = choose|i: int|
            0 <= i < entries.len() && (clears_threshold(title, entries[i].0, t)
                || clears_threshold(english, entries[i].0, t));
        assert(keys[i] == entries[i].0);
        assert(0 <= i < keys.len() && (clears_threshold(title, keys[i], t) || clears_threshold(
            english,
            keys[i],
            t,
        )));
        assert(fuzzy_scan(keys, title, english, t, keys.len() as int) is Some);
    }
}

/// Resolves one record against one keyed set of extras, returning the
/// index of the matched entry.
pub fn resolve_index<T: DeepView>(media: &Media, extras: &ExtraMap<T>, threshold: u32) -> (r:
    Option<usize>)
    ensures
        match r {
            Some(i) => resolve_index_spec(media.deep_view(), extras@, threshold as int)
                == Some(i as int) && i < extras@.len(),
            None => resolve_index_spec(media.deep_view(), extras@, threshold as int) is None,
        },
{
    proof {
        reveal_strlit("");
        assert(""@ =~= Seq::<char>::empty());
    }
    if !media.is_current() {
        return None;
    }
    let title: &str = match &media.title {
        Some(t) => t.as_str(),
        None => "",
    };
    let english: &str = match &media.english_title {
        Some(t) => t.as_str(),
        None => "",
    };
    if let Some(i) = extras.index_of(title) {
        return Some(i);
    }
    if let Some(i) = extras.index_of(english) {
        return Some(i);
    }
    if let Some(alt) = &media.alt_titles {
        let n = alt.alt_titles.len();
        let mut j: usize = 0;
        while j < n
            invariant
                n == alt.alt_titles@.len(),
                0 <= j <= n,
                spec_is_current(media.deep_view()),
                !has_key(extras@, opt_title(media.deep_view().title)),
                !has_key(extras@, opt_title(media.deep_view().english_title)),
                alt_title_list(media.deep_view()) == alt.alt_titles.deep_view(),
                forall|j2: int| 0 <= j2 < j ==> !has_key(extras@, alt.alt_titles.deep_view()[j2]),
            decreases n - j,
        {
            if let Some(i) = extras.index_of(alt.alt_titles[j].as_str()) {
                proof {
                    assert(alt.alt_titles.deep_view()[j as int] == alt.alt_titles@[j as int]@);
                    lemma_first_alias_key_at(alt.alt_titles.deep_view(), extras@, j as int);
                }
                return Some(i);
            }
            proof {
                assert(alt.alt_titles.deep_view()[j as int] == alt.alt_titles@[j as int]@);
            }
            j = j + 1;
        }
        proof {
            lemma_first_alias_key_none(alt.alt_titles.deep_view(), extras@);
        }
    } else {
        proof {
            lemma_first_alias_key_none(alt_title_list(media.deep_view()), extras@);
        }
    }

    let ghost keys = keys_of(extras@);
    let ghost t = threshold as int;
    let ghost title_v = title@;
    let ghost english_v = english@;
    let n = extras.len();
    let mut best: Option<(usize, usize, usize)> = None;
    let mut i: usize = 0;
    while i < n
        invariant
            n == extras@.len(),
            keys == keys_of(extras@),
            t == threshold as int,
            title_v == title@,
            english_v == english@,
            0 <= i <= n,
            match (best, fuzzy_scan(keys, title_v, english_v, t, i as int)) {
                (None, None) => true,
                (Some((bi, bn, bd)), Some(fb)) => bi < n && bi as int == fb.idx
                    && bn as int == fb.num && bd as int == fb.den,
                _ => false,
            },
        decreases n - i,
    {
        let ghost prev_best = fuzzy_scan(keys, title_v, english_v, t, i as int);
        let ghost k = keys[i as int];
        let key = extras.key_at(i);
        proof {
            assert(keys[i as int] == extras@[i as int].0);
        }
        let (n1, d1) = score_parts(title, key.as_str());
        let clears1 = exceeds_threshold(n1, d1, threshold);
        let better1 = match best {
            None => true,
            Some((_, bn, bd)) => fraction_gt(n1, d1, bn, bd),
        };
        if clears1 && better1 {
            best = Some((i, n1, d1));
        }
        proof {
            let at = consider(prev_best, i as int, sim_num(title_v, k), sim_den(title_v, k), t);
            assert(match (best, at) {
                (None, None) => true,
                (Some((bi, bn, bd)), Some(fb)) => bi < n && bi as int == fb.idx
                    && bn as int == fb.num && bd as int == fb.den,
                _ => false,
            });
        }
        let (n2, d2) = score_parts(english, key.as_str());
        let clears2 = exceeds_threshold(n2, d2, threshold);
        let better2 = match best {
            None => true,
            Some((_, bn, bd)) => fraction_gt(n2, d2, bn, bd),
        };
        if clears2 && better2 {
            best = Some((i, n2, d2));
        }
        proof {
            let at = consider(prev_best, i as int, sim_num(title_v, k), sim_den(title_v, k), t);
            let ae = consider(at, i as int, sim_num(english_v, k), sim_den(english_v, k), t);
            assert(fuzzy_scan(keys, title_v, english_v, t, i + 1) == ae);
            assert(match (best, ae) {
                (None, None) => true,
                (Some((bi, bn, bd)), Some(fb)) => bi < n && bi as int == fb.idx
                    && bn as int == fb.num && bd as int == fb.den,
                _ => false,
            });
        }
        i = i + 1;
    }
    match best {
        Some((bi, _, _)) => Some(bi),
        None => None,
    }
}

} // verus!
