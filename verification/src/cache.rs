use vstd::prelude::*;

use crate::config::DEFAULT_CACHE_TTL;
use crate::extra_map::{
    has_key, key_index, lemma_key_index_first, lemma_key_index_is_first, lemma_key_index_props,
    spec_insert, unique_keys, value_of, ExtraMap,
};

verus! {

/// Mathematical value of one cached entry.
pub struct CachedValueView {
    pub value: Seq<char>,
    pub expires_at: u64,
}

/// One cached value together with the instant it stops being served.
#[derive(PartialEq, Debug)]
pub struct CachedValue {
    pub value: String,
    pub expires_at: u64,
}

impl DeepView for CachedValue {
    type V = CachedValueView;

    open spec fn deep_view(&self) -> CachedValueView {
        CachedValueView { value: self.value@, expires_at: self.expires_at }
    }
}

/// What a cache read yields: nothing when the caller bypasses the cache,
/// the key is absent, or the entry's deadline has passed; otherwise the
/// stored value.
pub open spec fn spec_get_cached(
    s: Seq<(Seq<char>, CachedValueView)>,
    k: Seq<char>,
    now: u64,
    bypass: bool,
) -> Option<Seq<char>> {
    if bypass || !has_key(s, k) {
        None
    } else {
        let e = value_of(s, k);
        if now < e.expires_at {
            Some(e.value)
        } else {
            None
        }
    }
}

/// The deadline a relative TTL yields, clamped to the clock's range.
pub open spec fn spec_deadline(now: u64, ttl: u64) -> u64 {
    if now + ttl <= u64::MAX {
        (now + ttl) as u64
    } else {
        u64::MAX
    }
}

/// The number of seconds from `now` to the next midnight, UTC; when that
/// instant lies outside the clock's range, the default TTL stands in.
pub open spec fn spec_ttl_tomorrow(now: u64) -> u64 {
    if (now / 86400 + 1) * 86400 <= u64::MAX {
        ((now / 86400 + 1) * 86400 - now) as u64
    } else {
        DEFAULT_CACHE_TTL
    }
}

/// A key/value cache with per-entry absolute deadlines. Reads never fail:
/// a miss of any kind is `None`, and writes with the bypass flag set are
/// dropped, caching being an optimization only.
pub struct CacheStore {
    entries: ExtraMap<CachedValue>,
}

impl View for CacheStore {
    type V = Seq<(Seq<char>, CachedValueView)>;

    closed spec fn view(&self) -> Seq<(Seq<char>, CachedValueView)> {
        self.entries@
    }
}

impl CacheStore {
    pub open spec fn wf(&self) -> bool {
        unique_keys(self@)
    }

    pub fn new() -> (c: CacheStore)
        ensures
            c@ == Seq::<(Seq<char>, CachedValueView)>::empty(),
            c.wf(),
    {
        CacheStore { entries: ExtraMap::new() }
    }

    /// Serves the entry under `key`, unless the caller bypasses the
    /// cache, the key is absent, or the entry has expired.
    pub fn get_cached(&self, key: &str, now: u64, bypass: bool) -> (r: Option<String>)
        ensures
            r.deep_view() == spec_get_cached(self@, key@, now, bypass),
    {
        if bypass {
            return None;
        }
        match self.entries.get(key) {
            Some(cv) => {
                if now < cv.expires_at {
                    Some(cv.value.clone())
                } else {
                    None
                }
            },
            None => None,
        }
    }

    /// Stores `value` under `key` until the absolute instant
    /// `expires_at`; a bypassed write leaves the cache as it is.
    pub fn cache_value_expire_at(&mut self, key: &str, value: &str, expires_at: u64, bypass: bool)
        requires
            old(self).wf(),
        ensures
            final(self).wf(),
            bypass ==> final(self)@ == old(self)@,
            !bypass ==> final(self)@ == spec_insert(
                old(self)@,
                key@,
                CachedValueView { value: value@, expires_at },
            ),
    {
        if bypass {
            return ;
        }
        self.entries.insert(
            key.to_owned(),
            CachedValue { value: value.to_owned(), expires_at },
        );
    }

    /// Stores `value` under `key` for `ttl_seconds` from `now`; a
    /// bypassed write leaves the cache as it is.
    pub fn cache_value_expire(
        &mut self,
        key: &str,
        value: &str,
        ttl_seconds: u64,
        now: u64,
        bypass: bool,
    )
        requires
            old(self).wf(),
        ensures
            final(self).wf(),
            bypass ==> final(self)@ == old(self)@,
            !bypass ==> final(self)@ == spec_insert(
                old(self)@,
                key@,
                CachedValueView { value: value@, expires_at: spec_deadline(now, ttl_seconds) },
            ),
    {
        let expires_at: u64 = if now <= u64::MAX - ttl_seconds {
            now + ttl_seconds
        } else {
            u64::MAX
        };
        self.cache_value_expire_at(key, value, expires_at, bypass)
    }

    /// Stores `value` under `key` until the next midnight after `now`; a
    /// bypassed write leaves the cache as it is.
    pub fn cache_value_expire_tomorrow(&mut self, key: &str, value: &str, now: u64, bypass: bool)
        requires
            old(self).wf(),
        ensures
            final(self).wf(),
            bypass ==> final(self)@ == old(self)@,
            !bypass ==> final(self)@ == spec_insert(
                old(self)@,
                key@,
                CachedValueView {
                    value: value@,
                    expires_at: spec_deadline(now, spec_ttl_tomorrow(now)),
                },
            ),
    {
        let ttl = seconds_until_tomorrow(now);
        self.cache_value_expire(key, value, ttl, now, bypass)
    }
}

/// The time left until the next midnight after `now`, always within
/// `(0, 86400]` seconds. When the following midnight cannot be
/// represented, the default TTL stands in.
pub fn seconds_until_tomorrow(now: u64) -> (ttl: u64)
    ensures
        0 < ttl <= 86400,
        ttl == spec_ttl_tomorrow(now),
{
    let day = now / 86400;
    proof {
        assert(now == 86400 * (now as int / 86400) + now as int % 86400) by (nonlinear_arith);
        assert(0 <= now as int % 86400 < 86400) by (nonlinear_arith);
    }
    if day + 1 <= u64::MAX / 86400 {
        proof {
            assert((day + 1) * 86400 <= (u64::MAX / 86400) * 86400) by (nonlinear_arith)
                requires
                    day + 1 <= u64::MAX / 86400,
            ;
            assert(u64::MAX as int == 86400 * (u64::MAX as int / 86400) + u64::MAX as int
                % 86400) by (nonlinear_arith);
            assert(0 <= u64::MAX as int % 86400) by (nonlinear_arith);
        }
        let next = (day + 1) * 86400;
        proof {
            assert(next == day * 86400 + 86400) by (nonlinear_arith)
                requires
                    next == (day + 1) * 86400,
            ;
            assert(day * 86400 == 86400 * day) by (nonlinear_arith);
        }
        next - now
    } else {
        proof {
            assert((day + 1) * 86400 > u64::MAX) by (nonlinear_arith)
                requires
                    day + 1 > u64::MAX / 86400,
                    u64::MAX as int == 86400 * (u64::MAX as int / 86400) + u64::MAX as int % 86400,
                    0 <= u64::MAX as int % 86400 < 86400,
            ;
            assert(u64::MAX as int == 86400 * (u64::MAX as int / 86400) + u64::MAX as int
                % 86400) by (nonlinear_arith);
            assert(0 <= u64::MAX as int % 86400 < 86400) by (nonlinear_arith);
        }
        DEFAULT_CACHE_TTL
    }
}

/// A bypassed read serves nothing, whatever the cache holds — even an
/// entry stored for that very key a moment before.
pub proof fn lemma_cache_bypass(s: Seq<(Seq<char>, CachedValueView)>, k: Seq<char>, now: u64)
    ensures
        spec_get_cached(s, k, now, true) is None,
{
}

/// A timed write is served back exactly until its deadline: a read
/// strictly before the deadline finds the value, and a read at or after
/// it finds nothing.
pub proof fn lemma_cache_round_trip(
    s: Seq<(Seq<char>, CachedValueView)>,
    k: Seq<char>,
    v: Seq<char>,
    at: u64,
    now2: u64,
)
    requires
        unique_keys(s),
    ensures
        ({
            let s2 = spec_insert(s, k, CachedValueView { value: v, expires_at: at });
            spec_get_cached(s2, k, now2, false) == if now2 < at {
                Some(v)
            } else {
                None::<Seq<char>>
            }
        }),
{
    let cv = CachedValueView { value: v, expires_at: at };
    let s2 = spec_insert(s, k, cv);
    if has_key(s, k) {
        let i = key_index(s, k);
        lemma_key_index_props(s, k);
        lemma_key_index_is_first(s, k);
        assert(s2[i].0 == k);
        assert(forall|j: int| 0 <= j < i ==> s2[j].0 == s[j].0 && s[j].0 != k);
        lemma_key_index_first(s2, k, i);
        assert(value_of(s2, k) == cv);
    } else {
        let i = s.len() as int;
        assert(s2[i].0 == k);
        assert forall|j: int| 0 <= j < i implies s2[j].0 != k by {
            assert(s2[j] == s[j]);
            assert(!(s[j].0 == k));
        }
        lemma_key_index_first(s2, k, i);
        assert(value_of(s2, k) == cv);
    }
}

} // verus!
