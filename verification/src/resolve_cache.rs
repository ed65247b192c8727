//! The route → (permission, policy) back-resolution cache of the
//! authorization trail: entries live for a fixed TTL; every write first
//! drains the expired entries and, at the entry ceiling, recycles the
//! soonest-expiring one, so the cache never holds more than the ceiling.
//! Instants are milliseconds of a monotonic clock.

use vstd::prelude::*;
use crate::text::{chars_of, push_chars, str_eq, string_of, to_upper_case, unicode_upper};

verus! {

/// How long a resolution stays fresh, in milliseconds.
pub const RESOLVE_TTL_MS: u64 = 60000;

/// The most entries the cache holds.
pub const RESOLVE_CACHE_CAP: usize = 1024;

/// One cached resolution.
pub struct CacheEntry {
    pub key: String,
    pub permission_id: u32,
    pub policy_id: u32,
    pub expires_at: u64,
}

/// The value an entry caches: permission, policy, expiry.
pub open spec fn entry_value(e: CacheEntry) -> (u32, u32, u64) {
    (e.permission_id, e.policy_id, e.expires_at)
}

/// The map an entry list denotes, later entries winning.
pub open spec fn cache_map(s: Seq<CacheEntry>) -> Map<Seq<char>, (u32, u32, u64)>
    decreases s.len(),
{
    if s.len() == 0 {
        Map::empty()
    } else {
        cache_map(s.drop_last()).insert(s.last().key@, entry_value(s.last()))
    }
}

/// No key occurs twice.
pub open spec fn distinct_keys(s: Seq<CacheEntry>) -> bool {
    forall|i: int, j: int| 0 <= i < j < s.len() ==> s[i].key@ != s[j].key@
}

/// The entries of a map still fresh at `now`.
pub open spec fn live(m: Map<Seq<char>, (u32, u32, u64)>, now: u64) -> Map<
    Seq<char>,
    (u32, u32, u64),
> {
    Map::new(|k: Seq<char>| m.contains_key(k) && m[k].2 > now, |k: Seq<char>| m[k])
}

/// The entries of a list still fresh at `now`, in order.
pub open spec fn live_entries(s: Seq<CacheEntry>, now: u64) -> Seq<CacheEntry>
    decreases s.len(),
{
    if s.len() == 0 {
        s
    } else if s.last().expires_at > now {
        live_entries(s.drop_last(), now).push(s.last())
    } else {
        live_entries(s.drop_last(), now)
    }
}

proof fn lemma_cache_map_keys(s: Seq<CacheEntry>)
    ensures
        cache_map(s).dom().finite(),
        forall|k: Seq<char>|
            cache_map(s).contains_key(k) <==> exists|i: int| 0 <= i < s.len() && s[i].key@ == k,
        distinct_keys(s) ==> forall|i: int|
            0 <= i < s.len() ==> #[trigger] cache_map(s)[s[i].key@] == entry_value(s[i]),
        distinct_keys(s) ==> cache_map(s).dom().len() == s.len(),
    decreases s.len(),
{
    if s.len() > 0 {
        let p = s.drop_last();
        lemma_cache_map_keys(p);
        assert forall|k: Seq<char>|
            cache_map(s).contains_key(k) <==> exists|i: int| 0 <= i < s.len() && s[i].key@ == k by {
            if cache_map(s).contains_key(k) && k != s.last().key@ {
                let i = choose|i: int| 0 <= i < p.len() && p[i].key@ == k;
                assert(s[i] == p[i]);
            }
            if exists|i: int| 0 <= i < s.len() && s[i].key@ == k {
                let i = choose|i: int| 0 <= i < s.len() && s[i].key@ == k;
                if i < s.len() - 1 {
                    assert(p[i] == s[i]);
                }
            }
        }
        if distinct_keys(s) {
            assert(distinct_keys(p)) by {
                assert forall|i: int, j: int| 0 <= i < j < p.len() implies p[i].key@ != p[j].key@ by {
                    assert(p[i] == s[i] && p[j] == s[j]);
                }
            }
            assert forall|i: int| 0 <= i < s.len() implies #[trigger] cache_map(s)[s[i].key@]
                == entry_value(s[i]) by {
                if i < s.len() - 1 {
                    assert(p[i] == s[i]);
                }
            }
            assert(!cache_map(p).contains_key(s.last().key@)) by {
                if cache_map(p).contains_key(s.last().key@) {
                    let i = choose|i: int| 0 <= i < p.len() && p[i].key@ == s.last().key@;
                    assert(s[i] == p[i]);
                }
            }
        }
    }
}

proof fn lemma_live_entries(s: Seq<CacheEntry>, now: u64)
    requires
        distinct_keys(s),
    ensures
        distinct_keys(live_entries(s, now)),
        live_entries(s, now).len() <= s.len(),
        cache_map(live_entries(s, now)) == live(cache_map(s), now),
        forall|j: int|
            0 <= j < live_entries(s, now).len() ==> exists|i: int|
                0 <= i < s.len() && s[i] == #[trigger] live_entries(s, now)[j],
    decreases s.len(),
{
    if s.len() > 0 {
        let p = s.drop_last();
        assert(distinct_keys(p)) by {
            assert forall|i: int, j: int| 0 <= i < j < p.len() implies p[i].key@ != p[j].key@ by {
                assert(p[i] == s[i] && p[j] == s[j]);
            }
        }
        lemma_live_entries(p, now);
        lemma_cache_map_keys(p);
        let lp = live_entries(p, now);
        assert(!cache_map(p).contains_key(s.last().key@)) by {
            if cache_map(p).contains_key(s.last().key@) {
                let i = choose|i: int| 0 <= i < p.len() && p[i].key@ == s.last().key@;
                assert(s[i] == p[i]);
            }
        }
        if s.last().expires_at > now {
            let l = lp.push(s.last());
            assert forall|i: int, j: int| 0 <= i < j < l.len() implies l[i].key@ != l[j].key@ by {
                if j == l.len() - 1 {
                    let k = choose|k: int| 0 <= k < p.len() && p[k] == #[trigger] lp[i];
                    assert(s[k] == p[k]);
                } else {
                    assert(l[i] == lp[i] && l[j] == lp[j]);
                }
            }
            assert forall|j: int| 0 <= j < l.len() implies exists|i: int|
                0 <= i < s.len() && s[i] == #[trigger] l[j] by {
                if j == l.len() - 1 {
                    assert(s[s.len() - 1] == l[j]);
                } else {
                    let k = choose|k: int| 0 <= k < p.len() && p[k] == #[trigger] lp[j];
                    assert(s[k] == p[k]);
                }
            }
            assert(l.drop_last() =~= lp);
            assert(cache_map(l) == cache_map(lp).insert(s.last().key@, entry_value(s.last())));
            assert(cache_map(l) =~= live(cache_map(s), now));
        } else {
            assert forall|j: int| 0 <= j < lp.len() implies exists|i: int|
                0 <= i < s.len() && s[i] == #[trigger] lp[j] by {
                let k = choose|k: int| 0 <= k < p.len() && p[k] == #[trigger] lp[j];
                assert(s[k] == p[k]);
            }
            assert(cache_map(lp) =~= live(cache_map(s), now));
        }
    }
}

proof fn lemma_remove_entry(s: Seq<CacheEntry>, v: int)
    requires
        distinct_keys(s),
        0 <= v < s.len(),
    ensures
        distinct_keys(s.remove(v)),
        cache_map(s.remove(v)) == cache_map(s).remove(s[v].key@),
{
    let r = s.remove(v);
    assert forall|i: int, j: int| 0 <= i < j < r.len() implies r[i].key@ != r[j].key@ by {
        let ii = if i < v {
            i
        } else {
            i + 1
        };
        let jj = if j < v {
            j
        } else {
            j + 1
        };
        assert(r[i] == s[ii] && r[j] == s[jj]);
    }
    lemma_cache_map_keys(s);
    lemma_cache_map_keys(r);
    assert forall|k: Seq<char>| #[trigger]
        cache_map(r).contains_key(k) <==> cache_map(s).remove(s[v].key@).contains_key(k) by {
        if cache_map(r).contains_key(k) {
            let i = choose|i: int| 0 <= i < r.len() && r[i].key@ == k;
            let ii = if i < v {
                i
            } else {
                i + 1
            };
            assert(r[i] == s[ii]);
        }
        if cache_map(s).remove(s[v].key@).contains_key(k) {
            let i = choose|i: int| 0 <= i < s.len() && s[i].key@ == k;
            let ri = if i < v {
                i
            } else {
                i - 1
            };
            assert(r[ri] == s[i]);
        }
    }
    assert forall|k: Seq<char>| cache_map(r).contains_key(k) implies #[trigger] cache_map(r)[k]
        == cache_map(s)[k] by {
        let i = choose|i: int| 0 <= i < r.len() && r[i].key@ == k;
        let ii = if i < v {
            i
        } else {
            i + 1
        };
        assert(r[i] == s[ii]);
        assert(cache_map(r)[r[i].key@] == entry_value(r[i]));
        assert(cache_map(s)[s[ii].key@] == entry_value(s[ii]));
    }
    assert(cache_map(r) =~= cache_map(s).remove(s[v].key@));
}

/// The key of a resolution: subject, path and upper-cased method joined
/// by `|`.
pub open spec fn resolve_key(subject: Seq<char>, path: Seq<char>, method: Seq<char>) -> Seq<char> {
    subject + seq!['|'] + path + seq!['|'] + unicode_upper(method)
}

/// The cache key of a resolution; `None` when the subject, the path or
/// the method is empty (nothing is resolved then).
pub fn cache_key_for(subject: &str, path: &str, method: &str) -> (r: Option<String>)
    ensures
        match r {
            Some(k) => subject@.len() > 0 && path@.len() > 0 && method@.len() > 0 && k@
                == resolve_key(subject@, path@, method@),
            None => subject@.len() == 0 || path@.len() == 0 || method@.len() == 0,
        },
{
    let s = chars_of(subject);
    let p = chars_of(path);
    let m = chars_of(method);
    if s.len() == 0 || p.len() == 0 || m.len() == 0 {
        return None;
    }
    let up = to_upper_case(method);
    let mut out: Vec<char> = Vec::new();
    push_chars(&mut out, s.as_slice());
    out.push('|');
    push_chars(&mut out, p.as_slice());
    out.push('|');
    push_chars(&mut out, chars_of(up.as_str()).as_slice());
    assert(out@ =~= resolve_key(subject@, path@, method@));
    Some(string_of(out.as_slice()))
}

/// What a store at `now` makes of the cache `before`: the expired
/// entries drained, at the ceiling a soonest-expiring entry recycled,
/// then `key` mapped to the resolution, fresh for the TTL.
pub open spec fn stored(
    before: Map<Seq<char>, (u32, u32, u64)>,
    after: Map<Seq<char>, (u32, u32, u64)>,
    key: Seq<char>,
    permission_id: u32,
    policy_id: u32,
    now: u64,
) -> bool {
    let kept = live(before, now);
    let v = (permission_id, policy_id, (now + RESOLVE_TTL_MS) as u64);
    if kept.len() >= RESOLVE_CACHE_CAP {
        exists|victim: Seq<char>|
            #![trigger kept[victim]]
            kept.contains_key(victim) && (forall|k: Seq<char>|
                kept.contains_key(k) ==> kept[victim].2 <= #[trigger] kept[k].2) && after
                == kept.remove(victim).insert(key, v)
    } else {
        after == kept.insert(key, v)
    }
}

/// A stored resolution is read back, unchanged, by every lookup of its
/// key before the TTL runs out.
pub proof fn lemma_store_then_lookup(
    before: Map<Seq<char>, (u32, u32, u64)>,
    after: Map<Seq<char>, (u32, u32, u64)>,
    key: Seq<char>,
    permission_id: u32,
    policy_id: u32,
    now: u64,
    t: u64,
)
    requires
        now + RESOLVE_TTL_MS <= u64::MAX,
        stored(before, after, key, permission_id, policy_id, now),
        now <= t < now + RESOLVE_TTL_MS,
    ensures
        after.contains_key(key),
        t < after[key].2,
        after[key].0 == permission_id,
        after[key].1 == policy_id,
{
}

/// A store keeps no entry that had expired at its instant: every other
/// entry it leaves is one of the earlier entries, still fresh then.
pub proof fn lemma_store_drains_expired(
    before: Map<Seq<char>, (u32, u32, u64)>,
    after: Map<Seq<char>, (u32, u32, u64)>,
    key: Seq<char>,
    permission_id: u32,
    policy_id: u32,
    now: u64,
    k: Seq<char>,
)
    requires
        stored(before, after, key, permission_id, policy_id, now),
        after.contains_key(k),
        k != key,
    ensures
        before.contains_key(k),
        after[k] == before[k],
        after[k].2 > now,
{
    let kept = live(before, now);
    if kept.len() >= RESOLVE_CACHE_CAP {
        let victim = choose|victim: Seq<char>|
            #![trigger kept[victim]]
            kept.contains_key(victim) && (forall|k: Seq<char>|
                kept.contains_key(k) ==> kept[victim].2 <= #[trigger] kept[k].2) && after
                == kept.remove(victim).insert(key, (permission_id, policy_id, (now + RESOLVE_TTL_MS) as u64));
        assert(kept.contains_key(k));
    }
}

/// The cached resolutions.
pub struct ResolveCache {
    entries: Vec<CacheEntry>,
}

impl View for ResolveCache {
    type V = Map<Seq<char>, (u32, u32, u64)>;

    closed spec fn view(&self) -> Map<Seq<char>, (u32, u32, u64)> {
        cache_map(self.entries@)
    }
}

impl ResolveCache {
    /// Keys are distinct and the ceiling holds.
    pub closed spec fn wf(&self) -> bool {
        distinct_keys(self.entries@) && self.entries@.len() <= RESOLVE_CACHE_CAP
    }

    /// The empty cache.
    pub fn new() -> (r: Self)
        ensures
            r.wf(),
            r@ == Map::<Seq<char>, (u32, u32, u64)>::empty(),
    {
        ResolveCache { entries: Vec::new() }
    }

    /// Every cache holds at most the ceiling.
    pub proof fn lemma_bounded(&self)
        requires
            self.wf(),
        ensures
            self@.dom().finite(),
            self@.len() <= RESOLVE_CACHE_CAP,
    {
        lemma_cache_map_keys(self.entries@);
    }

    /// The resolution cached under `key`, while it is fresh at `now`.
    pub fn lookup(&self, key: &str, now: u64) -> (r: Option<(u32, u32)>)
        requires
            self.wf(),
        ensures
            r == (if self@.contains_key(key@) && now < self@[key@].2 {
                Some((self@[key@].0, self@[key@].1))
            } else {
                None
            }),
    {
        proof {
            lemma_cache_map_keys(self.entries@);
        }
        let mut i: usize = 0;
        while i < self.entries.len()
            invariant
                self.wf(),
                i <= self.entries.len(),
                forall|j: int| 0 <= j < i ==> self.entries@[j].key@ != key@,
            decreases self.entries.len() - i,
        {
            if str_eq(self.entries[i].key.as_str(), key) {
                let e = &self.entries[i];
                proof {
                    lemma_cache_map_keys(self.entries@);
                }
                assert(self@[self.entries@[i as int].key@] == entry_value(self.entries@[i as int]));
                if now < e.expires_at {
                    return Some((e.permission_id, e.policy_id));
                } else {
                    return None;
                }
            }
            i += 1;
        }
        proof {
            lemma_cache_map_keys(self.entries@);
        }
        None
    }

    /// Caches a resolution at `now`: drains the expired entries, recycles
    /// a soonest-expiring entry when the ceiling is reached, then stores
    /// the resolution, fresh for the TTL.
    pub fn store(&mut self, key: String, permission_id: u32, policy_id: u32, now: u64)
        requires
            old(self).wf(),
            now + RESOLVE_TTL_MS <= u64::MAX,
        ensures
            final(self).wf(),
            stored(old(self)@, final(self)@, key@, permission_id, policy_id, now),
    {
        let ghost old_entries = self.entries@;
        let mut kept: Vec<CacheEntry> = Vec::new();
        let mut i: usize = 0;
        while i < self.entries.len()
            invariant
                i <= self.entries.len(),
                self.entries@ == old_entries,
                kept@ == live_entries(old_entries.take(i as int), now),
            decreases self.entries.len() - i,
        {
            assert(old_entries.take(i + 1).drop_last() =~= old_entries.take(i as int));
            let e = &self.entries[i];
            if e.expires_at > now {
                kept.push(
                    CacheEntry {
                        key: e.key.clone(),
                        permission_id: e.permission_id,
                        policy_id: e.policy_id,
                        expires_at: e.expires_at,
                    },
                );
            }
            i += 1;
        }
        assert(old_entries.take(old_entries.len() as int) =~= old_entries);
        proof {
            lemma_live_entries(old_entries, now);
            lemma_cache_map_keys(kept@);
        }
        let ghost kept_map = cache_map(kept@);
        let ghost victim_key: Seq<char> = Seq::empty();
        let at_cap = kept.len() >= RESOLVE_CACHE_CAP;
        if at_cap {
            let mut v: usize = 0;
            let mut j: usize = 1;
            while j < kept.len()
                invariant
                    kept@.len() >= RESOLVE_CACHE_CAP,
                    v < j <= kept.len(),
                    forall|t: int| 0 <= t < j ==> kept@[v as int].expires_at <= kept@[t].expires_at,
                decreases kept.len() - j,
            {
                if kept[j].expires_at < kept[v].expires_at {
                    v = j;
                }
                j += 1;
            }
            proof {
                victim_key = kept@[v as int].key@;
                assert(kept_map[victim_key] == entry_value(kept@[v as int]));
                assert forall|k: Seq<char>| kept_map.contains_key(k) implies kept_map[victim_key].2
                    <= #[trigger] kept_map[k].2 by {
                    let t = choose|t: int| 0 <= t < kept@.len() && kept@[t].key@ == k;
                    assert(kept_map[kept@[t].key@] == entry_value(kept@[t]));
                }
                lemma_remove_entry(kept@, v as int);
            }
            kept.remove(v);
        }
        let ghost before_insert = kept@;
        proof {
            lemma_cache_map_keys(kept@);
        }
        let mut w: usize = 0;
        let mut found: Option<usize> = None;
        while w < kept.len()
            invariant
                w <= kept.len(),
                match found {
                    Some(x) => x < kept@.len() && kept@[x as int].key@ == key@,
                    None => forall|t: int| 0 <= t < w ==> kept@[t].key@ != key@,
                },
            decreases kept.len() - w,
        {
            if found.is_none() && str_eq(kept[w].key.as_str(), key.as_str()) {
                found = Some(w);
            }
            w += 1;
        }
        match found {
            Some(x) => {
                proof {
                    lemma_remove_entry(kept@, x as int);
                }
                kept.remove(x);
                proof {
                    lemma_cache_map_keys(kept@);
                }
            },
            None => {
                assert(cache_map(before_insert) =~= cache_map(before_insert).remove(key@));
            },
        }
        let ghost mid = kept@;
        proof {
            lemma_cache_map_keys(mid);
        }
        assert(!cache_map(mid).contains_key(key@));
        assert(cache_map(mid) =~= cache_map(before_insert).remove(key@));
        kept.push(
            CacheEntry {
                key,
                permission_id,
                policy_id,
                expires_at: now + RESOLVE_TTL_MS,
            },
        );
        assert(kept@.drop_last() =~= mid);
        proof {
            assert forall|a: int, b: int| 0 <= a < b < kept@.len() implies kept@[a].key@
                != kept@[b].key@ by {
                if b == kept@.len() - 1 {
                    assert(kept@[a] == mid[a]);
                    assert(cache_map(mid).contains_key(mid[a].key@));
                } else {
                    assert(kept@[a] == mid[a] && kept@[b] == mid[b]);
                }
            }
            let v = (permission_id, policy_id, (now + RESOLVE_TTL_MS) as u64);
            assert(cache_map(kept@) =~= cache_map(before_insert).insert(key@, v));
            lemma_cache_map_keys(old_entries);
            assert(kept_map.len() == live_entries(old_entries, now).len());
            if at_cap {
                assert(kept_map.len() >= RESOLVE_CACHE_CAP);
                assert(cache_map(before_insert) == kept_map.remove(victim_key));
            } else {
                assert(kept_map.len() < RESOLVE_CACHE_CAP);
                assert(before_insert == live_entries(old_entries, now));
            }
        }
        self.entries = kept;
    }
}

/// The permission a route link names; none when the link carries no
/// permission or permission 0.
pub fn linked_permission(permission_id: Option<u32>) -> (r: Option<u32>)
    ensures
        r == (match permission_id {
            Some(p) => if p == 0 {
                None
            } else {
                Some(p)
            },
            None => None,
        }),
{
    match permission_id {
        Some(p) => if p == 0 {
            None
        } else {
            Some(p)
        },
        None => None,
    }
}

/// The resolution of a linked permission: the permission when the role
/// holds it, zeros otherwise; the policy reference stays empty.
pub fn resolution_of(permission_id: u32, held: bool) -> (r: (u32, u32))
    ensures
        r == (if held {
            (permission_id, 0u32)
        } else {
            (0u32, 0u32)
        }),
{
    if held {
        (permission_id, 0)
    } else {
        (0, 0)
    }
}

} // verus!
