//! A TTL cache of repository metadata, keyed by lower-cased `owner/repo`.
use vstd::prelude::*;

use crate::github_api::{get_all_repos, repo_views, static_repo_table, GitHubRepoInfo, RepoInfoView};
use crate::json::{
    integral_within, lemma_integral_within_deeper, round_trip_depth, json_array, json_as_array, json_as_bool, json_as_string, json_as_u64, json_bool,
    json_get, json_is_null, json_members, json_null, json_object, json_of, json_schema_error, json_string,
    json_to_pretty, json_u64, lemma_members_map_index, member, member_views, members_map, parse_json,
    parsed_json, JsonView,
};
use crate::text::{
    ascii_fold, ascii_lower, ascii_lower_seq, chars_of, chars_slice, concat3, eq_ignore_ascii_case_spec,
    lower_of, opt_view, string_from_chars, string_views, to_lowercase,
};
use vstd::utf8::is_ascii_chars;

verus! {

/// Default lifetime of a cache entry, in seconds.
pub const DEFAULT_TTL_SECONDS: u64 = 3600;

/// Where the cache is persisted, relative to the project root.
pub const CACHE_FILE_PATH: &'static str = ".cache/github_repos.json";

/// Relies on `SystemTime::now` and `SystemTime::duration_since`: whole seconds
/// since the Unix epoch, or 0 when the clock reads earlier. Nothing is known of
/// the value, not even that it grows.
#[verifier::external_body]
fn now_seconds() -> (r: u64) {
    std::time::SystemTime::now().duration_since(std::time::UNIX_EPOCH).map(|d| d.as_secs()).unwrap_or(0)
}

// ---------------------------------------------------------------------------
// Entries
// ---------------------------------------------------------------------------

/// A cached value with the time it was stored and its lifetime.
#[derive(Debug)]
pub struct CacheEntry<T> {
    pub data: T,
    /// Unix time, in seconds, at which the entry was stored.
    pub cached_at: u64,
    /// Lifetime of this entry, in seconds.
    pub ttl_seconds: u64,
}

impl<T: View> View for CacheEntry<T> {
    type V = CacheEntry<T::V>;

    open spec fn view(&self) -> CacheEntry<T::V> {
        CacheEntry { data: self.data@, cached_at: self.cached_at, ttl_seconds: self.ttl_seconds }
    }
}

impl<T> CacheEntry<T> {
    /// Whether the entry has expired at time `now`: `now > cached_at + ttl_seconds`.
    pub open spec fn expired_at(&self, now: u64) -> bool {
        now > self.cached_at + self.ttl_seconds
    }

    /// Seconds from `cached_at` to `now`, or 0 if `now` is earlier.
    pub open spec fn age_at(&self, now: u64) -> u64 {
        if now > self.cached_at {
            (now - self.cached_at) as u64
        } else {
            0
        }
    }

    /// Seconds left at `now` before the entry expires: `cached_at + ttl_seconds - now`,
    /// or 0 once expired, and at most `u64::MAX`.
    pub open spec fn remaining_at(&self, now: u64) -> u64 {
        let left = self.cached_at + self.ttl_seconds - now;
        if left <= 0 {
            0
        } else if left > u64::MAX {
            u64::MAX
        } else {
            left as u64
        }
    }

    /// An entry for `data`, stored at time `now`.
    pub fn new_at(data: T, ttl_seconds: u64, now: u64) -> (r: Self)
        ensures
            r.data == data,
            r.cached_at == now,
            r.ttl_seconds == ttl_seconds,
    {
        CacheEntry { data, cached_at: now, ttl_seconds }
    }

    /// An entry for `data`, stored now.
    pub fn new(data: T, ttl_seconds: u64) -> (r: Self)
        ensures
            r.data == data,
            r.ttl_seconds == ttl_seconds,
    {
        Self::new_at(data, ttl_seconds, now_seconds())
    }

    /// An entry for `data`, stored now, with the default lifetime.
    pub fn with_default_ttl(data: T) -> (r: Self)
        ensures
            r.data == data,
            r.ttl_seconds == DEFAULT_TTL_SECONDS,
    {
        Self::new(data, DEFAULT_TTL_SECONDS)
    }

    /// Whether the entry has expired at time `now`.
    pub fn is_expired_at(&self, now: u64) -> (r: bool)
        ensures
            r == self.expired_at(now),
    {
        now > self.cached_at && now - self.cached_at > self.ttl_seconds
    }

    /// Whether the entry has expired by the clock.
    pub fn is_expired(&self) -> (r: bool)
        ensures
            exists|now: u64| r == self.expired_at(now),
    {
        let now = now_seconds();
        self.is_expired_at(now)
    }

    /// Age of the entry at time `now`, in seconds.
    pub fn age_seconds_at(&self, now: u64) -> (r: u64)
        ensures
            r == self.age_at(now),
    {
        now.saturating_sub(self.cached_at)
    }

    /// Age of the entry by the clock, in seconds.
    pub fn age_seconds(&self) -> (r: u64)
        ensures
            exists|now: u64| r == self.age_at(now),
    {
        let now = now_seconds();
        self.age_seconds_at(now)
    }

    /// Seconds left at time `now` before the entry expires.
    pub fn remaining_ttl_at(&self, now: u64) -> (r: u64)
        ensures
            r == self.remaining_at(now),
    {
        let expiry: u128 = self.cached_at as u128 + self.ttl_seconds as u128;
        if expiry <= now as u128 {
            0
        } else if expiry - now as u128 > u64::MAX as u128 {
            u64::MAX
        } else {
            (expiry - now as u128) as u64
        }
    }

    /// Seconds left by the clock before the entry expires.
    pub fn remaining_ttl(&self) -> (r: u64)
        ensures
            exists|now: u64| r == self.remaining_at(now),
    {
        let now = now_seconds();
        self.remaining_ttl_at(now)
    }
}

impl CacheEntry<GitHubRepoInfo> {
    /// A copy of this entry.
    pub fn duplicate(&self) -> (r: Self)
        ensures
            r@ == self@,
    {
        CacheEntry { data: self.data.clone(), cached_at: self.cached_at, ttl_seconds: self.ttl_seconds }
    }
}

// ---------------------------------------------------------------------------
// The entries as a map
// ---------------------------------------------------------------------------

/// One slot of the cache: its key and its entry.
pub type Slot = (String, CacheEntry<GitHubRepoInfo>);

/// The map that a sequence of slots describes; a later slot wins over an
/// earlier one with the same key.
pub open spec fn slots_map(s: Seq<Slot>) -> Map<Seq<char>, CacheEntry<RepoInfoView>>
    decreases s.len(),
{
    if s.len() == 0 {
        Map::empty()
    } else {
        slots_map(s.drop_last()).insert(s.last().0@, s.last().1@)
    }
}

/// No two slots share a key.
pub open spec fn unique_keys(s: Seq<Slot>) -> bool {
    forall|i: int, j: int| 0 <= i < s.len() && 0 <= j < s.len() && i != j ==> s[i].0@ != s[j].0@
}

proof fn lemma_slots_map_index(s: Seq<Slot>, i: int)
    requires
        unique_keys(s),
        0 <= i < s.len(),
    ensures
        slots_map(s).contains_key(s[i].0@),
        slots_map(s)[s[i].0@] == s[i].1@,
    decreases s.len(),
{
    if i < s.len() - 1 {
        let p = s.drop_last();
        assert(unique_keys(p));
        assert(p[i] == s[i]);
        lemma_slots_map_index(p, i);
        assert(s[i].0@ != s.last().0@);
    }
}

proof fn lemma_slots_map_absent(s: Seq<Slot>, k: Seq<char>)
    requires
        forall|i: int| 0 <= i < s.len() ==> s[i].0@ != k,
    ensures
        !slots_map(s).contains_key(k),
    decreases s.len(),
{
    if s.len() > 0 {
        let p = s.drop_last();
        assert forall|i: int| 0 <= i < p.len() implies p[i].0@ != k by {
            assert(p[i] == s[i]);
        }
        lemma_slots_map_absent(p, k);
    }
}

proof fn lemma_slots_map_len(s: Seq<Slot>)
    requires
        unique_keys(s),
    ensures
        slots_map(s).dom().finite(),
        slots_map(s).len() == s.len(),
    decreases s.len(),
{
    if s.len() > 0 {
        let p = s.drop_last();
        assert(unique_keys(p));
        lemma_slots_map_len(p);
        assert forall|i: int| 0 <= i < p.len() implies p[i].0@ != s.last().0@ by {
            assert(p[i] == s[i]);
        }
        lemma_slots_map_absent(p, s.last().0@);
    }
}

/// Every key of `slots_map(s)` is the key of some slot.
proof fn lemma_slots_map_key(s: Seq<Slot>, k: Seq<char>)
    requires
        slots_map(s).contains_key(k),
    ensures
        exists|i: int| 0 <= i < s.len() && s[i].0@ == k,
    decreases s.len(),
{
    if s.len() > 0 && s.last().0@ != k {
        let p = s.drop_last();
        lemma_slots_map_key(p, k);
        let i = choose|i: int| 0 <= i < p.len() && p[i].0@ == k;
        assert(s[i] == p[i]);
    } else if s.len() > 0 {
        assert(s[s.len() - 1].0@ == k);
    }
}

/// Replacing slot `i` by one with the same key updates the map at that key.
proof fn lemma_slots_map_update(s: Seq<Slot>, i: int, slot: Slot)
    requires
        unique_keys(s),
        0 <= i < s.len(),
        slot.0@ == s[i].0@,
    ensures
        unique_keys(s.update(i, slot)),
        slots_map(s.update(i, slot)) == slots_map(s).insert(slot.0@, slot.1@),
{
    let t = s.update(i, slot);
    assert(unique_keys(t)) by {
        assert forall|a: int, b: int| 0 <= a < t.len() && 0 <= b < t.len() && a != b implies t[a].0@ != t[b].0@ by {
            assert(t[a].0@ == s[a].0@);
            assert(t[b].0@ == s[b].0@);
        }
    }
    let m = slots_map(s).insert(slot.0@, slot.1@);
    assert forall|k: Seq<char>| #[trigger] slots_map(t).contains_key(k) == m.contains_key(k) && (
    slots_map(t).contains_key(k) ==> slots_map(t)[k] == m[k]) by {
        if k == slot.0@ {
            lemma_slots_map_index(t, i);
        } else if slots_map(t).contains_key(k) {
            lemma_slots_map_key(t, k);
            let j = choose|j: int| 0 <= j < t.len() && t[j].0@ == k;
            assert(j != i);
            assert(t[j] == s[j]);
            lemma_slots_map_index(t, j);
            lemma_slots_map_index(s, j);
        } else if slots_map(s).contains_key(k) {
            lemma_slots_map_key(s, k);
            let j = choose|j: int| 0 <= j < s.len() && s[j].0@ == k;
            assert(t[j] == s[j]);
            lemma_slots_map_index(t, j);
        }
    }
    assert(slots_map(t) =~= m);
}

/// Removing slot `i` removes its key from the map.
proof fn lemma_slots_map_remove(s: Seq<Slot>, i: int)
    requires
        unique_keys(s),
        0 <= i < s.len(),
    ensures
        unique_keys(s.remove(i)),
        slots_map(s.remove(i)) == slots_map(s).remove(s[i].0@),
{
    let t = s.remove(i);
    let key = s[i].0@;
    assert(unique_keys(t)) by {
        assert forall|a: int, b: int| 0 <= a < t.len() && 0 <= b < t.len() && a != b implies t[a].0@ != t[b].0@ by {
            let sa = if a < i { a } else { a + 1 };
            let sb = if b < i { b } else { b + 1 };
            assert(t[a] == s[sa]);
            assert(t[b] == s[sb]);
        }
    }
    let m = slots_map(s).remove(key);
    assert forall|k: Seq<char>| #[trigger] slots_map(t).contains_key(k) == m.contains_key(k) && (
    slots_map(t).contains_key(k) ==> slots_map(t)[k] == m[k]) by {
        if slots_map(t).contains_key(k) {
            lemma_slots_map_key(t, k);
            let j = choose|j: int| 0 <= j < t.len() && t[j].0@ == k;
            let sj = if j < i { j } else { j + 1 };
            assert(t[j] == s[sj]);
            lemma_slots_map_index(t, j);
            lemma_slots_map_index(s, sj);
        } else if k != key && slots_map(s).contains_key(k) {
            lemma_slots_map_key(s, k);
            let j = choose|j: int| 0 <= j < s.len() && s[j].0@ == k;
            let tj = if j < i { j } else { j - 1 };
            assert(t[tj] == s[j]);
            lemma_slots_map_index(t, tj);
        }
    }
    assert(slots_map(t) =~= m);
}

/// Adding a slot with a new key inserts it into the map.
proof fn lemma_slots_map_push(s: Seq<Slot>, slot: Slot)
    requires
        unique_keys(s),
        forall|i: int| 0 <= i < s.len() ==> s[i].0@ != slot.0@,
    ensures
        unique_keys(s.push(slot)),
        slots_map(s.push(slot)) == slots_map(s).insert(slot.0@, slot.1@),
{
    let t = s.push(slot);
    assert(t.drop_last() =~= s);
    assert(unique_keys(t)) by {
        assert forall|a: int, b: int| 0 <= a < t.len() && 0 <= b < t.len() && a != b implies t[a].0@ != t[b].0@ by {
            if a < s.len() {
                assert(t[a] == s[a]);
            }
            if b < s.len() {
                assert(t[b] == s[b]);
            }
        }
    }
}

// ---------------------------------------------------------------------------
// The cache
// ---------------------------------------------------------------------------

/// The cache key of `(owner, repo)`: `lowercase(owner) + "/" + lowercase(repo)`.
pub open spec fn cache_key(owner: Seq<char>, repo: Seq<char>) -> Seq<char> {
    lower_of(owner) + "/"@ + lower_of(repo)
}

/// The cache key of an ASCII `(owner, repo)`, with only `A` to `Z` lowered.
pub open spec fn ascii_cache_key(owner: Seq<char>, repo: Seq<char>) -> Seq<char> {
    ascii_lower_seq(owner) + "/"@ + ascii_lower_seq(repo)
}

/// For ASCII names the cache key is the ASCII-lowered one.
pub open spec fn ascii_key_agrees(owner: Seq<char>, repo: Seq<char>) -> bool {
    is_ascii_chars(owner) && is_ascii_chars(repo) ==> cache_key(owner, repo) == ascii_cache_key(owner, repo)
}

/// ASCII names that are equal up to case have the same ASCII-lowered key.
pub proof fn lemma_ascii_keys_ignore_case(owner: Seq<char>, repo: Seq<char>, owner2: Seq<char>, repo2: Seq<char>)
    requires
        eq_ignore_ascii_case_spec(owner, owner2),
        eq_ignore_ascii_case_spec(repo, repo2),
    ensures
        ascii_cache_key(owner, repo) == ascii_cache_key(owner2, repo2),
{
    assert forall|i: int| 0 <= i < owner.len() implies ascii_lower(owner[i]) == ascii_lower(owner2[i]) by {
        lemma_ascii_lower_fold(owner[i], owner2[i]);
    }
    assert forall|i: int| 0 <= i < repo.len() implies ascii_lower(repo[i]) == ascii_lower(repo2[i]) by {
        lemma_ascii_lower_fold(repo[i], repo2[i]);
    }
    assert(ascii_lower_seq(owner) =~= ascii_lower_seq(owner2));
    assert(ascii_lower_seq(repo) =~= ascii_lower_seq(repo2));
}

proof fn lemma_ascii_lower_fold(a: char, b: char)
    requires
        ascii_fold(a) == ascii_fold(b),
    ensures
        ascii_lower(a) == ascii_lower(b),
{
    assert(ascii_lower(a) as u32 == ascii_fold(a));
    assert(ascii_lower(b) as u32 == ascii_fold(b));
}

/// Keys are compared without regard to case: after storing `x` under an ASCII
/// `(owner, repo)`, a lookup at the same time of any `(owner2, repo2)` equal to
/// it up to ASCII case yields `x`. The key facts are what the cache's methods
/// guarantee of the names they are given.
pub proof fn lemma_set_then_get_ascii(
    m: Map<Seq<char>, CacheEntry<RepoInfoView>>,
    owner: Seq<char>,
    repo: Seq<char>,
    owner2: Seq<char>,
    repo2: Seq<char>,
    x: RepoInfoView,
    ttl: u64,
    now: u64,
)
    requires
        is_ascii_chars(owner) && is_ascii_chars(repo) && is_ascii_chars(owner2) && is_ascii_chars(repo2),
        ascii_key_agrees(owner, repo),
        ascii_key_agrees(owner2, repo2),
        eq_ignore_ascii_case_spec(owner, owner2),
        eq_ignore_ascii_case_spec(repo, repo2),
    ensures
        get_answer(
            m.insert(cache_key(owner, repo), CacheEntry { data: x, cached_at: now, ttl_seconds: ttl }),
            cache_key(owner2, repo2),
            now,
        ) == Some(x),
{
    lemma_ascii_keys_ignore_case(owner, repo, owner2, repo2);
}

/// The map after `merge`: every key of either map; where both hold a key, the
/// entry with the later `cached_at` wins, and on a tie the receiver's.
pub open spec fn merged(
    a: Map<Seq<char>, CacheEntry<RepoInfoView>>,
    b: Map<Seq<char>, CacheEntry<RepoInfoView>>,
) -> Map<Seq<char>, CacheEntry<RepoInfoView>> {
    Map::new(
        |k: Seq<char>| a.contains_key(k) || b.contains_key(k),
        |k: Seq<char>|
            if b.contains_key(k) && (!a.contains_key(k) || a[k].cached_at < b[k].cached_at) {
                b[k]
            } else {
                a[k]
            },
    )
}

/// The entries of `m` that have not expired at `now`.
pub open spec fn fresh_part(m: Map<Seq<char>, CacheEntry<RepoInfoView>>, now: u64) -> Map<
    Seq<char>,
    CacheEntry<RepoInfoView>,
> {
    Map::new(|k: Seq<char>| m.contains_key(k) && !m[k].expired_at(now), |k: Seq<char>| m[k])
}

/// The position of the first `/` in `s`, if any.
pub open spec fn slash_index(s: Seq<char>) -> Option<int>
    decreases s.len(),
{
    if s.len() == 0 {
        None
    } else if s[0] == '/' {
        Some(0)
    } else {
        match slash_index(s.drop_first()) {
            Some(i) => Some(i + 1),
            None => None,
        }
    }
}

/// `owner/repo` split at its first `/`.
pub open spec fn split_full_name(s: Seq<char>) -> Option<(Seq<char>, Seq<char>)> {
    match slash_index(s) {
        Some(i) => Some((s.subrange(0, i), s.subrange(i + 1, s.len() as int))),
        None => None,
    }
}

/// `m` after each record of `table` whose full name splits as `owner/name`
/// is stored under `(owner, name)` at time `now` with lifetime `ttl`.
pub open spec fn seeded(
    m: Map<Seq<char>, CacheEntry<RepoInfoView>>,
    table: Seq<RepoInfoView>,
    ttl: u64,
    now: u64,
) -> Map<Seq<char>, CacheEntry<RepoInfoView>>
    decreases table.len(),
{
    if table.len() == 0 {
        m
    } else {
        let before = seeded(m, table.drop_last(), ttl, now);
        match split_full_name(table.last().full_name) {
            Some(parts) => before.insert(
                cache_key(parts.0, parts.1),
                CacheEntry { data: table.last(), cached_at: now, ttl_seconds: ttl },
            ),
            None => before,
        }
    }
}

/// Splits `s` at its first `/`.
pub fn split_once_slash(s: &str) -> (r: Option<(String, String)>)
    ensures
        match r {
            Some(p) => split_full_name(s@) == Some((p.0@, p.1@)),
            None => split_full_name(s@) is None,
        },
{
    let cs = chars_of(s);
    let n = cs.len();
    let mut i: usize = 0;
    assert(s@.subrange(0, n as int) =~= s@);
    while i < n
        invariant
            cs@ == s@,
            n == s@.len(),
            i <= n,
            slash_index(s@) == match slash_index(s@.subrange(i as int, n as int)) {
                Some(j) => Some(j + i),
                None => None,
            },
        decreases n - i,
    {
        if cs[i] == '/' {
            let a = chars_slice(&cs, 0, i);
            let b = chars_slice(&cs, i + 1, n);
            return Some((string_from_chars(a.as_slice()), string_from_chars(b.as_slice())));
        }
        assert(s@.subrange(i as int, n as int).drop_first() =~= s@.subrange(i as int + 1, n as int));
        i = i + 1;
    }
    None
}

/// Merging commutes when no key is stored at the same time in both maps: the
/// outcome does not depend on which map receives the other.
pub proof fn lemma_merge_order_independent(
    a: Map<Seq<char>, CacheEntry<RepoInfoView>>,
    b: Map<Seq<char>, CacheEntry<RepoInfoView>>,
)
    requires
        forall|k: Seq<char>| a.contains_key(k) && b.contains_key(k) ==> a[k].cached_at != b[k].cached_at,
    ensures
        merged(a, b) == merged(b, a),
{
    assert(merged(a, b) =~= merged(b, a));
}

/// An entry stored `ttl + 1` seconds before `now` has expired at `now`; one
/// stored at `now` has not, whatever its positive lifetime.
pub proof fn lemma_expiry_boundary<T>(e: CacheEntry<T>, now: u64)
    requires
        e.ttl_seconds > 0,
    ensures
        e.cached_at == now - e.ttl_seconds - 1 ==> e.expired_at(now),
        e.cached_at == now ==> !e.expired_at(now),
{
}

/// Keys are compared without regard to case: after storing `x` under
/// `(owner, repo)`, a lookup at the same time of any `(owner2, repo2)` that
/// lower-cases alike yields `x`.
pub proof fn lemma_set_then_get_ignores_case(
    m: Map<Seq<char>, CacheEntry<RepoInfoView>>,
    owner: Seq<char>,
    repo: Seq<char>,
    owner2: Seq<char>,
    repo2: Seq<char>,
    x: RepoInfoView,
    ttl: u64,
    now: u64,
)
    requires
        lower_of(owner) == lower_of(owner2),
        lower_of(repo) == lower_of(repo2),
    ensures
        get_answer(
            m.insert(cache_key(owner, repo), CacheEntry { data: x, cached_at: now, ttl_seconds: ttl }),
            cache_key(owner2, repo2),
            now,
        ) == Some(x),
{
}

/// What a lookup of `key` in `m` at time `now` yields: the metadata of an
/// entry that is present and not expired.
pub open spec fn get_answer(m: Map<Seq<char>, CacheEntry<RepoInfoView>>, key: Seq<char>, now: u64) -> Option<
    RepoInfoView,
> {
    if m.contains_key(key) && !m[key].expired_at(now) {
        Some(m[key].data)
    } else {
        None
    }
}

/// The view of an optional reference to metadata.
pub open spec fn ref_view(r: Option<&GitHubRepoInfo>) -> Option<RepoInfoView> {
    match r {
        Some(d) => Some(d@),
        None => None,
    }
}

/// In-memory cache of repository metadata.
#[derive(Debug)]
pub struct GitHubCache {
    entries: Vec<Slot>,
    default_ttl: u64,
}

impl View for GitHubCache {
    type V = Map<Seq<char>, CacheEntry<RepoInfoView>>;

    closed spec fn view(&self) -> Map<Seq<char>, CacheEntry<RepoInfoView>> {
        slots_map(self.entries@)
    }
}

impl GitHubCache {
    /// Well-formedness: no two entries share a key.
    pub closed spec fn wf(&self) -> bool {
        unique_keys(self.entries@)
    }

    /// The lifetime given to entries stored without one.
    pub closed spec fn ttl(&self) -> u64 {
        self.default_ttl
    }

    /// An empty cache whose entries live `DEFAULT_TTL_SECONDS`.
    pub fn new() -> (r: Self)
        ensures
            r.wf(),
            r@ == Map::<Seq<char>, CacheEntry<RepoInfoView>>::empty(),
            r.ttl() == DEFAULT_TTL_SECONDS,
    {
        Self::with_ttl(DEFAULT_TTL_SECONDS)
    }

    /// An empty cache whose entries live `ttl_seconds` by default.
    pub fn with_ttl(ttl_seconds: u64) -> (r: Self)
        ensures
            r.wf(),
            r@ == Map::<Seq<char>, CacheEntry<RepoInfoView>>::empty(),
            r.ttl() == ttl_seconds,
    {
        let r = GitHubCache { entries: Vec::new(), default_ttl: ttl_seconds };
        assert(r@ =~= Map::<Seq<char>, CacheEntry<RepoInfoView>>::empty());
        r
    }

    /// The lifetime given to entries stored without one.
    pub fn default_ttl(&self) -> (r: u64)
        requires
            self.wf(),
        ensures
            r == self.ttl(),
    {
        self.default_ttl
    }

    /// The key of `(owner, repo)`.
    fn make_key(owner: &str, repo: &str) -> (r: String)
        ensures
            r@ == cache_key(owner@, repo@),
            ascii_key_agrees(owner@, repo@),
    {
        let o = to_lowercase(owner);
        let p = to_lowercase(repo);
        concat3(o.as_str(), "/", p.as_str())
    }

    /// The position of the slot with this key, if any.
    fn find(&self, key: &String) -> (r: Option<usize>)
        requires
            self.wf(),
        ensures
            match r {
                Some(i) => i < self.entries@.len() && self.entries@[i as int].0@ == key@,
                None => forall|i: int| 0 <= i < self.entries@.len() ==> self.entries@[i].0@ != key@,
            },
    {
        let mut i: usize = 0;
        while i < self.entries.len()
            invariant
                i <= self.entries@.len(),
                forall|j: int| 0 <= j < i ==> self.entries@[j].0@ != key@,
            decreases self.entries@.len() - i,
        {
            if self.entries[i].0 == *key {
                return Some(i);
            }
            i = i + 1;
        }
        None
    }

    /// Stores `entry` under `key`, replacing any entry already there.
    fn put(&mut self, key: String, entry: CacheEntry<GitHubRepoInfo>)
        requires
            old(self).wf(),
        ensures
            final(self).wf(),
            final(self)@ == old(self)@.insert(key@, entry@),
            final(self).ttl() == old(self).ttl(),
    {
        let ghost key_view = key@;
        let ghost entry_view = entry@;
        match self.find(&key) {
            Some(i) => {
                proof {
                    lemma_slots_map_update(self.entries@, i as int, (key, entry));
                }
                self.entries.set(i, (key, entry));
            },
            None => {
                proof {
                    lemma_slots_map_push(self.entries@, (key, entry));
                }
                self.entries.push((key, entry));
            },
        }
    }

    /// The entry stored for `(owner, repo)`, whether expired or not.
    pub fn entry(&self, owner: &str, repo: &str) -> (r: Option<&CacheEntry<GitHubRepoInfo>>)
        requires
            self.wf(),
        ensures
            ascii_key_agrees(owner@, repo@),
            match r {
                Some(e) => self@.contains_key(cache_key(owner@, repo@)) && self@[cache_key(owner@, repo@)] == e@,
                None => !self@.contains_key(cache_key(owner@, repo@)),
            },
    {
        let key = Self::make_key(owner, repo);
        match self.find(&key) {
            Some(i) => {
                proof {
                    lemma_slots_map_index(self.entries@, i as int);
                }
                Some(&self.entries[i].1)
            },
            None => {
                proof {
                    lemma_slots_map_absent(self.entries@, key@);
                }
                None
            },
        }
    }

    /// The metadata of `(owner, repo)` if it is cached and not expired at `now`.
    pub fn get_at(&self, owner: &str, repo: &str, now: u64) -> (r: Option<&GitHubRepoInfo>)
        requires
            self.wf(),
        ensures
            ascii_key_agrees(owner@, repo@),
            ref_view(r) == get_answer(self@, cache_key(owner@, repo@), now),
    {
        match self.entry(owner, repo) {
            Some(e) => {
                if e.is_expired_at(now) {
                    None
                } else {
                    Some(&e.data)
                }
            },
            None => None,
        }
    }

    /// The metadata of `(owner, repo)` if it is cached and not expired by the clock.
    pub fn get(&self, owner: &str, repo: &str) -> (r: Option<&GitHubRepoInfo>)
        requires
            self.wf(),
        ensures
            ascii_key_agrees(owner@, repo@),
            exists|now: u64| ref_view(r) == #[trigger] get_answer(self@, cache_key(owner@, repo@), now),
    {
        let now = now_seconds();
        let r = self.get_at(owner, repo, now);
        assert(ref_view(r) == get_answer(self@, cache_key(owner@, repo@), now));
        r
    }

    /// The metadata of `(owner, repo)`, expired or not, and whether it has
    /// expired at `now`.
    pub fn get_with_stale_at(&self, owner: &str, repo: &str, now: u64) -> (r: Option<(&GitHubRepoInfo, bool)>)
        requires
            self.wf(),
        ensures
            ascii_key_agrees(owner@, repo@),
            match r {
                Some(p) => self@.contains_key(cache_key(owner@, repo@)) && self@[cache_key(
                    owner@,
                    repo@,
                )].data == p.0@ && p.1 == self@[cache_key(owner@, repo@)].expired_at(now),
                None => !self@.contains_key(cache_key(owner@, repo@)),
            },
    {
        match self.entry(owner, repo) {
            Some(e) => Some((&e.data, e.is_expired_at(now))),
            None => None,
        }
    }

    /// The metadata of `(owner, repo)`, expired or not, and whether it has
    /// expired by the clock.
    pub fn get_with_stale(&self, owner: &str, repo: &str) -> (r: Option<(&GitHubRepoInfo, bool)>)
        requires
            self.wf(),
        ensures
            ascii_key_agrees(owner@, repo@),
            match r {
                Some(p) => self@.contains_key(cache_key(owner@, repo@)) && self@[cache_key(
                    owner@,
                    repo@,
                )].data == p.0@,
                None => !self@.contains_key(cache_key(owner@, repo@)),
            },
            match r {
                Some(p) => exists|now: u64| p.1 == #[trigger] self@[cache_key(owner@, repo@)].expired_at(now),
                None => true,
            },
    {
        let now = now_seconds();
        self.get_with_stale_at(owner, repo, now)
    }

    /// Stores `data` for `(owner, repo)` at time `now` with lifetime `ttl_seconds`.
    pub fn set_with_ttl_at(&mut self, owner: &str, repo: &str, data: GitHubRepoInfo, ttl_seconds: u64, now: u64)
        requires
            old(self).wf(),
        ensures
            ascii_key_agrees(owner@, repo@),
            final(self).wf(),
            final(self)@ == old(self)@.insert(
                cache_key(owner@, repo@),
                CacheEntry { data: data@, cached_at: now, ttl_seconds },
            ),
            final(self).ttl() == old(self).ttl(),
    {
        let key = Self::make_key(owner, repo);
        let entry = CacheEntry::new_at(data, ttl_seconds, now);
        self.put(key, entry);
    }

    /// Stores `data` for `(owner, repo)` at time `now` with the default lifetime.
    pub fn set_at(&mut self, owner: &str, repo: &str, data: GitHubRepoInfo, now: u64)
        requires
            old(self).wf(),
        ensures
            ascii_key_agrees(owner@, repo@),
            final(self).wf(),
            final(self)@ == old(self)@.insert(
                cache_key(owner@, repo@),
                CacheEntry { data: data@, cached_at: now, ttl_seconds: old(self).ttl() },
            ),
            final(self).ttl() == old(self).ttl(),
    {
        let ttl = self.default_ttl;
        self.set_with_ttl_at(owner, repo, data, ttl, now);
    }

    /// Stores `data` for `(owner, repo)`, stamped with the clock, with the default lifetime.
    pub fn set(&mut self, owner: &str, repo: &str, data: GitHubRepoInfo)
        requires
            old(self).wf(),
        ensures
            ascii_key_agrees(owner@, repo@),
            final(self).wf(),
            exists|now: u64|
                final(self)@ == #[trigger] stored(old(self)@, cache_key(owner@, repo@), data@, now, old(self).ttl()),
            final(self).ttl() == old(self).ttl(),
    {
        let now = now_seconds();
        let ghost d = data@;
        self.set_at(owner, repo, data, now);
        assert(self@ == stored(old(self)@, cache_key(owner@, repo@), d, now, old(self).ttl()));
    }

    /// Stores `data` for `(owner, repo)`, stamped with the clock, with lifetime `ttl_seconds`.
    pub fn set_with_ttl(&mut self, owner: &str, repo: &str, data: GitHubRepoInfo, ttl_seconds: u64)
        requires
            old(self).wf(),
        ensures
            ascii_key_agrees(owner@, repo@),
            final(self).wf(),
            exists|now: u64|
                final(self)@ == #[trigger] stored(old(self)@, cache_key(owner@, repo@), data@, now, ttl_seconds),
            final(self).ttl() == old(self).ttl(),
    {
        let now = now_seconds();
        let ghost d = data@;
        self.set_with_ttl_at(owner, repo, data, ttl_seconds, now);
        assert(self@ == stored(old(self)@, cache_key(owner@, repo@), d, now, ttl_seconds));
    }

    /// Moves the stored time of the entry for `(owner, repo)` back by `seconds`
    /// (to 0 at the earliest), as if it had been stored that much earlier.
    pub fn backdate(&mut self, owner: &str, repo: &str, seconds: u64)
        requires
            old(self).wf(),
        ensures
            ascii_key_agrees(owner@, repo@),
            final(self).wf(),
            old(self)@.contains_key(cache_key(owner@, repo@)) ==> final(self)@ == old(self)@.insert(
                cache_key(owner@, repo@),
                CacheEntry {
                    cached_at: if old(self)@[cache_key(owner@, repo@)].cached_at > seconds {
                        (old(self)@[cache_key(owner@, repo@)].cached_at - seconds) as u64
                    } else {
                        0
                    },
                    ..old(self)@[cache_key(owner@, repo@)]
                },
            ),
            !old(self)@.contains_key(cache_key(owner@, repo@)) ==> final(self)@ == old(self)@,
            final(self).ttl() == old(self).ttl(),
    {
        let key = Self::make_key(owner, repo);
        match self.find(&key) {
            Some(i) => {
                proof {
                    lemma_slots_map_index(self.entries@, i as int);
                }
                let old_entry = &self.entries[i].1;
                let entry = CacheEntry {
                    data: old_entry.data.clone(),
                    cached_at: old_entry.cached_at.saturating_sub(seconds),
                    ttl_seconds: old_entry.ttl_seconds,
                };
                self.put(key, entry);
            },
            None => {
                proof {
                    lemma_slots_map_absent(self.entries@, key@);
                }
            },
        }
    }

    /// Removes the entry for `(owner, repo)` and returns its metadata.
    pub fn remove(&mut self, owner: &str, repo: &str) -> (r: Option<GitHubRepoInfo>)
        requires
            old(self).wf(),
        ensures
            ascii_key_agrees(owner@, repo@),
            final(self).wf(),
            final(self)@ == old(self)@.remove(cache_key(owner@, repo@)),
            match r {
                Some(d) => old(self)@.contains_key(cache_key(owner@, repo@)) && old(self)@[cache_key(
                    owner@,
                    repo@,
                )].data == d@,
                None => !old(self)@.contains_key(cache_key(owner@, repo@)),
            },
            final(self).ttl() == old(self).ttl(),
    {
        let key = Self::make_key(owner, repo);
        match self.find(&key) {
            Some(i) => {
                proof {
                    lemma_slots_map_index(self.entries@, i as int);
                    lemma_slots_map_remove(self.entries@, i as int);
                }
                let (_, entry) = self.entries.remove(i);
                Some(entry.data)
            },
            None => {
                proof {
                    lemma_slots_map_absent(self.entries@, key@);
                    assert(old(self)@.remove(key@) =~= old(self)@);
                }
                None
            },
        }
    }

    /// Removes every entry.
    pub fn clear(&mut self)
        requires
            old(self).wf(),
        ensures
            final(self).wf(),
            final(self)@ == Map::<Seq<char>, CacheEntry<RepoInfoView>>::empty(),
            final(self).ttl() == old(self).ttl(),
    {
        self.entries = Vec::new();
        assert(self@ =~= Map::<Seq<char>, CacheEntry<RepoInfoView>>::empty());
    }

    /// The number of entries, expired ones included.
    pub fn len(&self) -> (r: usize)
        requires
            self.wf(),
        ensures
            r == self@.len(),
            self@.dom().finite(),
    {
        proof {
            lemma_slots_map_len(self.entries@);
        }
        self.entries.len()
    }

    /// Whether the cache holds no entry at all.
    pub fn is_empty(&self) -> (r: bool)
        requires
            self.wf(),
        ensures
            r == (self@.len() == 0),
    {
        self.len() == 0
    }

    /// Whether an entry for `(owner, repo)` is held, expired or not.
    pub fn has_any(&self, owner: &str, repo: &str) -> (r: bool)
        requires
            self.wf(),
        ensures
            ascii_key_agrees(owner@, repo@),
            r == self@.contains_key(cache_key(owner@, repo@)),
    {
        self.entry(owner, repo).is_some()
    }

    /// Copies of the slots whose entries have not expired at `now`.
    fn fresh_slots(&self, now: u64) -> (r: Vec<Slot>)
        requires
            self.wf(),
        ensures
            unique_keys(r@),
            slots_map(r@) == fresh_part(self@, now),
    {
        let ghost all = self.entries@;
        let mut r: Vec<Slot> = Vec::new();
        let mut i: usize = 0;
        assert(slots_map(r@) =~= fresh_part(slots_map(all.subrange(0, 0)), now));
        while i < self.entries.len()
            invariant
                all == self.entries@,
                unique_keys(all),
                i <= all.len(),
                unique_keys(r@),
                slots_map(r@) == fresh_part(slots_map(all.subrange(0, i as int)), now),
            decreases all.len() - i,
        {
            let ghost pre = all.subrange(0, i as int);
            let ghost next = all.subrange(0, i as int + 1);
            assert(next.drop_last() =~= pre);
            assert(next.last() == all[i as int]);
            let ghost k = all[i as int].0@;
            proof {
                assert forall|j: int| 0 <= j < pre.len() implies pre[j].0@ != k by {
                    assert(pre[j] == all[j]);
                }
                lemma_slots_map_absent(pre, k);
            }
            let slot = &self.entries[i];
            if !slot.1.is_expired_at(now) {
                let copy = (slot.0.clone(), slot.1.duplicate());
                proof {
                    assert forall|j: int| 0 <= j < r@.len() implies r@[j].0@ != k by {
                        lemma_slots_map_index(r@, j);
                    }
                    lemma_slots_map_push(r@, copy);
                }
                r.push(copy);
                assert(slots_map(r@) =~= fresh_part(slots_map(next), now));
            } else {
                assert(slots_map(r@) =~= fresh_part(slots_map(next), now));
            }
            i = i + 1;
        }
        assert(all.subrange(0, all.len() as int) =~= all);
        r
    }

    /// The number of entries that have not expired at `now`.
    pub fn len_valid_at(&self, now: u64) -> (r: usize)
        requires
            self.wf(),
        ensures
            r == fresh_part(self@, now).len(),
    {
        let fresh = self.fresh_slots(now);
        proof {
            lemma_slots_map_len(fresh@);
        }
        fresh.len()
    }

    /// The number of entries that have not expired by the clock.
    pub fn len_valid(&self) -> (r: usize)
        requires
            self.wf(),
        ensures
            exists|now: u64| r == #[trigger] fresh_part(self@, now).len(),
    {
        let now = now_seconds();
        let r = self.len_valid_at(now);
        assert(r == fresh_part(self@, now).len());
        r
    }

    /// Removes every entry that has expired at `now`.
    pub fn cleanup_expired_at(&mut self, now: u64)
        requires
            old(self).wf(),
        ensures
            final(self).wf(),
            final(self)@ == fresh_part(old(self)@, now),
            final(self).ttl() == old(self).ttl(),
    {
        let fresh = self.fresh_slots(now);
        self.entries = fresh;
    }

    /// Removes every entry that has expired by the clock.
    pub fn cleanup_expired(&mut self)
        requires
            old(self).wf(),
        ensures
            final(self).wf(),
            exists|now: u64| final(self)@ == #[trigger] fresh_part(old(self)@, now),
            final(self).ttl() == old(self).ttl(),
    {
        let now = now_seconds();
        self.cleanup_expired_at(now);
        assert(self@ == fresh_part(old(self)@, now));
    }

    /// Adds the entries of `other`: a key held by both keeps the entry with the
    /// later `cached_at`, and on a tie the one already here.
    pub fn merge(&mut self, other: Self)
        requires
            old(self).wf(),
            other.wf(),
        ensures
            final(self).wf(),
            final(self)@ == merged(old(self)@, other@),
            final(self).ttl() == old(self).ttl(),
    {
        let ghost a = self@;
        let ghost theirs = other.entries@;
        let mut j: usize = 0;
        assert(self@ =~= merged(a, slots_map(theirs.subrange(0, 0))));
        while j < other.entries.len()
            invariant
                theirs == other.entries@,
                unique_keys(theirs),
                j <= theirs.len(),
                self.wf(),
                self.ttl() == old(self).ttl(),
                self@ == merged(a, slots_map(theirs.subrange(0, j as int))),
            decreases theirs.len() - j,
        {
            let ghost pre = theirs.subrange(0, j as int);
            let ghost next = theirs.subrange(0, j as int + 1);
            assert(next.drop_last() =~= pre);
            assert(next.last() == theirs[j as int]);
            let ghost k = theirs[j as int].0@;
            proof {
                assert forall|i: int| 0 <= i < pre.len() implies pre[i].0@ != k by {
                    assert(pre[i] == theirs[i]);
                }
                lemma_slots_map_absent(pre, k);
            }
            let key = &other.entries[j].0;
            let incoming = &other.entries[j].1;
            match self.find(key) {
                Some(i) => {
                    proof {
                        lemma_slots_map_index(self.entries@, i as int);
                    }
                    if self.entries[i].1.cached_at < incoming.cached_at {
                        self.put(key.clone(), incoming.duplicate());
                    }
                },
                None => {
                    proof {
                        lemma_slots_map_absent(self.entries@, k);
                    }
                    self.put(key.clone(), incoming.duplicate());
                },
            }
            assert(self@ =~= merged(a, slots_map(next)));
            j = j + 1;
        }
        assert(theirs.subrange(0, theirs.len() as int) =~= theirs);
    }

    /// Stores each bundled repository record under its `owner/name`, all at
    /// time `now`, with the default lifetime.
    pub fn populate_from_static_at(&mut self, now: u64)
        requires
            old(self).wf(),
        ensures
            final(self).wf(),
            final(self)@ == seeded(old(self)@, static_repo_table(), old(self).ttl(), now),
            final(self).ttl() == old(self).ttl(),
    {
        let repos = get_all_repos();
        let ghost table = static_repo_table();
        let ghost start = self@;
        let mut i: usize = 0;
        assert(table.subrange(0, 0) =~= Seq::<RepoInfoView>::empty());
        while i < repos.len()
            invariant
                repo_views(repos@) == table,
                i <= repos@.len(),
                self.wf(),
                self.ttl() == old(self).ttl(),
                self@ == seeded(start, table.subrange(0, i as int), old(self).ttl(), now),
            decreases repos@.len() - i,
        {
            let ghost next = table.subrange(0, i as int + 1);
            assert(next.drop_last() =~= table.subrange(0, i as int));
            assert(next.last() == repos@[i as int]@);
            let repo = &repos[i];
            match split_once_slash(repo.full_name.as_str()) {
                Some((owner, name)) => {
                    self.set_at(owner.as_str(), name.as_str(), repo.clone(), now);
                },
                None => {},
            }
            i = i + 1;
        }
        assert(table.subrange(0, table.len() as int) =~= table);
    }

    /// Stores each bundled repository record under its `owner/name`, stamped
    /// with the clock, with the default lifetime.
    pub fn populate_from_static(&mut self)
        requires
            old(self).wf(),
        ensures
            final(self).wf(),
            exists|now: u64| final(self)@ == #[trigger] seeded(old(self)@, static_repo_table(), old(self).ttl(), now),
            final(self).ttl() == old(self).ttl(),
    {
        let now = now_seconds();
        self.populate_from_static_at(now);
    }

    /// Whether an entry for `(owner, repo)` is held and not expired at `now`.
    pub fn has_fresh_at(&self, owner: &str, repo: &str, now: u64) -> (r: bool)
        requires
            self.wf(),
        ensures
            ascii_key_agrees(owner@, repo@),
            r == get_answer(self@, cache_key(owner@, repo@), now) is Some,
    {
        self.get_at(owner, repo, now).is_some()
    }

    /// Whether an entry for `(owner, repo)` is held and not expired by the clock.
    pub fn has_fresh(&self, owner: &str, repo: &str) -> (r: bool)
        requires
            self.wf(),
        ensures
            ascii_key_agrees(owner@, repo@),
            exists|now: u64| r == #[trigger] get_answer(self@, cache_key(owner@, repo@), now) is Some,
    {
        let now = now_seconds();
        let r = self.has_fresh_at(owner, repo, now);
        assert(r == get_answer(self@, cache_key(owner@, repo@), now) is Some);
        r
    }
}

// ---------------------------------------------------------------------------
// The application's cache
// ---------------------------------------------------------------------------

/// The cache that the application's composition root owns: the bundled
/// repository records, stamped with the clock, with the default lifetime.
pub fn global_cache() -> (r: GitHubCache)
    ensures
        r.wf(),
        r.ttl() == DEFAULT_TTL_SECONDS,
        exists|now: u64| r@ == #[trigger] seeded(Map::empty(), static_repo_table(), DEFAULT_TTL_SECONDS, now),
{
    let mut cache = GitHubCache::new();
    cache.populate_from_static();
    cache
}

/// A copy of the metadata of `(owner, repo)` if `cache` holds it unexpired.
pub fn get_cached_repo(cache: &GitHubCache, owner: &str, repo: &str) -> (r: Option<GitHubRepoInfo>)
    requires
        cache.wf(),
    ensures
        exists|now: u64| opt_info_view(r) == #[trigger] get_answer(cache@, cache_key(owner@, repo@), now),
{
    match cache.get(owner, repo) {
        Some(info) => Some(info.clone()),
        None => None,
    }
}

/// Stores `data` for `(owner, repo)` in `cache`, stamped with the clock.
pub fn set_cached_repo(cache: &mut GitHubCache, owner: &str, repo: &str, data: GitHubRepoInfo)
    requires
        old(cache).wf(),
    ensures
        final(cache).wf(),
        exists|now: u64|
            final(cache)@ == #[trigger] stored(old(cache)@, cache_key(owner@, repo@), data@, now, old(cache).ttl()),
{
    cache.set(owner, repo, data);
}

/// `m` with `data` stored under `key` at time `now` with lifetime `ttl`.
pub open spec fn stored(
    m: Map<Seq<char>, CacheEntry<RepoInfoView>>,
    key: Seq<char>,
    data: RepoInfoView,
    now: u64,
    ttl: u64,
) -> Map<Seq<char>, CacheEntry<RepoInfoView>> {
    m.insert(key, CacheEntry { data, cached_at: now, ttl_seconds: ttl })
}

/// The view of optional metadata.
pub open spec fn opt_info_view(r: Option<GitHubRepoInfo>) -> Option<RepoInfoView> {
    match r {
        Some(d) => Some(d@),
        None => None,
    }
}

// ---------------------------------------------------------------------------
// Persistence as JSON
// ---------------------------------------------------------------------------

/// A JSON string, or `null` for `None`.
pub open spec fn opt_str_doc(s: Option<Seq<char>>) -> JsonView {
    match s {
        Some(x) => JsonView::Str(x),
        None => JsonView::Null,
    }
}

/// The members of the persisted form of repository metadata.
pub open spec fn repo_members(i: RepoInfoView) -> Seq<(Seq<char>, JsonView)> {
    seq![
        ("name"@, JsonView::Str(i.name)),
        ("full_name"@, JsonView::Str(i.full_name)),
        ("description"@, opt_str_doc(i.description)),
        ("homepage"@, opt_str_doc(i.homepage)),
        ("language"@, opt_str_doc(i.language)),
        ("stargazers_count"@, JsonView::Uint(i.stargazers_count as u64)),
        ("forks_count"@, JsonView::Uint(i.forks_count as u64)),
        ("fork"@, JsonView::Bool(i.fork)),
        ("archived"@, JsonView::Bool(i.archived)),
        ("topics"@, JsonView::Array(i.topics.map_values(|t: Seq<char>| JsonView::Str(t)))),
        ("html_url"@, JsonView::Str(i.html_url)),
    ]
}

/// The persisted form of repository metadata.
pub open spec fn repo_doc(i: RepoInfoView) -> JsonView {
    JsonView::Object(members_map(repo_members(i)))
}

/// The persisted form of a cache entry.
pub open spec fn entry_doc(e: CacheEntry<RepoInfoView>) -> JsonView {
    JsonView::Object(
        members_map(
            seq![
                ("data"@, repo_doc(e.data)),
                ("cached_at"@, JsonView::Uint(e.cached_at)),
                ("ttl_seconds"@, JsonView::Uint(e.ttl_seconds)),
            ],
        ),
    )
}

/// The persisted form of a cache: `{"entries": {key: entry}, "default_ttl": n}`.
pub open spec fn cache_doc(m: Map<Seq<char>, CacheEntry<RepoInfoView>>, ttl: u64) -> JsonView {
    JsonView::Object(
        members_map(
            seq![
                ("entries"@, JsonView::Object(m.map_values(|e: CacheEntry<RepoInfoView>| entry_doc(e)))),
                ("default_ttl"@, JsonView::Uint(ttl)),
            ],
        ),
    )
}

/// A required string member.
pub open spec fn req_str(d: JsonView, key: Seq<char>) -> Option<Seq<char>> {
    match member(d, key) {
        Some(JsonView::Str(s)) => Some(s),
        _ => None,
    }
}

/// An optional string member: absent or `null` is `None`; another kind is an error.
pub open spec fn opt_str(d: JsonView, key: Seq<char>) -> Option<Option<Seq<char>>> {
    match member(d, key) {
        None => Some(None),
        Some(JsonView::Null) => Some(None),
        Some(JsonView::Str(s)) => Some(Some(s)),
        _ => None,
    }
}

/// A count member: 0 when absent, else an integer that fits in a `u32`.
pub open spec fn count_member(d: JsonView, key: Seq<char>) -> Option<u32> {
    match member(d, key) {
        None => Some(0),
        Some(JsonView::Uint(n)) => if n <= u32::MAX {
            Some(n as u32)
        } else {
            None
        },
        _ => None,
    }
}

/// A flag member: `false` when absent.
pub open spec fn flag_member(d: JsonView, key: Seq<char>) -> Option<bool> {
    match member(d, key) {
        None => Some(false),
        Some(JsonView::Bool(b)) => Some(b),
        _ => None,
    }
}

/// The texts of an array of strings.
pub open spec fn all_strings(items: Seq<JsonView>) -> Option<Seq<Seq<char>>> {
    if forall|i: int| 0 <= i < items.len() ==> (#[trigger] items[i]) is Str {
        Some(items.map_values(|x: JsonView| x->Str_0))
    } else {
        None
    }
}

/// A member that is a list of strings: empty when absent.
pub open spec fn strings_member(d: JsonView, key: Seq<char>) -> Option<Seq<Seq<char>>> {
    match member(d, key) {
        None => Some(Seq::empty()),
        Some(JsonView::Array(items)) => all_strings(items),
        _ => None,
    }
}

/// Repository metadata from its persisted form: `name`, `full_name` and
/// `html_url` are required; the rest default to none, zero, false or empty.
pub open spec fn repo_of_doc(d: JsonView) -> Option<RepoInfoView> {
    if req_str(d, "name"@) is Some && req_str(d, "full_name"@) is Some && req_str(d, "html_url"@) is Some
        && opt_str(d, "description"@) is Some && opt_str(d, "homepage"@) is Some && opt_str(d, "language"@) is Some
        && count_member(d, "stargazers_count"@) is Some && count_member(d, "forks_count"@) is Some
        && flag_member(d, "fork"@) is Some && flag_member(d, "archived"@) is Some && strings_member(d, "topics"@) is Some {
        Some(
            RepoInfoView {
                name: req_str(d, "name"@)->0,
                full_name: req_str(d, "full_name"@)->0,
                description: opt_str(d, "description"@)->0,
                homepage: opt_str(d, "homepage"@)->0,
                language: opt_str(d, "language"@)->0,
                stargazers_count: count_member(d, "stargazers_count"@)->0,
                forks_count: count_member(d, "forks_count"@)->0,
                fork: flag_member(d, "fork"@)->0,
                archived: flag_member(d, "archived"@)->0,
                topics: strings_member(d, "topics"@)->0,
                html_url: req_str(d, "html_url"@)->0,
            },
        )
    } else {
        None
    }
}

/// A cache entry from its persisted form; every member is required.
pub open spec fn entry_of_doc(d: JsonView) -> Option<CacheEntry<RepoInfoView>> {
    match (member(d, "data"@), member(d, "cached_at"@), member(d, "ttl_seconds"@)) {
        (Some(data), Some(JsonView::Uint(c)), Some(JsonView::Uint(t))) => match repo_of_doc(data) {
            Some(info) => Some(CacheEntry { data: info, cached_at: c, ttl_seconds: t }),
            None => None,
        },
        _ => None,
    }
}

/// The entries an `entries` object describes, if every member is an entry.
pub open spec fn entries_of(m: Map<Seq<char>, JsonView>) -> Option<Map<Seq<char>, CacheEntry<RepoInfoView>>> {
    if forall|k: Seq<char>| m.contains_key(k) ==> (#[trigger] entry_of_doc(m[k])) is Some {
        Some(Map::new(|k: Seq<char>| m.contains_key(k), |k: Seq<char>| entry_of_doc(m[k])->0))
    } else {
        None
    }
}

/// The lifetime a cache document gives: `default_ttl`, or `DEFAULT_TTL_SECONDS` when absent.
pub open spec fn ttl_of_doc(d: JsonView) -> Option<u64> {
    match member(d, "default_ttl"@) {
        None => Some(DEFAULT_TTL_SECONDS),
        Some(JsonView::Uint(n)) => Some(n),
        _ => None,
    }
}

/// The entries and default lifetime a cache document describes, if it has that shape.
pub open spec fn cache_of_doc(d: JsonView) -> Option<(Map<Seq<char>, CacheEntry<RepoInfoView>>, u64)> {
    match (ttl_of_doc(d), member(d, "entries"@)) {
        (Some(ttl), Some(JsonView::Object(m))) => match entries_of(m) {
            Some(entries) => Some((entries, ttl)),
            None => None,
        },
        _ => None,
    }
}

/// The entries and default lifetime a text describes, if it is JSON of a cache's shape.
pub open spec fn cache_of_text(text: Seq<char>) -> Option<(Map<Seq<char>, CacheEntry<RepoInfoView>>, u64)> {
    match parsed_json(text) {
        Some(d) => cache_of_doc(d),
        None => None,
    }
}

proof fn lemma_repo_round_trip(i: RepoInfoView)
    ensures
        repo_of_doc(repo_doc(i)) == Some(i),
        integral_within(repo_doc(i), 3),
{
    reveal_strlit("name");
    reveal_strlit("full_name");
    reveal_strlit("description");
    reveal_strlit("homepage");
    reveal_strlit("language");
    reveal_strlit("stargazers_count");
    reveal_strlit("forks_count");
    reveal_strlit("fork");
    reveal_strlit("archived");
    reveal_strlit("topics");
    reveal_strlit("html_url");
    let s = repo_members(i);
    assert forall|a: int, b: int| 0 <= a < b < s.len() implies s[a].0 != s[b].0 by {
        assert(s[a].0.len() != s[b].0.len() || s[a].0[0] != s[b].0[0] || s[a].0[1] != s[b].0[1]);
    }
    let m = members_map(s);
    assert forall|j: int| 0 <= j < s.len() implies m.contains_key(s[j].0) && m[s[j].0] == s[j].1 by {
        lemma_members_map_index(s, j);
    }
    let d = repo_doc(i);
    assert(s[0].0 == "name"@);
    assert(member(d, "name"@) == Some(s[0].1));
    assert(member(d, "full_name"@) == Some(s[1].1));
    assert(member(d, "description"@) == Some(s[2].1));
    assert(member(d, "homepage"@) == Some(s[3].1));
    assert(member(d, "language"@) == Some(s[4].1));
    assert(member(d, "stargazers_count"@) == Some(s[5].1));
    assert(member(d, "forks_count"@) == Some(s[6].1));
    assert(member(d, "fork"@) == Some(s[7].1));
    assert(member(d, "archived"@) == Some(s[8].1));
    assert(member(d, "topics"@) == Some(s[9].1));
    assert(member(d, "html_url"@) == Some(s[10].1));
    let items = i.topics.map_values(|t: Seq<char>| JsonView::Str(t));
    assert(all_strings(items) == Some(i.topics)) by {
        assert(items.map_values(|x: JsonView| x->Str_0) =~= i.topics);
    }
    assert(repo_of_doc(d) == Some(i));
    assert forall|k: Seq<char>| m.contains_key(k) implies integral_within(#[trigger] m[k], 2) by {
        lemma_members_map_key(s, k);
        let j = choose|j: int| 0 <= j < s.len() && s[j].0 == k;
        if j == 9 {
            assert forall|t: int| 0 <= t < items.len() implies integral_within(#[trigger] items[t], 1) by {}
        }
    }
}

/// Every member name of `members_map(s)` is the name of some member of `s`.
proof fn lemma_members_map_key(s: Seq<(Seq<char>, JsonView)>, k: Seq<char>)
    requires
        members_map(s).contains_key(k),
    ensures
        exists|j: int| 0 <= j < s.len() && s[j].0 == k,
    decreases s.len(),
{
    if s.len() > 0 && s.last().0 != k {
        let p = s.drop_last();
        lemma_members_map_key(p, k);
        let j = choose|j: int| 0 <= j < p.len() && p[j].0 == k;
        assert(s[j] == p[j]);
    } else if s.len() > 0 {
        assert(s[s.len() - 1].0 == k);
    }
}

proof fn lemma_entry_round_trip(e: CacheEntry<RepoInfoView>)
    ensures
        entry_of_doc(entry_doc(e)) == Some(e),
        integral_within(entry_doc(e), 4),
{
    reveal_strlit("data");
    reveal_strlit("cached_at");
    reveal_strlit("ttl_seconds");
    lemma_repo_round_trip(e.data);
    let s = seq![
        ("data"@, repo_doc(e.data)),
        ("cached_at"@, JsonView::Uint(e.cached_at)),
        ("ttl_seconds"@, JsonView::Uint(e.ttl_seconds)),
    ];
    assert forall|a: int, b: int| 0 <= a < b < s.len() implies s[a].0 != s[b].0 by {
        assert(s[a].0.len() != s[b].0.len());
    }
    let m = members_map(s);
    assert forall|j: int| 0 <= j < s.len() implies m.contains_key(s[j].0) && m[s[j].0] == s[j].1 by {
        lemma_members_map_index(s, j);
    }
    let d = entry_doc(e);
    assert(member(d, "data"@) == Some(s[0].1));
    assert(member(d, "cached_at"@) == Some(s[1].1));
    assert(member(d, "ttl_seconds"@) == Some(s[2].1));
    assert forall|k: Seq<char>| m.contains_key(k) implies integral_within(#[trigger] m[k], 3) by {
        lemma_members_map_key(s, k);
    }
}

/// Saving and loading give the cache back: the persisted form of any entries
/// and default lifetime describes exactly those entries and that lifetime.
pub proof fn lemma_cache_json_round_trip(m: Map<Seq<char>, CacheEntry<RepoInfoView>>, ttl: u64)
    ensures
        cache_of_doc(cache_doc(m, ttl)) == Some((m, ttl)),
        integral_within(cache_doc(m, ttl), round_trip_depth()),
{
    reveal_strlit("entries");
    reveal_strlit("default_ttl");
    let em = m.map_values(|e: CacheEntry<RepoInfoView>| entry_doc(e));
    let s = seq![("entries"@, JsonView::Object(em)), ("default_ttl"@, JsonView::Uint(ttl))];
    assert(s[0].0 != s[1].0) by {
        assert(s[0].0.len() != s[1].0.len());
    }
    lemma_members_map_index(s, 0);
    lemma_members_map_index(s, 1);
    let d = cache_doc(m, ttl);
    assert(member(d, "entries"@) == Some(JsonView::Object(em)));
    assert(member(d, "default_ttl"@) == Some(JsonView::Uint(ttl)));
    assert forall|k: Seq<char>| em.contains_key(k) implies (#[trigger] entry_of_doc(em[k])) is Some && entry_of_doc(em[k])->0 == m[k] by {
        lemma_entry_round_trip(m[k]);
    }
    assert(Map::new(|k: Seq<char>| em.contains_key(k), |k: Seq<char>| entry_of_doc(em[k])->0) =~= m);
    assert forall|k: Seq<char>| em.contains_key(k) implies integral_within(#[trigger] em[k], 4) by {
        lemma_entry_round_trip(m[k]);
    }
    let top = members_map(s);
    assert forall|k: Seq<char>| top.contains_key(k) implies integral_within(#[trigger] top[k], 5) by {
        lemma_members_map_key(s, k);
    }
    assert(integral_within(d, 6));
    lemma_integral_within_deeper(d, 6, round_trip_depth());
}

/// A JSON string, or `null` for `None`.
fn json_opt_string(s: &Option<String>) -> (r: serde_json::Value)
    ensures
        json_of(r) == opt_str_doc(opt_view(*s)),
{
    match s {
        Some(v) => json_string(v.clone()),
        None => json_null(),
    }
}

/// The persisted form of repository metadata.
fn repo_to_json(info: &GitHubRepoInfo) -> (r: serde_json::Value)
    ensures
        json_of(r) == repo_doc(info@),
{
    let mut topics: Vec<serde_json::Value> = Vec::new();
    let mut i: usize = 0;
    while i < info.topics.len()
        invariant
            i <= info.topics@.len(),
            topics@.map_values(|x: serde_json::Value| json_of(x)) == info@.topics.subrange(0, i as int).map_values(
                |t: Seq<char>| JsonView::Str(t),
            ),
        decreases info.topics@.len() - i,
    {
        let ghost before = topics@;
        let item = json_string(info.topics[i].clone());
        assert(info@.topics[i as int] == info.topics@[i as int]@);
        assert(info@.topics.subrange(0, i as int + 1) =~= info@.topics.subrange(0, i as int).push(info@.topics[i as int]));
        topics.push(item);
        assert(topics@.map_values(|x: serde_json::Value| json_of(x)) =~= before.map_values(|x: serde_json::Value| json_of(x)).push(
            JsonView::Str(info@.topics[i as int]),
        ));
        assert(topics@.map_values(|x: serde_json::Value| json_of(x)) =~= info@.topics.subrange(0, i as int + 1).map_values(
            |t: Seq<char>| JsonView::Str(t),
        ));
        i = i + 1;
    }
    assert(info@.topics.subrange(0, info@.topics.len() as int) =~= info@.topics);
    let mut m: Vec<(String, serde_json::Value)> = Vec::new();
    m.push(("name".to_owned(), json_string(info.name.clone())));
    m.push(("full_name".to_owned(), json_string(info.full_name.clone())));
    m.push(("description".to_owned(), json_opt_string(&info.description)));
    m.push(("homepage".to_owned(), json_opt_string(&info.homepage)));
    m.push(("language".to_owned(), json_opt_string(&info.language)));
    m.push(("stargazers_count".to_owned(), json_u64(info.stargazers_count as u64)));
    m.push(("forks_count".to_owned(), json_u64(info.forks_count as u64)));
    m.push(("fork".to_owned(), json_bool(info.fork)));
    m.push(("archived".to_owned(), json_bool(info.archived)));
    m.push(("topics".to_owned(), json_array(topics)));
    m.push(("html_url".to_owned(), json_string(info.html_url.clone())));
    assert(member_views(m@) =~= repo_members(info@));
    json_object(m)
}

/// A required string member.
fn required_string(obj: &serde_json::Value, key: &str) -> (r: Option<String>)
    ensures
        opt_view(r) == req_str(json_of(*obj), key@),
{
    match json_get(obj, key) {
        Some(v) => json_as_string(v),
        None => None,
    }
}

/// An optional string member: absent or `null` is `None`; another kind is an error.
fn optional_string(obj: &serde_json::Value, key: &str) -> (r: Result<Option<String>, ()>)
    ensures
        match r {
            Ok(o) => opt_str(json_of(*obj), key@) == Some(opt_view(o)),
            Err(_) => opt_str(json_of(*obj), key@) is None,
        },
{
    match json_get(obj, key) {
        None => Ok(None),
        Some(v) => {
            if json_is_null(v) {
                Ok(None)
            } else {
                match json_as_string(v) {
                    Some(s) => Ok(Some(s)),
                    None => Err(()),
                }
            }
        },
    }
}

/// A count member that is 0 when absent and must fit in a `u32`.
fn count_or_zero(obj: &serde_json::Value, key: &str) -> (r: Result<u32, ()>)
    ensures
        match r {
            Ok(n) => count_member(json_of(*obj), key@) == Some(n),
            Err(_) => count_member(json_of(*obj), key@) is None,
        },
{
    match json_get(obj, key) {
        None => Ok(0),
        Some(v) => match json_as_u64(v) {
            Some(n) => if n <= u32::MAX as u64 {
                Ok(n as u32)
            } else {
                Err(())
            },
            None => Err(()),
        },
    }
}

/// A flag member that is `false` when absent.
fn flag_or_false(obj: &serde_json::Value, key: &str) -> (r: Result<bool, ()>)
    ensures
        match r {
            Ok(b) => flag_member(json_of(*obj), key@) == Some(b),
            Err(_) => flag_member(json_of(*obj), key@) is None,
        },
{
    match json_get(obj, key) {
        None => Ok(false),
        Some(v) => match json_as_bool(v) {
            Some(b) => Ok(b),
            None => Err(()),
        },
    }
}

/// A list of strings that is empty when absent.
fn strings_or_empty(obj: &serde_json::Value, key: &str) -> (r: Result<Vec<String>, ()>)
    ensures
        match r {
            Ok(v) => strings_member(json_of(*obj), key@) == Some(string_views(v@)),
            Err(_) => strings_member(json_of(*obj), key@) is None,
        },
{
    match json_get(obj, key) {
        None => Ok(Vec::new()),
        Some(v) => match json_as_array(v) {
            Some(items) => {
                let ghost iv = items@.map_values(|x: serde_json::Value| json_of(x));
                assert(member(json_of(*obj), key@) == Some(JsonView::Array(iv)));
                let mut out: Vec<String> = Vec::new();
                let mut i: usize = 0;
                while i < items.len()
                    invariant
                        i <= items@.len(),
                        iv == items@.map_values(|x: serde_json::Value| json_of(x)),
                        member(json_of(*obj), key@) == Some(JsonView::Array(iv)),
                        forall|j: int| 0 <= j < i ==> (#[trigger] iv[j]) is Str,
                        string_views(out@) == iv.subrange(0, i as int).map_values(|x: JsonView| x->Str_0),
                    decreases items@.len() - i,
                {
                    assert(iv[i as int] == json_of(items@[i as int]));
                    match json_as_string(&items[i]) {
                        Some(s) => {
                            let ghost before = out@;
                            assert(s@ == iv[i as int]->Str_0);
                            assert(iv.subrange(0, i as int + 1) =~= iv.subrange(0, i as int).push(iv[i as int]));
                            out.push(s);
                            assert(string_views(out@) =~= string_views(before).push(iv[i as int]->Str_0));
                            assert(string_views(out@) =~= iv.subrange(0, i as int + 1).map_values(|x: JsonView| x->Str_0));
                        },
                        None => {
                            assert(!(iv[i as int] is Str));
                            return Err(());
                        },
                    }
                    i = i + 1;
                }
                assert(iv.subrange(0, iv.len() as int) =~= iv);
                Ok(out)
            },
            None => Err(()),
        },
    }
}

/// Repository metadata from its persisted form.
fn repo_from_json(v: &serde_json::Value) -> (r: Option<GitHubRepoInfo>)
    ensures
        opt_info_view(r) == repo_of_doc(json_of(*v)),
{
    let name = required_string(v, "name")?;
    let full_name = required_string(v, "full_name")?;
    let html_url = required_string(v, "html_url")?;
    let description = optional_string(v, "description").ok()?;
    let homepage = optional_string(v, "homepage").ok()?;
    let language = optional_string(v, "language").ok()?;
    let stargazers_count = count_or_zero(v, "stargazers_count").ok()?;
    let forks_count = count_or_zero(v, "forks_count").ok()?;
    let fork = flag_or_false(v, "fork").ok()?;
    let archived = flag_or_false(v, "archived").ok()?;
    let topics = strings_or_empty(v, "topics").ok()?;
    Some(GitHubRepoInfo {
        name,
        full_name,
        description,
        homepage,
        language,
        stargazers_count,
        forks_count,
        fork,
        archived,
        topics,
        html_url,
    })
}

/// The view of an optional cache entry.
pub open spec fn opt_entry_view(r: Option<CacheEntry<GitHubRepoInfo>>) -> Option<CacheEntry<RepoInfoView>> {
    match r {
        Some(e) => Some(e@),
        None => None,
    }
}

/// A cache entry from its persisted form.
fn entry_from_json(v: &serde_json::Value) -> (r: Option<CacheEntry<GitHubRepoInfo>>)
    ensures
        opt_entry_view(r) == entry_of_doc(json_of(*v)),
{
    let data = repo_from_json(json_get(v, "data")?)?;
    let cached_at = json_as_u64(json_get(v, "cached_at")?)?;
    let ttl_seconds = json_as_u64(json_get(v, "ttl_seconds")?)?;
    Some(CacheEntry { data, cached_at, ttl_seconds })
}

/// Repository metadata from a GitHub API response body: `name`, `full_name`
/// and `html_url` are required; the other fields default to none, zero, false
/// or empty. Fails on text that is not JSON or does not have that shape.
pub fn repo_info_from_json(json: &str) -> (r: Result<GitHubRepoInfo, serde_json::Error>)
    ensures
        match r {
            Ok(info) => parsed_json(json@) is Some && repo_of_doc(parsed_json(json@)->0) == Some(info@),
            Err(_) => parsed_json(json@) is None || repo_of_doc(parsed_json(json@)->0) is None,
        },
{
    let doc = match parse_json(json) {
        Ok(d) => d,
        Err(e) => return Err(e),
    };
    match repo_from_json(&doc) {
        Some(info) => Ok(info),
        None => Err(json_schema_error("malformed repository metadata")),
    }
}

impl GitHubCache {
    /// The cache as indented JSON: `{"entries": {key: {"data", "cached_at",
    /// "ttl_seconds"}}, "default_ttl": n}`. Reading the text back gives this
    /// cache's entries and default lifetime.
    pub fn to_json(&self) -> (r: Result<String, serde_json::Error>)
        requires
            self.wf(),
        ensures
            r is Ok,
            cache_of_text(r->Ok_0@) == Some((self@, self.ttl())),
    {
        let ghost all = self.entries@;
        let mut members: Vec<(String, serde_json::Value)> = Vec::new();
        let mut i: usize = 0;
        assert(members_map(member_views(members@)) =~= slots_map(all.subrange(0, 0)).map_values(
            |e: CacheEntry<RepoInfoView>| entry_doc(e),
        ));
        while i < self.entries.len()
            invariant
                all == self.entries@,
                i <= all.len(),
                members_map(member_views(members@)) == slots_map(all.subrange(0, i as int)).map_values(
                    |e: CacheEntry<RepoInfoView>| entry_doc(e),
                ),
            decreases all.len() - i,
        {
            let slot = &self.entries[i];
            let mut e: Vec<(String, serde_json::Value)> = Vec::new();
            e.push(("data".to_owned(), repo_to_json(&slot.1.data)));
            e.push(("cached_at".to_owned(), json_u64(slot.1.cached_at)));
            e.push(("ttl_seconds".to_owned(), json_u64(slot.1.ttl_seconds)));
            assert(member_views(e@) =~= seq![
                ("data"@, repo_doc(slot.1.data@)),
                ("cached_at"@, JsonView::Uint(slot.1.cached_at)),
                ("ttl_seconds"@, JsonView::Uint(slot.1.ttl_seconds)),
            ]);
            let value = json_object(e);
            let ghost before = member_views(members@);
            members.push((slot.0.clone(), value));
            let ghost next = all.subrange(0, i as int + 1);
            assert(next.drop_last() =~= all.subrange(0, i as int));
            assert(member_views(members@).drop_last() =~= before);
            assert(members_map(member_views(members@)) =~= slots_map(next).map_values(
                |e: CacheEntry<RepoInfoView>| entry_doc(e),
            ));
            i = i + 1;
        }
        assert(all.subrange(0, all.len() as int) =~= all);
        let entries_value = json_object(members);
        let mut top: Vec<(String, serde_json::Value)> = Vec::new();
        top.push(("entries".to_owned(), entries_value));
        top.push(("default_ttl".to_owned(), json_u64(self.default_ttl)));
        assert(member_views(top@) =~= seq![
            ("entries"@, JsonView::Object(self@.map_values(|e: CacheEntry<RepoInfoView>| entry_doc(e)))),
            ("default_ttl"@, JsonView::Uint(self.ttl())),
        ]);
        let doc = json_object(top);
        proof {
            lemma_cache_json_round_trip(self@, self.ttl());
        }
        json_to_pretty(&doc)
    }

    /// A cache from the JSON that [`GitHubCache::to_json`] writes; a missing
    /// `default_ttl` is `DEFAULT_TTL_SECONDS`. Fails exactly on text that is
    /// not JSON or does not have that shape.
    pub fn from_json(json: &str) -> (r: Result<Self, serde_json::Error>)
        ensures
            match r {
                Ok(c) => c.wf() && cache_of_text(json@) == Some((c@, c.ttl())),
                Err(_) => cache_of_text(json@) is None,
            },
    {
        let doc = match parse_json(json) {
            Ok(d) => d,
            Err(e) => return Err(e),
        };
        let ghost d = json_of(doc);
        let default_ttl = match json_get(&doc, "default_ttl") {
            None => DEFAULT_TTL_SECONDS,
            Some(v) => match json_as_u64(v) {
                Some(n) => n,
                None => return Err(json_schema_error("default_ttl must be an unsigned integer")),
            },
        };
        assert(ttl_of_doc(d) == Some(default_ttl));
        let members = match json_get(&doc, "entries") {
            Some(v) => match json_members(v) {
                Some(m) => m,
                None => return Err(json_schema_error("entries must be an object")),
            },
            None => return Err(json_schema_error("missing field `entries`")),
        };
        let ghost m = member(d, "entries"@)->0->Object_0;
        assert(member(d, "entries"@) == Some(JsonView::Object(m)));
        let mut cache = GitHubCache::with_ttl(default_ttl);
        let mut i: usize = 0;
        assert(cache@ =~= Map::new(
            |k: Seq<char>| exists|j: int| 0 <= j < 0 && members@[j].0@ == k,
            |k: Seq<char>| entry_of_doc(m[k])->0,
        ));
        while i < members.len()
            invariant
                i <= members@.len(),
                parsed_json(json@) == Some(d),
                ttl_of_doc(d) == Some(default_ttl),
                member(d, "entries"@) == Some(JsonView::Object(m)),
                cache.wf(),
                cache.ttl() == default_ttl,
                forall|j: int| 0 <= j < members@.len() ==> m.contains_key(#[trigger] members@[j].0@) && m[members@[j].0@]
                    == json_of(members@[j].1),
                forall|j: int| 0 <= j < i ==> (#[trigger] entry_of_doc(m[members@[j].0@])) is Some,
                cache@ == Map::new(
                    |k: Seq<char>| exists|j: int| 0 <= j < i && members@[j].0@ == k,
                    |k: Seq<char>| entry_of_doc(m[k])->0,
                ),
            decreases members@.len() - i,
        {
            let ghost key = members@[i as int].0@;
            match entry_from_json(&members[i].1) {
                Some(entry) => {
                    let ghost old_map = cache@;
                    cache.put(members[i].0.clone(), entry);
                    assert forall|k: Seq<char>|
                        #![trigger cache@.contains_key(k)]
                        cache@.contains_key(k) == (exists|j: int| 0 <= j < i + 1 && members@[j].0@ == k) by {
                        if k == key {
                            assert(members@[i as int].0@ == k);
                        } else if exists|j: int| 0 <= j < i + 1 && members@[j].0@ == k {
                            let j = choose|j: int| 0 <= j < i + 1 && members@[j].0@ == k;
                            assert(j < i);
                        }
                    }
                    assert(cache@ =~= Map::new(
                        |k: Seq<char>| exists|j: int| 0 <= j < i + 1 && members@[j].0@ == k,
                        |k: Seq<char>| entry_of_doc(m[k])->0,
                    ));
                },
                None => {
                    assert(m.contains_key(members@[i as int].0@));
                    assert(!(entry_of_doc(m[key]) is Some));
                    assert(entries_of(m) is None);
                    return Err(json_schema_error("malformed cache entry"));
                },
            }
            i = i + 1;
        }
        assert forall|k: Seq<char>| m.contains_key(k) implies (#[trigger] entry_of_doc(m[k])) is Some && (exists|j: int|
            0 <= j < members@.len() && members@[j].0@ == k) by {
            let j = choose|j: int| 0 <= j < members@.len() && members@[j].0@ == k;
            assert(entry_of_doc(m[members@[j].0@]) is Some);
        }
        assert(cache@ =~= Map::new(|k: Seq<char>| m.contains_key(k), |k: Seq<char>| entry_of_doc(m[k])->0));
        Ok(cache)
    }

    /// The cache that `json` describes, or an empty cache with the default
    /// lifetime when the text is not JSON of a cache's shape.
    pub fn load_or_empty(json: &str) -> (r: Self)
        ensures
            r.wf(),
            match cache_of_text(json@) {
                Some(p) => r@ == p.0 && r.ttl() == p.1,
                None => r@ == Map::<Seq<char>, CacheEntry<RepoInfoView>>::empty() && r.ttl() == DEFAULT_TTL_SECONDS,
            },
    {
        match Self::from_json(json) {
            Ok(c) => c,
            Err(_) => Self::new(),
        }
    }
}

} // verus!
