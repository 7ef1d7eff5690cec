use vstd::prelude::*;

verus! {

/// One live session: its opaque identifier and its creation time in seconds.
pub struct Session {
    pub id: String,
    pub created_at: i64,
}

/// The registry of live sessions, keyed by identifier.
pub struct AppState {
    sessions: Vec<Session>,
}

/// How long a session lives, in seconds.
pub const SESSION_TTL_SECONDS: i64 = 7200;

/// How often expired sessions are looked for, in seconds.
pub const CLEANUP_PERIOD_SECONDS: u64 = 300;

/// How many fresh identifiers `new_session` draws before it gives up.
pub const ID_ATTEMPTS: u32 = 32;

/// The map from identifier to creation time that a list of sessions stands for.
pub open spec fn entries_map(s: Seq<Session>) -> Map<Seq<char>, i64>
    decreases s.len(),
{
    if s.len() == 0 {
        Map::empty()
    } else {
        entries_map(s.drop_last()).insert(s.last().id@, s.last().created_at)
    }
}

/// No identifier occurs twice.
pub open spec fn ids_unique(s: Seq<Session>) -> bool {
    forall|i: int, j: int| 0 <= i < j < s.len() ==> s[i].id@ != s[j].id@
}

/// A session created at `created_at` has outlived `ttl` at time `now`.
pub open spec fn expired(created_at: i64, now: i64, ttl: i64) -> bool {
    now - created_at > ttl
}

/// The identifiers that have outlived `ttl` at time `now`.
pub open spec fn expired_ids(m: Map<Seq<char>, i64>, now: i64, ttl: i64) -> Set<Seq<char>> {
    m.dom().filter(|k: Seq<char>| expired(m[k], now, ttl))
}

/// The registry left once every expired session is removed.
pub open spec fn after_eviction(m: Map<Seq<char>, i64>, now: i64, ttl: i64) -> Map<
    Seq<char>,
    i64,
> {
    m.remove_keys(expired_ids(m, now, ttl))
}

/// A lowercase hexadecimal digit.
pub open spec fn is_lower_hex(c: char) -> bool {
    ('0' <= c <= '9') || ('a' <= c <= 'f')
}

/// The hyphenated text of a random (version 4, RFC 4122 variant) UUID:
/// `xxxxxxxx-xxxx-4xxx-yxxx-xxxxxxxxxxxx` in lowercase hexadecimal, `y` one of
/// `8`, `9`, `a`, `b`.
pub open spec fn uuid_v4_text(s: Seq<char>) -> bool {
    &&& s.len() == 36
    &&& forall|i: int|
        0 <= i < 36 ==> if i == 8 || i == 13 || i == 18 || i == 23 {
            #[trigger] s[i] == '-'
        } else {
            is_lower_hex(s[i])
        }
    &&& s[14] == '4'
    &&& (s[19] == '8' || s[19] == '9' || s[19] == 'a' || s[19] == 'b')
}

/// `after` is `before` with one session added under `id`, which `before` did not hold.
pub open spec fn created(before: Map<Seq<char>, i64>, after: Map<Seq<char>, i64>, id: Seq<char>) -> bool {
    &&& !before.contains_key(id)
    &&& after.contains_key(id)
    &&& after == before.insert(id, after[id])
}

proof fn lemma_entries_map_keys(s: Seq<Session>, k: Seq<char>)
    ensures
        entries_map(s).contains_key(k) <==> exists|i: int| 0 <= i < s.len() && s[i].id@ == k,
    decreases s.len(),
{
    if s.len() > 0 {
        lemma_entries_map_keys(s.drop_last(), k);
        if entries_map(s.drop_last()).contains_key(k) {
            let i = choose|i: int| 0 <= i < s.drop_last().len() && s.drop_last()[i].id@ == k;
            assert(s[i].id@ == k);
        }
        if exists|i: int| 0 <= i < s.len() && s[i].id@ == k {
            let i = choose|i: int| 0 <= i < s.len() && s[i].id@ == k;
            if i < s.len() - 1 {
                assert(s.drop_last()[i].id@ == k);
            }
        }
    }
}

proof fn lemma_entries_map_value(s: Seq<Session>, i: int)
    requires
        ids_unique(s),
        0 <= i < s.len(),
    ensures
        entries_map(s).contains_key(s[i].id@),
        entries_map(s)[s[i].id@] == s[i].created_at,
    decreases s.len(),
{
    if i < s.len() - 1 {
        assert(ids_unique(s.drop_last()));
        assert(s.drop_last()[i] == s[i]);
        lemma_entries_map_value(s.drop_last(), i);
        assert(s[i].id@ != s.last().id@);
    }
}

impl AppState {
    /// The registry as a map from identifier to creation time.
    pub closed spec fn view(&self) -> Map<Seq<char>, i64> {
        entries_map(self.sessions@)
    }

    /// Well-formed: no identifier is held twice.
    pub closed spec fn wf(&self) -> bool {
        ids_unique(self.sessions@)
    }

    /// An empty registry.
    pub fn new() -> (r: AppState)
        ensures
            r.wf(),
            r@ == Map::<Seq<char>, i64>::empty(),
    {
        AppState { sessions: Vec::new() }
    }

    /// The number of live sessions.
    pub fn len(&self) -> (r: usize)
        requires
            self.wf(),
        ensures
            r == self@.len(),
    {
        proof {
            self.lemma_len();
        }
        self.sessions.len()
    }

    proof fn lemma_len(&self)
        requires
            self.wf(),
        ensures
            self@.len() == self.sessions@.len(),
        decreases self.sessions@.len(),
    {
        lemma_unique_len(self.sessions@);
    }

    /// Whether `id` names a live session.
    pub fn contains(&self, id: &String) -> (r: bool)
        ensures
            r == self@.contains_key(id@),
    {
        let mut i: usize = 0;
        while i < self.sessions.len()
            invariant
                0 <= i <= self.sessions@.len(),
                forall|j: int| 0 <= j < i ==> self.sessions@[j].id@ != id@,
            decreases self.sessions@.len() - i,
        {
            if self.sessions[i].id == *id {
                proof {
                    lemma_entries_map_keys(self.sessions@, id@);
                }
                return true;
            }
            i = i + 1;
        }
        proof {
            lemma_entries_map_keys(self.sessions@, id@);
        }
        false
    }

    /// Registers `id`, created at `created_at`, unless it is already live.
    /// Returns whether it was added; when it was not, nothing changed.
    pub fn insert_session(&mut self, id: String, created_at: i64) -> (r: bool)
        requires
            old(self).wf(),
        ensures
            final(self).wf(),
            r == !old(self)@.contains_key(id@),
            r ==> final(self)@ == old(self)@.insert(id@, created_at),
            !r ==> final(self)@ == old(self)@,
    {
        if self.contains(&id) {
            return false;
        }
        proof {
            lemma_entries_map_keys(self.sessions@, id@);
        }
        let ghost before = self.sessions@;
        self.sessions.push(Session { id, created_at });
        proof {
            assert(self.sessions@.drop_last() == before);
            assert(ids_unique(self.sessions@)) by {
                assert forall|i: int, j: int| 0 <= i < j < self.sessions@.len() implies
                    self.sessions@[i].id@ != self.sessions@[j].id@ by {
                    if j == before.len() {
                        assert(self.sessions@[i] == before[i]);
                    }
                }
            }
        }
        true
    }

    /// Creates a session under a freshly drawn random identifier and the current
    /// time, drawing again while the identifier is already live. Gives `None`,
    /// and changes nothing, only when every draw collided.
    pub fn new_session(&mut self) -> (r: Option<String>)
        requires
            old(self).wf(),
        ensures
            final(self).wf(),
            r matches Some(id) ==> created(old(self)@, final(self)@, id@) && uuid_v4_text(id@),
            r is None ==> final(self)@ == old(self)@,
            old(self)@.dom().is_empty() ==> r is Some,
    {
        let mut attempt: u32 = 0;
        while attempt < ID_ATTEMPTS
            invariant
                self.wf(),
                self@ == old(self)@,
                attempt > 0 ==> !old(self)@.dom().is_empty(),
            decreases ID_ATTEMPTS - attempt,
        {
            let id = fresh_id();
            if !self.contains(&id) {
                let now = now_seconds();
                self.insert_session(id.clone(), now);
                return Some(id);
            }
            proof {
                assert(old(self)@.dom().contains(id@));
            }
            attempt = attempt + 1;
        }
        None
    }

    /// Removes every session that has outlived `ttl` at time `now`, and returns
    /// the identifiers removed, each once, so that the caller can release what
    /// belongs to them.
    pub fn evict_expired(&mut self, now: i64, ttl: i64) -> (r: Vec<String>)
        requires
            old(self).wf(),
        ensures
            final(self).wf(),
            final(self)@ == after_eviction(old(self)@, now, ttl),
            forall|i: int| 0 <= i < r@.len() ==> expired_ids(old(self)@, now, ttl).contains(#[trigger] r@[i]@),
            forall|k: Seq<char>| expired_ids(old(self)@, now, ttl).contains(k) ==> exists|i: int|
                0 <= i < r@.len() && r@[i]@ == k,
            forall|i: int, j: int| 0 <= i < j < r@.len() ==> r@[i]@ != r@[j]@,
            expired_ids(old(self)@, now, ttl).is_empty() ==> r@.len() == 0,
    {
        let ghost old_s = self.sessions@;
        let ghost m = self@;
        let mut kept: Vec<Session> = Vec::new();
        let mut removed: Vec<String> = Vec::new();
        let ghost mut kept_at: Seq<int> = Seq::empty();
        let ghost mut removed_at: Seq<int> = Seq::empty();
        let mut i: usize = 0;
        while i < self.sessions.len()
            invariant
                self.sessions@ == old_s,
                ids_unique(old_s),
                0 <= i <= old_s.len(),
                kept_at.len() == kept@.len(),
                removed_at.len() == removed@.len(),
                forall|j: int| 0 <= j < kept@.len() ==> {
                    &&& 0 <= #[trigger] kept_at[j] < i
                    &&& kept@[j].id@ == old_s[kept_at[j]].id@
                    &&& kept@[j].created_at == old_s[kept_at[j]].created_at
                    &&& !expired(old_s[kept_at[j]].created_at, now, ttl)
                },
                forall|j: int, l: int| 0 <= j < l < kept@.len() ==> kept_at[j] < kept_at[l],
                forall|j: int| 0 <= j < removed@.len() ==> {
                    &&& 0 <= #[trigger] removed_at[j] < i
                    &&& removed@[j]@ == old_s[removed_at[j]].id@
                    &&& expired(old_s[removed_at[j]].created_at, now, ttl)
                },
                forall|j: int, l: int| 0 <= j < l < removed@.len() ==> removed_at[j] < removed_at[l],
                forall|k: int| 0 <= k < i ==> #[trigger] kept_at.contains(k) || removed_at.contains(k),
            decreases old_s.len() - i,
        {
            let ghost old_kept = kept_at;
            let ghost old_removed = removed_at;
            let created_at = self.sessions[i].created_at;
            let id = self.sessions[i].id.clone();
            if (now as i128) - (created_at as i128) > ttl as i128 {
                removed.push(id);
                proof {
                    removed_at = removed_at.push(i as int);
                }
            } else {
                kept.push(Session { id, created_at });
                proof {
                    kept_at = kept_at.push(i as int);
                }
            }
            proof {
                assert forall|k: int| 0 <= k < i + 1 implies #[trigger] kept_at.contains(k)
                    || removed_at.contains(k) by {
                    if k == i {
                        if kept_at.len() > 0 && kept_at.last() == k {
                            assert(kept_at[kept@.len() - 1] == k);
                        } else {
                            assert(removed_at[removed@.len() - 1] == k);
                        }
                    } else {
                        assert(old_kept.contains(k) || old_removed.contains(k));
                        if old_kept.contains(k) {
                            let j = choose|j: int| 0 <= j < old_kept.len() && old_kept[j] == k;
                            assert(kept_at[j] == k);
                        } else {
                            let j = choose|j: int| 0 <= j < old_removed.len() && old_removed[j] == k;
                            assert(removed_at[j] == k);
                        }
                    }
                }
            }
            i = i + 1;
        }
        proof {
            assert(ids_unique(kept@)) by {
                assert forall|j: int, l: int| 0 <= j < l < kept@.len() implies kept@[j].id@
                    != kept@[l].id@ by {
                    assert(kept_at[j] < kept_at[l]);
                }
            }
            assert forall|k: Seq<char>| #[trigger] entries_map(kept@).contains_key(k)
                == after_eviction(m, now, ttl).contains_key(k) by {
                lemma_entries_map_keys(kept@, k);
                lemma_entries_map_keys(old_s, k);
                if entries_map(kept@).contains_key(k) {
                    let j = choose|j: int| 0 <= j < kept@.len() && kept@[j].id@ == k;
                    lemma_entries_map_value(old_s, kept_at[j]);
                }
                if after_eviction(m, now, ttl).contains_key(k) {
                    let q = choose|q: int| 0 <= q < old_s.len() && old_s[q].id@ == k;
                    lemma_entries_map_value(old_s, q);
                    assert(kept_at.contains(q) || removed_at.contains(q));
                    if removed_at.contains(q) {
                        let j = choose|j: int| 0 <= j < removed_at.len() && removed_at[j] == q;
                        assert(false);
                    }
                    let j = choose|j: int| 0 <= j < kept_at.len() && kept_at[j] == q;
                    assert(kept@[j].id@ == k);
                }
            }
            assert forall|k: Seq<char>| #[trigger] entries_map(kept@).contains_key(k) implies
                entries_map(kept@)[k] == after_eviction(m, now, ttl)[k] by {
                lemma_entries_map_keys(kept@, k);
                let j = choose|j: int| 0 <= j < kept@.len() && kept@[j].id@ == k;
                lemma_entries_map_value(kept@, j);
                lemma_entries_map_value(old_s, kept_at[j]);
            }
            assert(entries_map(kept@) =~= after_eviction(m, now, ttl));
            assert forall|q: int| 0 <= q < removed@.len() implies expired_ids(m, now, ttl).contains(
                #[trigger] removed@[q]@) by {
                lemma_entries_map_value(old_s, removed_at[q]);
            }
            assert forall|k: Seq<char>| expired_ids(m, now, ttl).contains(k) implies exists|q: int|
                0 <= q < removed@.len() && removed@[q]@ == k by {
                lemma_entries_map_keys(old_s, k);
                let p = choose|p: int| 0 <= p < old_s.len() && old_s[p].id@ == k;
                lemma_entries_map_value(old_s, p);
                assert(kept_at.contains(p) || removed_at.contains(p));
                if kept_at.contains(p) {
                    let j = choose|j: int| 0 <= j < kept_at.len() && kept_at[j] == p;
                    assert(false);
                }
                let q = choose|q: int| 0 <= q < removed_at.len() && removed_at[q] == p;
                assert(removed@[q]@ == k);
            }
            assert forall|j: int, l: int| 0 <= j < l < removed@.len() implies removed@[j]@
                != removed@[l]@ by {
                assert(removed_at[j] < removed_at[l]);
            }
        }
        proof {
            if removed@.len() > 0 {
                assert(expired_ids(m, now, ttl).contains(removed@[0]@));
            }
        }
        self.sessions = kept;
        removed
    }

    /// One tick of the cleanup schedule: removes the sessions that have outlived
    /// `SESSION_TTL_SECONDS` at the current time and returns their identifiers, so
    /// that the caller can delete their directories after releasing the registry.
    pub fn session_cleanup_tick(&mut self) -> (r: Vec<String>)
        requires
            old(self).wf(),
        ensures
            final(self).wf(),
            exists|now: i64| {
                &&& #[trigger] after_eviction(old(self)@, now, SESSION_TTL_SECONDS) == final(self)@
                &&& forall|i: int| 0 <= i < r@.len() ==> expired_ids(old(self)@, now, SESSION_TTL_SECONDS).contains(#[trigger] r@[i]@)
                &&& forall|k: Seq<char>| expired_ids(old(self)@, now, SESSION_TTL_SECONDS).contains(k) ==> exists|i: int|
                    0 <= i < r@.len() && r@[i]@ == k
            },
    {
        let now = now_seconds();
        self.evict_expired(now, SESSION_TTL_SECONDS)
    }
}

proof fn lemma_unique_len(s: Seq<Session>)
    requires
        ids_unique(s),
    ensures
        entries_map(s).len() == s.len(),
        entries_map(s).dom().finite(),
    decreases s.len(),
{
    if s.len() > 0 {
        assert(ids_unique(s.drop_last()));
        lemma_unique_len(s.drop_last());
        lemma_entries_map_keys(s.drop_last(), s.last().id@);
        if entries_map(s.drop_last()).contains_key(s.last().id@) {
            let i = choose|i: int| 0 <= i < s.drop_last().len() && s.drop_last()[i].id@ == s.last().id@;
            assert(s[i].id@ == s[s.len() - 1].id@);
        }
    }
}

proof fn lemma_key_stays(states: Seq<Map<Seq<char>, i64>>, ids: Seq<Seq<char>>, i: int, j: int)
    requires
        states.len() == ids.len() + 1,
        forall|k: int| 0 <= k < ids.len() ==> created(#[trigger] states[k], states[k + 1], ids[k]),
        0 <= i < j <= ids.len(),
    ensures
        states[j].contains_key(ids[i]),
    decreases j - i,
{
    assert(created(states[j - 1], states[j], ids[j - 1]));
    if j - 1 > i {
        lemma_key_stays(states, ids, i, j - 1);
    }
}

/// Session creations applied one after another to a registry hand out pairwise
/// distinct identifiers: each step adds an identifier that the registry did not
/// hold, and no step takes one away.
pub proof fn lemma_created_ids_distinct(states: Seq<Map<Seq<char>, i64>>, ids: Seq<Seq<char>>)
    requires
        states.len() == ids.len() + 1,
        forall|k: int| 0 <= k < ids.len() ==> created(#[trigger] states[k], states[k + 1], ids[k]),
    ensures
        forall|i: int, j: int| 0 <= i < j < ids.len() ==> ids[i] != ids[j],
{
    assert forall|i: int, j: int| 0 <= i < j < ids.len() implies ids[i] != ids[j] by {
        lemma_key_stays(states, ids, i, j);
        assert(created(states[j], states[j + 1], ids[j]));
    }
}

/// Evicting twice in a row at the same time with the same time-to-live: the second
/// eviction finds nothing expired and leaves the registry as the first left it.
pub proof fn lemma_evict_idempotent(m: Map<Seq<char>, i64>, now: i64, ttl: i64)
    ensures
        expired_ids(after_eviction(m, now, ttl), now, ttl) == Set::<Seq<char>>::empty(),
        after_eviction(after_eviction(m, now, ttl), now, ttl) == after_eviction(m, now, ttl),
{
    let once = after_eviction(m, now, ttl);
    assert(expired_ids(once, now, ttl) =~= Set::<Seq<char>>::empty());
    assert(after_eviction(once, now, ttl) =~= once);
}

/// Relies on uuid's `Uuid::new_v4`, which sets the version and variant bits of
/// random bits, and its `Display`, which writes the hyphenated lowercase form.
/// Nothing else is promised of the value.
#[verifier::external_body]
fn fresh_id() -> (r: String)
    ensures
        uuid_v4_text(r@),
{
    uuid::Uuid::new_v4().to_string()
}

/// Relies on chrono's `Utc::now` and `DateTime::timestamp`: the current time in
/// whole seconds since the Unix epoch.
#[verifier::external_body]
fn now_seconds() -> (r: i64) {
    chrono::Utc::now().timestamp()
}

} // verus!
