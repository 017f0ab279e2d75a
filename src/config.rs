//! The project store: one record per project identifier, kept as a list of
//! entries with distinct keys and viewed as a map.

use crate::text::{decimal, parse_u64, parse_u64_spec, same_text, u64_text};
use vstd::prelude::*;

verus! {

/// What is remembered about one project.
#[derive(Debug)]
pub struct ProjectSettings {
    /// Canonical name of the runtime.
    pub runtime: String,
    /// Memory limit in MB, as decimal text.
    pub memory: String,
    /// Seconds since the Unix epoch at the last save.
    pub last_used: u64,
}

/// The mathematical value of a `ProjectSettings`.
pub struct SettingsView {
    pub runtime: Seq<char>,
    pub memory: Seq<char>,
    pub last_used: u64,
}

impl View for ProjectSettings {
    type V = SettingsView;

    open spec fn view(&self) -> SettingsView {
        SettingsView { runtime: self.runtime@, memory: self.memory@, last_used: self.last_used }
    }
}

impl ProjectSettings {
    /// A field-by-field copy.
    pub fn duplicate(&self) -> (r: ProjectSettings)
        ensures
            r@ == self@,
    {
        ProjectSettings {
            runtime: self.runtime.clone(),
            memory: self.memory.clone(),
            last_used: self.last_used,
        }
    }
}

/// The records as they are written to and read from the store file.
pub struct StorageData {
    pub projects: Vec<(String, ProjectSettings)>,
}

impl StorageData {
    pub fn new() -> (r: StorageData)
        ensures
            r.projects@.len() == 0,
    {
        StorageData { projects: Vec::new() }
    }
}

/// The map that a list of entries gives when each is stored in turn, a later
/// entry replacing an earlier one with the same key.
pub open spec fn records_of(s: Seq<(String, ProjectSettings)>) -> Map<Seq<char>, SettingsView>
    decreases s.len(),
{
    if s.len() == 0 {
        Map::empty()
    } else {
        records_of(s.drop_last()).insert(s.last().0@, s.last().1@)
    }
}

/// No two entries share a key.
pub open spec fn distinct_keys(s: Seq<(String, ProjectSettings)>) -> bool {
    forall|a: int, b: int| 0 <= a < b < s.len() ==> #[trigger] s[a].0@ != #[trigger] s[b].0@
}

/// A record last used within `days` days before `now` survives a cleanup.
pub open spec fn is_recent(v: SettingsView, days: u64, now: u64) -> bool {
    v.last_used as int > now as int - days as int * 86400
}

/// `after` keeps exactly the records of `before` that are recent at `now`,
/// unchanged.
pub open spec fn cleaned_up(
    before: Map<Seq<char>, SettingsView>,
    after: Map<Seq<char>, SettingsView>,
    days: u64,
    now: u64,
) -> bool {
    &&& forall|k: Seq<char>|
        #[trigger] after.contains_key(k) == (before.contains_key(k) && is_recent(
            before[k],
            days,
            now,
        ))
    &&& forall|k: Seq<char>| #[trigger] after.contains_key(k) ==> after[k] == before[k]
}

/// The escalated limit after an out-of-memory failure: the larger of half as
/// much again (rounded down) and 2048 MB more.
pub open spec fn raised_memory(old_mb: nat) -> nat {
    let half_again = old_mb * 3 / 2;
    let plus_two_gb = old_mb + 2048;
    if half_again >= plus_two_gb {
        half_again
    } else {
        plus_two_gb
    }
}

/// The text of the escalated limit for a stored limit, where it is a number
/// and the result fits in 64 bits.
pub open spec fn raised_memory_text(memory: Seq<char>) -> Option<Seq<char>> {
    match parse_u64_spec(memory) {
        Some(v) => if raised_memory(v as nat) <= u64::MAX {
            Some(decimal(raised_memory(v as nat)))
        } else {
            None
        },
        None => None,
    }
}

/// The listing order: most recently used first.
pub open spec fn newest_first(s: Seq<(&String, &ProjectSettings)>) -> bool {
    forall|a: int, b: int|
        0 <= a < b < s.len() ==> #[trigger] s[a].1.last_used >= #[trigger] s[b].1.last_used
}

/// The index `j` is among the values of `s`.
spec fn occurs_in(s: Seq<int>, j: int) -> bool {
    exists|a: int| 0 <= a < s.len() && s[a] == j
}

/// Where an entry last used at `t` goes in a listing that is newest first:
/// after every entry at least as recent, before every older one.
fn insertion_point(out: &Vec<(&String, &ProjectSettings)>, t: u64) -> (k: usize)
    requires
        newest_first(out@),
    ensures
        k <= out@.len(),
        forall|a: int| 0 <= a < k ==> #[trigger] out@[a].1.last_used >= t,
        forall|a: int| k <= a < out@.len() ==> #[trigger] out@[a].1.last_used < t,
{
    let n = out.len();
    let mut k: usize = 0;
    while k < n && out[k].1.last_used >= t
        invariant
            n == out@.len(),
            k <= n,
            newest_first(out@),
            forall|a: int| 0 <= a < k ==> #[trigger] out@[a].1.last_used >= t,
        decreases n - k,
    {
        k = k + 1;
    }
    if k < n {
        assert forall|a: int| k <= a < out@.len() implies #[trigger] out@[a].1.last_used < t by {
            if a > k {
                assert(out@[k as int].1.last_used >= out@[a].1.last_used);
            }
        }
    }
    k
}

/// The escalated limit, or `None` where it would not fit in 64 bits.
pub fn increase_memory(old_mb: u64) -> (r: Option<u64>)
    ensures
        r == if raised_memory(old_mb as nat) <= u64::MAX {
            Some(raised_memory(old_mb as nat) as u64)
        } else {
            None::<u64>
        },
{
    let half_again: u128 = old_mb as u128 * 3 / 2;
    let plus_two_gb: u128 = old_mb as u128 + 2048;
    let raised = if half_again >= plus_two_gb {
        half_again
    } else {
        plus_two_gb
    };
    if raised <= u64::MAX as u128 {
        Some(raised as u64)
    } else {
        None
    }
}

/// Relies on `SystemTime::now` and `duration_since(UNIX_EPOCH)`: whole seconds
/// since the epoch, or 0 for a clock set before it. Nothing is known of the value.
#[verifier::external_body]
fn current_timestamp() -> (r: u64) {
    match std::time::SystemTime::now().duration_since(std::time::UNIX_EPOCH) {
        Ok(d) => d.as_secs(),
        Err(_) => 0,
    }
}

/// A saved record survives writing the store out and reading it back: when
/// the written entries give the store with `record` saved under `key`, the
/// store read from them holds exactly `record` there.
pub proof fn lemma_store_round_trip(
    before: Map<Seq<char>, SettingsView>,
    key: Seq<char>,
    record: SettingsView,
    written: Seq<(String, ProjectSettings)>,
    loaded: Map<Seq<char>, SettingsView>,
)
    requires
        records_of(written) == before.insert(key, record),
        loaded == records_of(written),
    ensures
        loaded.contains_key(key),
        loaded[key] == record,
{
}

/// A newest-first listing of records with distinct times is strictly
/// decreasing in time.
pub proof fn lemma_listing_strictly_newest_first(s: Seq<(&String, &ProjectSettings)>)
    requires
        newest_first(s),
        forall|a: int, b: int|
            0 <= a < b < s.len() ==> #[trigger] s[a].1.last_used != #[trigger] s[b].1.last_used,
    ensures
        forall|a: int, b: int|
            0 <= a < b < s.len() ==> #[trigger] s[a].1.last_used > #[trigger] s[b].1.last_used,
{
}

proof fn lemma_records_of_distinct(s: Seq<(String, ProjectSettings)>)
    requires
        distinct_keys(s),
    ensures
        forall|k: Seq<char>|
            #[trigger] records_of(s).contains_key(k) <==> exists|a: int|
                0 <= a < s.len() && s[a].0@ == k,
        forall|a: int| 0 <= a < s.len() ==> #[trigger] records_of(s)[s[a].0@] == s[a].1@,
    decreases s.len(),
{
    if s.len() > 0 {
        let p = s.drop_last();
        assert(distinct_keys(p)) by {
            assert forall|a: int, b: int| 0 <= a < b < p.len() implies p[a].0@ != p[b].0@ by {
                assert(p[a] == s[a] && p[b] == s[b]);
            }
        }
        lemma_records_of_distinct(p);
        let n = s.len() - 1;
        assert(records_of(s) == records_of(p).insert(s.last().0@, s.last().1@));
        assert forall|k: Seq<char>|
            #[trigger] records_of(s).contains_key(k) implies exists|a: int|
                0 <= a < s.len() && s[a].0@ == k by {
            if k != s.last().0@ {
                assert(records_of(p).contains_key(k));
                let a = choose|a: int| 0 <= a < p.len() && p[a].0@ == k;
                assert(s[a] == p[a]);
            } else {
                assert(s[n].0@ == k);
            }
        }
        assert forall|a: int| 0 <= a < s.len() implies #[trigger] records_of(s)[s[a].0@]
            == s[a].1@ by {
            if a < n {
                assert(p[a] == s[a]);
                assert(s[a].0@ != s[n].0@);
            }
        }
        assert forall|k: Seq<char>|
            (exists|a: int| 0 <= a < s.len() && s[a].0@ == k) implies #[trigger] records_of(
            s,
        ).contains_key(k) by {
            let a = choose|a: int| 0 <= a < s.len() && s[a].0@ == k;
            if a < n {
                assert(p[a] == s[a]);
            }
        }
    }
}

/// The loaded records of this invocation, with the changes made so far.
pub struct Config {
    data: StorageData,
    records: Ghost<Map<Seq<char>, SettingsView>>,
}

impl View for Config {
    type V = Map<Seq<char>, SettingsView>;

    closed spec fn view(&self) -> Map<Seq<char>, SettingsView> {
        self.records@
    }
}

impl Config {
    /// The entries have distinct keys and are exactly the records of the view.
    pub closed spec fn wf(&self) -> bool {
        let e = self.data.projects@;
        &&& distinct_keys(e)
        &&& forall|a: int|
            0 <= a < e.len() ==> #[trigger] self.records@.contains_key(e[a].0@)
                && self.records@[e[a].0@] == e[a].1@
        &&& forall|k: Seq<char>|
            #[trigger] self.records@.contains_key(k) ==> exists|a: int|
                0 <= a < e.len() && e[a].0@ == k
    }

    /// A store with no records.
    pub fn new() -> (r: Config)
        ensures
            r.wf(),
            r@ == Map::<Seq<char>, SettingsView>::empty(),
    {
        Config { data: StorageData::new(), records: Ghost(Map::empty()) }
    }

    /// The store that the read records give, a later duplicate key winning.
    pub fn load(data: StorageData) -> (r: Config)
        ensures
            r.wf(),
            r@ == records_of(data.projects@),
    {
        let mut cfg = Config::new();
        let n = data.projects.len();
        let mut i: usize = 0;
        while i < n
            invariant
                n == data.projects@.len(),
                i <= n,
                cfg.wf(),
                cfg@ == records_of(data.projects@.subrange(0, i as int)),
            decreases n - i,
        {
            let key = data.projects[i].0.clone();
            let settings = data.projects[i].1.duplicate();
            cfg.put(key, settings);
            assert(data.projects@.subrange(0, i + 1).drop_last() =~= data.projects@.subrange(
                0,
                i as int,
            ));
            i = i + 1;
        }
        assert(data.projects@.subrange(0, n as int) =~= data.projects@);
        cfg
    }

    /// The records to write back, one entry per key.
    pub fn save(&self) -> (r: StorageData)
        requires
            self.wf(),
        ensures
            distinct_keys(r.projects@),
            records_of(r.projects@) == self@,
    {
        let n = self.data.projects.len();
        let mut out: Vec<(String, ProjectSettings)> = Vec::new();
        let mut i: usize = 0;
        while i < n
            invariant
                n == self.data.projects@.len(),
                i <= n,
                out@.len() == i,
                forall|a: int|
                    0 <= a < i ==> #[trigger] out@[a].0@ == self.data.projects@[a].0@
                        && out@[a].1@ == self.data.projects@[a].1@,
            decreases n - i,
        {
            let key = self.data.projects[i].0.clone();
            let settings = self.data.projects[i].1.duplicate();
            out.push((key, settings));
            i = i + 1;
        }
        let ghost e = self.data.projects@;
        assert(distinct_keys(out@)) by {
            assert forall|a: int, b: int| 0 <= a < b < out@.len() implies out@[a].0@
                != out@[b].0@ by {
                assert(e[a].0@ != e[b].0@);
            }
        }
        proof {
            lemma_records_of_distinct(out@);
            assert forall|k: Seq<char>| #[trigger] records_of(out@).contains_key(k)
                == self@.contains_key(k) by {
                if self@.contains_key(k) {
                    let a = choose|a: int| 0 <= a < e.len() && e[a].0@ == k;
                    assert(out@[a].0@ == k);
                }
                if records_of(out@).contains_key(k) {
                    let a = choose|a: int| 0 <= a < out@.len() && out@[a].0@ == k;
                    assert(e[a].0@ == k);
                }
            }
            assert forall|k: Seq<char>| #[trigger] self@.contains_key(k) implies records_of(
                out@,
            )[k] == self@[k] by {
                let a = choose|a: int| 0 <= a < e.len() && e[a].0@ == k;
                assert(out@[a].0@ == k);
            }
            assert(records_of(out@) =~= self@);
        }
        StorageData { projects: out }
    }

    /// Where the entry for `path` stands, if there is one.
    fn position(&self, path: &str) -> (r: Option<usize>)
        ensures
            match r {
                Some(i) => i < self.data.projects@.len() && self.data.projects@[i as int].0@
                    == path@,
                None => forall|a: int|
                    0 <= a < self.data.projects@.len() ==> self.data.projects@[a].0@ != path@,
            },
    {
        let n = self.data.projects.len();
        let mut i: usize = 0;
        while i < n
            invariant
                n == self.data.projects@.len(),
                i <= n,
                forall|a: int| 0 <= a < i ==> self.data.projects@[a].0@ != path@,
            decreases n - i,
        {
            if same_text(self.data.projects[i].0.as_str(), path) {
                return Some(i);
            }
            i = i + 1;
        }
        None
    }

    /// Stores `settings` under `path`, replacing any earlier record.
    fn put(&mut self, path: String, settings: ProjectSettings)
        requires
            old(self).wf(),
        ensures
            final(self).wf(),
            final(self)@ == old(self)@.insert(path@, settings@),
    {
        let ghost key = path@;
        let ghost val = settings@;
        let ghost m = self.records@;
        let ghost e = self.data.projects@;
        match self.position(path.as_str()) {
            Some(i) => {
                self.data.projects.set(i, (path, settings));
                self.records = Ghost(m.insert(key, val));
                let ghost e2 = self.data.projects@;
                assert forall|a: int| 0 <= a < e2.len() implies #[trigger] e2[a].0@ == e[a].0@ by {
                }
                assert forall|a: int| 0 <= a < e2.len() implies #[trigger] self.records@.contains_key(
                    e2[a].0@,
                ) && self.records@[e2[a].0@] == e2[a].1@ by {
                    if a != i {
                        assert(e[a].0@ != e[i as int].0@);
                    }
                }
                assert forall|k: Seq<char>| #[trigger] self.records@.contains_key(k) implies exists|
                    a: int,
                | 0 <= a < e2.len() && e2[a].0@ == k by {
                    if k != key {
                        let a = choose|a: int| 0 <= a < e.len() && e[a].0@ == k;
                        assert(e2[a].0@ == k);
                    } else {
                        assert(e2[i as int].0@ == k);
                    }
                }
            },
            None => {
                self.data.projects.push((path, settings));
                self.records = Ghost(m.insert(key, val));
                let ghost e2 = self.data.projects@;
                assert(!m.contains_key(key));
                assert(e2.len() == e.len() + 1);
                assert(e2[e.len() as int].0@ == key && e2[e.len() as int].1@ == val);
                assert forall|a: int| 0 <= a < e.len() implies #[trigger] e2[a] == e[a] by {}
                assert(distinct_keys(e2)) by {
                    assert forall|a: int, b: int| 0 <= a < b < e2.len() implies e2[a].0@
                        != e2[b].0@ by {
                        if b < e.len() {
                            assert(e[a].0@ != e[b].0@);
                        }
                    }
                }
                assert forall|a: int| 0 <= a < e2.len() implies #[trigger] self.records@.contains_key(
                    e2[a].0@,
                ) && self.records@[e2[a].0@] == e2[a].1@ by {
                    if a < e.len() {
                        assert(e2[a] == e[a]);
                    }
                }
                assert forall|k: Seq<char>| #[trigger] self.records@.contains_key(k) implies exists|
                    a: int,
                | 0 <= a < e2.len() && e2[a].0@ == k by {
                    if k != key {
                        let a = choose|a: int| 0 <= a < e.len() && e[a].0@ == k;
                        assert(e2[a] == e[a]);
                    } else {
                        assert(e2[e.len() as int].0@ == k);
                    }
                }
            },
        }
    }

    /// The record saved for `path`, if any.
    pub fn get_project(&self, path: &str) -> (r: Option<&ProjectSettings>)
        requires
            self.wf(),
        ensures
            match r {
                Some(s) => self@.contains_key(path@) && self@[path@] == s@,
                None => !self@.contains_key(path@),
            },
    {
        match self.position(path) {
            Some(i) => {
                assert(self.records@.contains_key(self.data.projects@[i as int].0@));
                Some(&self.data.projects[i].1)
            },
            None => None,
        }
    }

    /// Saves a record for `path`, stamped with the current time.
    pub fn save_project(&mut self, path: String, runtime: String, memory: String)
        requires
            old(self).wf(),
        ensures
            final(self).wf(),
            exists|t: u64|
                final(self)@ == old(self)@.insert(
                    path@,
                    SettingsView { runtime: runtime@, memory: memory@, last_used: t },
                ),
    {
        let now = current_timestamp();
        self.save_project_at(path, runtime, memory, now);
    }

    /// Saves a record for `path`, stamped with `now`.
    pub fn save_project_at(&mut self, path: String, runtime: String, memory: String, now: u64)
        requires
            old(self).wf(),
        ensures
            final(self).wf(),
            final(self)@ == old(self)@.insert(
                path@,
                SettingsView { runtime: runtime@, memory: memory@, last_used: now },
            ),
    {
        self.put(path, ProjectSettings { runtime, memory, last_used: now });
    }

    /// Removes the record for `path`; tells whether there was one.
    pub fn remove_project(&mut self, path: &str) -> (r: bool)
        requires
            old(self).wf(),
        ensures
            final(self).wf(),
            r == old(self)@.contains_key(path@),
            final(self)@ == old(self)@.remove(path@),
    {
        let ghost m = self.records@;
        let ghost e = self.data.projects@;
        assert(forall|a: int|
            0 <= a < e.len() ==> #[trigger] m.contains_key(e[a].0@) && m[e[a].0@] == e[a].1@);
        match self.position(path) {
            Some(i) => {
                self.data.projects.remove(i);
                self.records = Ghost(m.remove(path@));
                let ghost e2 = self.data.projects@;
                proof {
                    e.remove_ensures(i as int);
                }
                assert(distinct_keys(e2)) by {
                    assert forall|a: int, b: int| 0 <= a < b < e2.len() implies e2[a].0@
                        != e2[b].0@ by {
                        let a0 = if a < i { a } else { a + 1 };
                        let b0 = if b < i { b } else { b + 1 };
                        assert(e2[a] == e[a0] && e2[b] == e[b0]);
                        assert(e[a0].0@ != e[b0].0@);
                    }
                }
                assert forall|a: int| 0 <= a < e2.len() implies #[trigger] self.records@.contains_key(
                    e2[a].0@,
                ) && self.records@[e2[a].0@] == e2[a].1@ by {
                    let a0 = if a < i { a } else { a + 1 };
                    assert(e2[a] == e[a0]);
                    assert(e[a0].0@ != e[i as int].0@);
                    assert(m.contains_key(e[a0].0@) && m[e[a0].0@] == e[a0].1@);
                }
                assert forall|k: Seq<char>| #[trigger] self.records@.contains_key(k) implies exists|
                    a: int,
                | 0 <= a < e2.len() && e2[a].0@ == k by {
                    let a0 = choose|a: int| 0 <= a < e.len() && e[a].0@ == k;
                    assert(a0 != i);
                    if a0 < i {
                        assert(e2[a0] == e[a0]);
                    } else {
                        assert(e2[a0 - 1] == e[a0]);
                    }
                }
                true
            },
            None => {
                assert(!m.contains_key(path@));
                assert(m.remove(path@) =~= m);
                false
            },
        }
    }

    /// Every record with its key, most recently used first.
    pub fn list_projects(&self) -> (r: Vec<(&String, &ProjectSettings)>)
        requires
            self.wf(),
        ensures
            forall|a: int|
                0 <= a < r@.len() ==> #[trigger] self@.contains_key(r@[a].0@) && self@[r@[a].0@]
                    == r@[a].1@,
            forall|a: int, b: int| 0 <= a < b < r@.len() ==> #[trigger] r@[a].0@ != #[trigger] r@[b].0@,
            forall|k: Seq<char>| #[trigger]
                self@.contains_key(k) ==> exists|a: int| 0 <= a < r@.len() && r@[a].0@ == k,
            newest_first(r@),
    {
        let ghost e = self.data.projects@;
        let n = self.data.projects.len();
        let mut out: Vec<(&String, &ProjectSettings)> = Vec::new();
        let ghost mut src: Seq<int> = Seq::empty();
        let mut i: usize = 0;
        while i < n
            invariant
                n == e.len(),
                e == self.data.projects@,
                i <= n,
                src.len() == out@.len(),
                forall|a: int|
                    0 <= a < out@.len() ==> 0 <= #[trigger] src[a] < i && out@[a].0@ == e[src[a]].0@
                        && out@[a].1@ == e[src[a]].1@,
                forall|a: int, b: int| 0 <= a < b < out@.len() ==> #[trigger] src[a] != #[trigger] src[b],
                forall|j: int| 0 <= j < i ==> #[trigger] occurs_in(src, j),
                newest_first(out@),
            decreases n - i,
        {
            let entry = &self.data.projects[i];
            let k = insertion_point(&out, entry.1.last_used);
            let ghost before = out@;
            let ghost src0 = src;
            out.insert(k, (&entry.0, &entry.1));
            proof {
                before.insert_ensures(k as int, (&entry.0, &entry.1));
                src0.insert_ensures(k as int, i as int);
                src = src0.insert(k as int, i as int);
                assert forall|a: int| 0 <= a < out@.len() implies 0 <= #[trigger] src[a] < i + 1
                    && out@[a].0@ == e[src[a]].0@ && out@[a].1@ == e[src[a]].1@ by {
                    if a > k {
                        assert(out@[a] == before[a - 1] && src[a] == src0[a - 1]);
                    }
                }
                assert forall|a: int, b: int| 0 <= a < b < out@.len() implies #[trigger] src[a]
                    != #[trigger] src[b] by {
                    if a > k {
                        assert(src[a] == src0[a - 1] && src[b] == src0[b - 1]);
                    } else if b > k && a < k {
                        assert(src[b] == src0[b - 1]);
                    } else if b < k {
                    }
                }
                assert forall|j: int| 0 <= j < i + 1 implies #[trigger] occurs_in(src, j) by {
                    if j == i {
                        assert(src[k as int] == j);
                    } else {
                        assert(occurs_in(src0, j));
                        let a0 = choose|a: int| 0 <= a < src0.len() && src0[a] == j;
                        if a0 < k {
                            assert(src[a0] == j);
                        } else {
                            assert(src[a0 + 1] == j);
                        }
                    }
                }
                assert forall|a: int, b: int| 0 <= a < b < out@.len() implies #[trigger] out@[a].1.last_used
                    >= #[trigger] out@[b].1.last_used by {
                    if a > k {
                        assert(out@[a] == before[a - 1] && out@[b] == before[b - 1]);
                    } else if a == k {
                        assert(out@[b] == before[b - 1]);
                    } else if b > k {
                        assert(out@[b] == before[b - 1]);
                    }
                }
            }
            i = i + 1;
        }
        proof {
            assert forall|a: int| 0 <= a < out@.len() implies #[trigger] self@.contains_key(out@[a].0@)
                && self@[out@[a].0@] == out@[a].1@ by {
                assert(0 <= src[a] < e.len());
            }
            assert forall|a: int, b: int| 0 <= a < b < out@.len() implies #[trigger] out@[a].0@
                != #[trigger] out@[b].0@ by {
                assert(src[a] != src[b]);
                if src[a] < src[b] {
                    assert(e[src[a]].0@ != e[src[b]].0@);
                } else {
                    assert(e[src[b]].0@ != e[src[a]].0@);
                }
            }
            assert forall|k: Seq<char>| #[trigger] self@.contains_key(k) implies exists|a: int|
                0 <= a < out@.len() && out@[a].0@ == k by {
                let j = choose|j: int| 0 <= j < e.len() && e[j].0@ == k;
                assert(occurs_in(src, j));
                let a = choose|a: int| 0 <= a < src.len() && src[a] == j;
                assert(out@[a].0@ == k);
            }
        }
        out
    }

    /// Removes the records last used `days` days or more before now.
    pub fn cleanup_old_projects(&mut self, days: u64)
        requires
            old(self).wf(),
        ensures
            final(self).wf(),
            exists|now: u64| #[trigger] cleaned_up(old(self)@, final(self)@, days, now),
    {
        let now = current_timestamp();
        self.cleanup_old_projects_at(days, now);
    }

    /// Removes the records last used at or before `now` less `days` days.
    pub fn cleanup_old_projects_at(&mut self, days: u64, now: u64)
        requires
            old(self).wf(),
        ensures
            final(self).wf(),
            cleaned_up(old(self)@, final(self)@, days, now),
    {
        let ghost m = self.records@;
        let ghost e = self.data.projects@;
        let span: u128 = days as u128 * 86400;
        let n = self.data.projects.len();
        let mut kept: Vec<(String, ProjectSettings)> = Vec::new();
        let ghost mut km: Map<Seq<char>, SettingsView> = Map::empty();
        let mut i: usize = 0;
        while i < n
            invariant
                n == e.len(),
                e == self.data.projects@,
                m == self.records@,
                self.wf(),
                span == days as int * 86400,
                i <= n,
                distinct_keys(kept@),
                forall|a: int|
                    0 <= a < kept@.len() ==> #[trigger] km.contains_key(kept@[a].0@)
                        && km[kept@[a].0@] == kept@[a].1@,
                forall|k: Seq<char>|
                    #[trigger] km.contains_key(k) ==> exists|a: int|
                        0 <= a < kept@.len() && kept@[a].0@ == k,
                forall|k: Seq<char>|
                    #[trigger] km.contains_key(k) ==> m.contains_key(k) && km[k] == m[k]
                        && is_recent(m[k], days, now) && exists|j: int| 0 <= j < i && e[j].0@ == k,
                forall|j: int|
                    0 <= j < i && is_recent(m[#[trigger] e[j].0@], days, now) ==> km.contains_key(e[j].0@),
            decreases n - i,
        {
            let entry = &self.data.projects[i];
            assert(m.contains_key(e[i as int].0@) && m[e[i as int].0@] == e[i as int].1@);
            if entry.1.last_used as u128 + span > now as u128 {
                let key = entry.0.clone();
                let settings = entry.1.duplicate();
                let ghost k2 = key@;
                let ghost before = kept@;
                let ghost km0 = km;
                assert(!km0.contains_key(k2)) by {
                    if km0.contains_key(k2) {
                        let j = choose|j: int| 0 <= j < i && e[j].0@ == k2;
                        assert(e[j].0@ != e[i as int].0@);
                    }
                }
                kept.push((key, settings));
                proof {
                    km = km0.insert(k2, e[i as int].1@);
                    assert forall|a: int| 0 <= a < before.len() implies #[trigger] kept@[a] == before[a] by {}
                    assert(distinct_keys(kept@)) by {
                        assert forall|a: int, b: int| 0 <= a < b < kept@.len() implies kept@[a].0@
                            != kept@[b].0@ by {
                            if b < before.len() {
                                assert(before[a].0@ != before[b].0@);
                            } else {
                                assert(km0.contains_key(before[a].0@));
                            }
                        }
                    }
                    assert forall|a: int| 0 <= a < kept@.len() implies #[trigger] km.contains_key(
                        kept@[a].0@,
                    ) && km[kept@[a].0@] == kept@[a].1@ by {
                        if a < before.len() {
                            assert(km0.contains_key(before[a].0@));
                        }
                    }
                    assert forall|k: Seq<char>| #[trigger] km.contains_key(k) implies exists|a: int|
                        0 <= a < kept@.len() && kept@[a].0@ == k by {
                        if k != k2 {
                            let a = choose|a: int| 0 <= a < before.len() && before[a].0@ == k;
                            assert(kept@[a] == before[a]);
                        } else {
                            assert(kept@[before.len() as int].0@ == k);
                        }
                    }
                    assert forall|k: Seq<char>| #[trigger] km.contains_key(k) implies m.contains_key(k)
                        && km[k] == m[k] && is_recent(m[k], days, now) && exists|j: int|
                        0 <= j < i + 1 && e[j].0@ == k by {
                        if k == k2 {
                            assert(e[i as int].0@ == k);
                        } else {
                            let j = choose|j: int| 0 <= j < i && e[j].0@ == k;
                            assert(e[j].0@ == k);
                        }
                    }
                }
            }
            i = i + 1;
        }
        self.data.projects = kept;
        self.records = Ghost(km);
        assert forall|k: Seq<char>| #[trigger] km.contains_key(k) == (m.contains_key(k) && is_recent(
            m[k],
            days,
            now,
        )) by {
            if m.contains_key(k) && is_recent(m[k], days, now) {
                let j = choose|j: int| 0 <= j < e.len() && e[j].0@ == k;
                assert(is_recent(m[e[j].0@], days, now));
            }
        }
    }

    /// After an out-of-memory failure: raises the limit saved for `path` and
    /// stamps the record with the current time. Gives the old and new limit
    /// texts, or `None` (store unchanged) when there is no record, its limit is
    /// not a number, or the raised limit does not fit in 64 bits.
    pub fn increase_project_memory(&mut self, path: &str) -> (r: Option<(String, String)>)
        requires
            old(self).wf(),
        ensures
            final(self).wf(),
            r is Some <==> old(self)@.contains_key(path@) && raised_memory_text(
                old(self)@[path@].memory,
            ) is Some,
            match r {
                Some((before, after)) => before@ == old(self)@[path@].memory && Some(after@)
                    == raised_memory_text(before@) && exists|t: u64|
                    final(self)@ == old(self)@.insert(
                        path@,
                        SettingsView {
                            runtime: old(self)@[path@].runtime,
                            memory: after@,
                            last_used: t,
                        },
                    ),
                None => final(self)@ == old(self)@,
            },
    {
        let now = current_timestamp();
        self.increase_project_memory_at(path, now)
    }

    /// As `increase_project_memory`, with `now` as the time stamp.
    pub fn increase_project_memory_at(&mut self, path: &str, now: u64) -> (r: Option<
        (String, String),
    >)
        requires
            old(self).wf(),
        ensures
            final(self).wf(),
            r is Some <==> old(self)@.contains_key(path@) && raised_memory_text(
                old(self)@[path@].memory,
            ) is Some,
            match r {
                Some((before, after)) => before@ == old(self)@[path@].memory && Some(after@)
                    == raised_memory_text(before@) && final(self)@ == old(self)@.insert(
                    path@,
                    SettingsView {
                        runtime: old(self)@[path@].runtime,
                        memory: after@,
                        last_used: now,
                    },
                ),
                None => final(self)@ == old(self)@,
            },
    {
        let i = match self.position(path) {
            Some(i) => i,
            None => {
                return None;
            },
        };
        let ghost e = self.data.projects@;
        assert(self@.contains_key(e[i as int].0@) && self@[path@] == e[i as int].1@);
        let before = self.data.projects[i].1.memory.clone();
        let current = match parse_u64(before.as_str()) {
            Some(v) => v,
            None => {
                return None;
            },
        };
        let raised = match increase_memory(current) {
            Some(v) => v,
            None => {
                return None;
            },
        };
        let after = u64_text(raised);
        let runtime = self.data.projects[i].1.runtime.clone();
        let key = self.data.projects[i].0.clone();
        let memory = after.clone();
        self.put(key, ProjectSettings { runtime, memory, last_used: now });
        Some((before, after))
    }
}

} // verus!
