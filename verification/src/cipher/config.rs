//! Table of known-good per-player configs (which sig/n function and STS), keyed by the
//! player's hash. A bundled table is overlaid by a remotely updatable one; the epoch moves
//! whenever the table grows, so the cipher webview rebuilds itself.

use vstd::prelude::*;

use crate::text::str_eq;

verus! {

/// One validated player config. `sig_fn` and `n_fn` are function names inside that player's
/// `player.js`; `None` means unknown, left to pattern search.
#[derive(Debug, Clone)]
pub struct PlayerConfig {
    pub hash: String,
    pub sts: Option<i32>,
    pub sig_fn: Option<String>,
    pub n_fn: Option<String>,
}

/// Least time between two self-heal refreshes, in milliseconds (five minutes).
pub const REFRESH_COOLDOWN_MS: u64 = 300_000;

fn copy_config(c: &PlayerConfig) -> (r: PlayerConfig)
    ensures
        r == *c,
{
    PlayerConfig {
        hash: c.hash.clone(),
        sts: c.sts,
        sig_fn: c.sig_fn.clone(),
        n_fn: c.n_fn.clone(),
    }
}

/// Whether some entry has hash `k`.
pub open spec fn has_hash(e: Seq<PlayerConfig>, k: Seq<char>) -> bool {
    exists|i: int| 0 <= i < e.len() && (#[trigger] e[i]).hash@ == k
}

/// Each hash at most once.
pub open spec fn unique_hashes(e: Seq<PlayerConfig>) -> bool {
    forall|i: int, j: int|
        0 <= i < e.len() && 0 <= j < e.len() && i != j ==> (#[trigger] e[i]).hash@ != (
        #[trigger] e[j]).hash@
}

/// The entries as a map from hash to config.
pub open spec fn table_map(e: Seq<PlayerConfig>) -> Map<Seq<char>, PlayerConfig> {
    Map::new(
        |k: Seq<char>| has_hash(e, k),
        |k: Seq<char>| e[choose|i: int| 0 <= i < e.len() && (#[trigger] e[i]).hash@ == k],
    )
}

proof fn lemma_table_at(e: Seq<PlayerConfig>, i: int)
    requires
        unique_hashes(e),
        0 <= i < e.len(),
    ensures
        table_map(e).dom().contains(e[i].hash@),
        table_map(e)[e[i].hash@] == e[i],
{
    let k = e[i].hash@;
    assert(has_hash(e, k));
    let c = choose|j: int| 0 <= j < e.len() && (#[trigger] e[j]).hash@ == k;
    assert(c == i);
}

/// Configs by player hash.
#[derive(Debug, Clone)]
pub struct ConfigTable {
    entries: Vec<PlayerConfig>,
}

impl ConfigTable {
    /// Each hash at most once.
    pub closed spec fn wf(&self) -> bool {
        unique_hashes(self.entries@)
    }

    /// The table as a map from hash to config.
    pub closed spec fn view(&self) -> Map<Seq<char>, PlayerConfig> {
        table_map(self.entries@)
    }

    /// Number of distinct hashes.
    pub closed spec fn size(&self) -> nat {
        self.entries@.len()
    }

    /// The empty table.
    pub fn new() -> (r: ConfigTable)
        ensures
            r.wf(),
            r.view() == Map::<Seq<char>, PlayerConfig>::empty(),
            r.size() == 0,
    {
        let r = ConfigTable { entries: Vec::new() };
        assert(r.view() =~= Map::<Seq<char>, PlayerConfig>::empty());
        r
    }

    /// Number of configs.
    pub fn len(&self) -> (r: usize)
        ensures
            r == self.size(),
    {
        self.entries.len()
    }

    /// Position of the entry with hash `hash`.
    fn position(&self, hash: &str) -> (r: Option<usize>)
        requires
            self.wf(),
        ensures
            match r {
                Some(i) => i < self.entries@.len() && self.entries@[i as int].hash@ == hash@,
                None => !has_hash(self.entries@, hash@),
            },
    {
        let mut i: usize = 0;
        while i < self.entries.len()
            invariant
                0 <= i <= self.entries@.len(),
                forall|j: int| 0 <= j < i ==> (#[trigger] self.entries@[j]).hash@ != hash@,
            decreases self.entries.len() - i,
        {
            if str_eq(self.entries[i].hash.as_str(), hash) {
                return Some(i);
            }
            i += 1;
        }
        None
    }

    /// The config for a player hash.
    pub fn get(&self, hash: &str) -> (r: Option<PlayerConfig>)
        requires
            self.wf(),
        ensures
            match r {
                Some(c) => self.view().dom().contains(hash@) && c == self.view()[hash@],
                None => !self.view().dom().contains(hash@),
            },
    {
        match self.position(hash) {
            Some(i) => {
                proof {
                    lemma_table_at(self.entries@, i as int);
                }
                Some(copy_config(&self.entries[i]))
            },
            None => None,
        }
    }

    /// Insert a config under its hash, replacing the one already there. The size grows exactly
    /// when the hash is new.
    pub fn insert(&mut self, c: PlayerConfig)
        requires
            old(self).wf(),
        ensures
            final(self).wf(),
            final(self).view() == old(self).view().insert(c.hash@, c),
            old(self).view().dom().contains(c.hash@) ==> final(self).size() == old(self).size(),
            !old(self).view().dom().contains(c.hash@) ==> final(self).size() == old(self).size()
                + 1,
    {
        let ghost e = self.entries@;
        let ghost k = c.hash@;
        match self.position(c.hash.as_str()) {
            Some(j) => {
                self.entries.set(j, c);
                proof {
                    let e2 = self.entries@;
                    assert(e2 == e.update(j as int, c));
                    assert forall|a: int, b: int|
                        0 <= a < e2.len() && 0 <= b < e2.len() && a != b implies (
                    #[trigger] e2[a]).hash@ != (#[trigger] e2[b]).hash@ by {
                        assert(e[j as int].hash@ == k);
                    }
                    assert forall|x: Seq<char>| #[trigger] has_hash(e2, x) == has_hash(e, x) by {
                        if has_hash(e, x) {
                            let i = choose|i: int| 0 <= i < e.len() && (#[trigger] e[i]).hash@ == x;
                            if i == j {
                                assert(e2[j as int].hash@ == x);
                            } else {
                                assert(e2[i] == e[i]);
                            }
                        }
                        if has_hash(e2, x) {
                            let i = choose|i: int| 0 <= i < e2.len() && (#[trigger] e2[i]).hash@ == x;
                            if i == j {
                                assert(e[j as int].hash@ == x);
                            } else {
                                assert(e2[i] == e[i]);
                            }
                        }
                    }
                    assert forall|x: Seq<char>| #[trigger] has_hash(e2, x) implies table_map(e2)[x]
                        == table_map(e).insert(k, c)[x] by {
                        let i = choose|i: int| 0 <= i < e2.len() && (#[trigger] e2[i]).hash@ == x;
                        lemma_table_at(e2, i);
                        if i != j {
                            assert(e2[i] == e[i]);
                            lemma_table_at(e, i);
                        }
                    }
                    lemma_table_at(e, j as int);
                    assert(table_map(e2) =~= table_map(e).insert(k, c));
                }
            },
            None => {
                self.entries.push(c);
                proof {
                    let e2 = self.entries@;
                    assert(e2 == e.push(c));
                    assert forall|a: int, b: int|
                        0 <= a < e2.len() && 0 <= b < e2.len() && a != b implies (
                    #[trigger] e2[a]).hash@ != (#[trigger] e2[b]).hash@ by {
                        if a == e.len() {
                            assert(e2[b] == e[b]);
                        } else if b == e.len() {
                            assert(e2[a] == e[a]);
                        } else {
                            assert(e2[a] == e[a] && e2[b] == e[b]);
                        }
                    }
                    assert forall|x: Seq<char>| #[trigger] has_hash(e2, x) == (has_hash(e, x) || x
                        == k) by {
                        if has_hash(e, x) {
                            let i = choose|i: int| 0 <= i < e.len() && (#[trigger] e[i]).hash@ == x;
                            assert(e2[i] == e[i]);
                        }
                        if has_hash(e2, x) && x != k {
                            let i = choose|i: int| 0 <= i < e2.len() && (#[trigger] e2[i]).hash@ == x;
                            assert(e2[i] == e[i]);
                        }
                        if x == k {
                            assert(e2[e.len() as int].hash@ == k);
                        }
                    }
                    assert forall|x: Seq<char>| #[trigger] has_hash(e2, x) implies table_map(e2)[x]
                        == table_map(e).insert(k, c)[x] by {
                        let i = choose|i: int| 0 <= i < e2.len() && (#[trigger] e2[i]).hash@ == x;
                        lemma_table_at(e2, i);
                        if i != e.len() {
                            assert(e2[i] == e[i]);
                            lemma_table_at(e, i);
                        }
                    }
                    assert(table_map(e2) =~= table_map(e).insert(k, c));
                }
            },
        }
    }

    /// A table from a list of configs, inserted in order: a later config with a hash already
    /// present replaces the earlier one.
    pub fn from_list(list: Vec<PlayerConfig>) -> (r: ConfigTable)
        ensures
            r.wf(),
            r.view() == list_map(list@),
    {
        let mut t = ConfigTable::new();
        let mut rest = list;
        let ghost all = rest@;
        let ghost mut i: int = 0;
        assert(all.take(0) =~= Seq::<PlayerConfig>::empty());
        while rest.len() > 0
            invariant
                t.wf(),
                rest@ == all.skip(i as int),
                0 <= i <= all.len(),
                t.view() == list_map(all.take(i as int)),
            decreases rest.len(),
        {
            assert(rest@[0] == all[i]);
            let c = rest.remove(0);
            assert(all.take(i + 1).drop_last() == all.take(i as int));
            assert(all.take(i + 1).last() == c);
            t.insert(c);
            assert(rest@ == all.skip(i + 1));
            proof {
                i = i + 1;
            }
        }
        assert(all.take(i as int) == all);
        t
    }

    /// Overlay `from` onto this table: every config of `from` replaces or joins the one under
    /// its hash. Returns whether the table grew, the coarse change signal the cipher webview
    /// rebuilds on.
    pub fn merge(&mut self, from: ConfigTable) -> (grew: bool)
        requires
            old(self).wf(),
            from.wf(),
        ensures
            final(self).wf(),
            final(self).view() == old(self).view().union_prefer_right(from.view()),
            grew <==> exists|k: Seq<char>|
                from.view().dom().contains(k) && !old(self).view().dom().contains(k),
    {
        let ghost base = self.view();
        let ghost fm = from.view();
        let ghost fe = from.entries@;
        let before = self.entries.len();
        let mut rest = from.entries;
        let ghost mut i: int = 0;
        proof {
            assert(base.union_prefer_right(table_map(fe.take(0))) =~= base);
        }
        while rest.len() > 0
            invariant
                self.wf(),
                unique_hashes(fe),
                fm == table_map(fe),
                rest@ == fe.skip(i as int),
                0 <= i <= fe.len(),
                before <= self.size(),
                self.view() == base.union_prefer_right(table_map(fe.take(i as int))),
                self.size() > before <==> exists|k: Seq<char>|
                    table_map(fe.take(i as int)).dom().contains(k) && !base.dom().contains(k),
            decreases rest.len(),
        {
            assert(rest@[0] == fe[i]);
            let c = rest.remove(0);
            let ghost pre = fe.take(i as int);
            let ghost post = fe.take(i + 1);
            assert(post == pre.push(c));
            proof {
                assert(unique_hashes(post));
                assert forall|x: Seq<char>| #[trigger] has_hash(post, x) == (has_hash(pre, x) || x
                    == c.hash@) by {
                    if has_hash(pre, x) {
                        let j = choose|j: int| 0 <= j < pre.len() && (#[trigger] pre[j]).hash@ == x;
                        assert(post[j] == pre[j]);
                    }
                    if has_hash(post, x) && x != c.hash@ {
                        let j = choose|j: int| 0 <= j < post.len() && (#[trigger] post[j]).hash@ == x;
                        assert(post[j] == pre[j]);
                    }
                    if x == c.hash@ {
                        assert(post[i as int] == c);
                    }
                }
                assert forall|x: Seq<char>| #[trigger] has_hash(pre, x) implies table_map(post)[x]
                    == table_map(pre)[x] by {
                    let j = choose|j: int| 0 <= j < pre.len() && (#[trigger] pre[j]).hash@ == x;
                    lemma_table_at(pre, j);
                    assert(post[j] == pre[j]);
                    lemma_table_at(post, j);
                }
                lemma_table_at(post, i as int);
                assert(table_map(post) =~= table_map(pre).insert(c.hash@, c));
                assert(base.union_prefer_right(table_map(post)) =~= base.union_prefer_right(
                    table_map(pre),
                ).insert(c.hash@, c));
            }
            self.insert(c);
            assert(rest@ == fe.skip(i + 1));
            proof {
                i = i + 1;
            }
        }
        assert(fe.take(i as int) == fe);
        self.entries.len() != before
    }
}

/// Whether a self-heal refresh may start at `now_ms` after the last one started at `last`: never
/// refreshed, or at least the cooldown ago.
pub open spec fn refresh_allowed(last: Option<u64>, now_ms: u64) -> bool {
    match last {
        Some(t) => !(now_ms - t < REFRESH_COOLDOWN_MS),
        None => true,
    }
}

/// Self-heal refreshes are rate-limited: once one starts at `t`, every rejection within the
/// cooldown is refused, and the first one at or after `t` plus the cooldown goes ahead.
pub proof fn law_refresh_cooldown(t: u64, later: u64)
    ensures
        refresh_allowed(None, t),
        t <= later < t + REFRESH_COOLDOWN_MS ==> !refresh_allowed(Some(t), later),
        later >= t + REFRESH_COOLDOWN_MS ==> refresh_allowed(Some(t), later),
{
}

/// Fetching the same remote table twice changes the store at most once: after the first overlay
/// every fetched hash is present, so the second leaves the table as it is, reports no growth and
/// leaves the epoch alone.
pub proof fn law_overlay_is_idempotent(
    table: Map<Seq<char>, PlayerConfig>,
    fetched: Map<Seq<char>, PlayerConfig>,
)
    ensures
        table.union_prefer_right(fetched).union_prefer_right(fetched) == table.union_prefer_right(
            fetched,
        ),
        !(exists|k: Seq<char>|
            fetched.dom().contains(k) && !table.union_prefer_right(fetched).dom().contains(k)),
{
    assert(table.union_prefer_right(fetched).union_prefer_right(fetched) =~= table.union_prefer_right(
        fetched,
    ));
}

/// The config store's state: the table, its epoch (moved whenever the table grows, so the
/// cipher webview rebuilds), and when the last remote refresh started, in milliseconds.
#[derive(Debug)]
pub struct ConfigState {
    table: ConfigTable,
    epoch: u64,
    last_refresh_ms: Option<u64>,
}

impl ConfigState {
    pub closed spec fn wf(&self) -> bool {
        self.table.wf()
    }

    /// The table as a map from hash to config.
    pub closed spec fn view(&self) -> Map<Seq<char>, PlayerConfig> {
        self.table.view()
    }

    pub closed spec fn epoch_spec(&self) -> u64 {
        self.epoch
    }

    pub closed spec fn last_refresh(&self) -> Option<u64> {
        self.last_refresh_ms
    }

    /// A store over a starting table (the bundled one overlaid with the cached remote one), at
    /// epoch 0 and never refreshed.
    pub fn new(table: ConfigTable) -> (r: ConfigState)
        requires
            table.wf(),
        ensures
            r.wf(),
            r.view() == table.view(),
            r.epoch_spec() == 0,
            r.last_refresh() is None,
    {
        ConfigState { table, epoch: 0, last_refresh_ms: None }
    }

    /// The config for a player hash.
    pub fn get(&self, hash: &str) -> (r: Option<PlayerConfig>)
        requires
            self.wf(),
        ensures
            match r {
                Some(c) => self.view().dom().contains(hash@) && c == self.view()[hash@],
                None => !self.view().dom().contains(hash@),
            },
    {
        self.table.get(hash)
    }

    /// Moves whenever the table changes; the cipher webview rebuilds on a new value.
    pub fn config_epoch(&self) -> (r: u64)
        ensures
            r == self.epoch_spec(),
    {
        self.epoch
    }

    /// Start a self-heal refresh after a rejected stream at `now_ms`, unless one started less
    /// than the cooldown ago. Returns whether the fetch should go ahead.
    pub fn begin_rejection_refresh(&mut self, now_ms: u64) -> (go: bool)
        ensures
            go == refresh_allowed(old(self).last_refresh(), now_ms),
            go ==> final(self).last_refresh() == Some(now_ms),
            !go ==> final(self).last_refresh() == old(self).last_refresh(),
            final(self).view() == old(self).view(),
            final(self).epoch_spec() == old(self).epoch_spec(),
            final(self).wf() == old(self).wf(),
    {
        match self.last_refresh_ms {
            Some(t) => {
                let elapsed = now_ms.saturating_sub(t);
                if elapsed < REFRESH_COOLDOWN_MS {
                    return false;
                }
            },
            None => {},
        }
        self.last_refresh_ms = Some(now_ms);
        true
    }

    /// Start an unconditional refresh (a new player hash appeared) at `now_ms`.
    pub fn begin_forced_refresh(&mut self, now_ms: u64)
        ensures
            final(self).last_refresh() == Some(now_ms),
            final(self).view() == old(self).view(),
            final(self).epoch_spec() == old(self).epoch_spec(),
            final(self).wf() == old(self).wf(),
    {
        self.last_refresh_ms = Some(now_ms);
    }

    /// Overlay a fetched table. An empty one changes nothing. The table grew exactly when some
    /// fetched hash was new; then the epoch moves on by one and `true` comes back.
    pub fn apply_fetched(&mut self, incoming: ConfigTable) -> (changed: bool)
        requires
            old(self).wf(),
            incoming.wf(),
        ensures
            final(self).wf(),
            incoming.size() == 0 ==> !changed && final(self).view() == old(self).view(),
            incoming.size() > 0 ==> final(self).view() == old(self).view().union_prefer_right(
                incoming.view(),
            ),
            changed <==> incoming.size() > 0 && exists|k: Seq<char>|
                incoming.view().dom().contains(k) && !old(self).view().dom().contains(k),
            final(self).epoch_spec() == if changed {
                old(self).epoch_spec().wrapping_add(1)
            } else {
                old(self).epoch_spec()
            },
            final(self).last_refresh() == old(self).last_refresh(),
    {
        if incoming.len() == 0 {
            return false;
        }
        let grew = self.table.merge(incoming);
        if grew {
            self.epoch = self.epoch.wrapping_add(1);
        }
        grew
    }
}

/// The map a list of configs builds when inserted in order.
pub open spec fn list_map(l: Seq<PlayerConfig>) -> Map<Seq<char>, PlayerConfig>
    decreases l.len(),
{
    if l.len() == 0 {
        Map::empty()
    } else {
        list_map(l.drop_last()).insert(l.last().hash@, l.last())
    }
}

} // verus!
