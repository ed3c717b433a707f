//! An in-memory store of scans, keyed by scan id.
use vstd::prelude::*;
use crate::clock::Timestamp;
use crate::models::scan_result::{ScanResult, ScanStatistics, ScanStatus};
use std::collections::HashMap;
use vstd::std_specs::iter::IteratorSpec;

verus! {

/// No two scans of the sequence share an id.
pub open spec fn distinct_ids(s: Seq<ScanResult>) -> bool {
    forall|i: int, j: int| 0 <= i < s.len() && 0 <= j < s.len() && i != j ==> s[i].id != s[j].id
}

/// The map from id to scan that a sequence of scans with distinct ids
/// stands for.
pub open spec fn map_of(s: Seq<ScanResult>) -> Map<u128, ScanResult>
    decreases s.len(),
{
    if s.len() == 0 {
        Map::empty()
    } else {
        map_of(s.drop_last()).insert(s.last().id, s.last())
    }
}

/// The ids of the stored scans with status `st`.
pub open spec fn ids_with_status(m: Map<u128, ScanResult>, st: ScanStatus) -> Set<u128> {
    m.dom().filter(|id: u128| m[id].status == st)
}

/// The number of scans of the sequence with status `st`.
pub open spec fn count_status(s: Seq<ScanResult>, st: ScanStatus) -> nat
    decreases s.len(),
{
    if s.len() == 0 {
        0
    } else {
        count_status(s.drop_last(), st) + if s.last().status == st {
            1nat
        } else {
            0nat
        }
    }
}

/// The latest start time in the sequence (`None` when it is empty).
pub open spec fn latest_start(s: Seq<ScanResult>) -> Option<Timestamp>
    decreases s.len(),
{
    if s.len() == 0 {
        None
    } else {
        match latest_start(s.drop_last()) {
            None => Some(s.last().started_at),
            Some(t) => if t.before(s.last().started_at) {
                Some(s.last().started_at)
            } else {
                Some(t)
            },
        }
    }
}

/// `t` is the latest start time of the stored scans.
pub open spec fn is_latest_start(m: Map<u128, ScanResult>, t: Timestamp) -> bool {
    &&& exists|id: u128| m.contains_key(id) && m[id].started_at == t
    &&& forall|id: u128| m.contains_key(id) ==> (#[trigger] m[id]).started_at.not_after(t)
}

proof fn lemma_map_of(s: Seq<ScanResult>)
    requires
        distinct_ids(s),
    ensures
        map_of(s).dom().finite(),
        map_of(s).dom().len() == s.len(),
        forall|id: u128|
            map_of(s).contains_key(id) <==> exists|i: int| 0 <= i < s.len() && s[i].id == id,
        forall|i: int| 0 <= i < s.len() ==> map_of(s)[#[trigger] s[i].id] == s[i],
    decreases s.len(),
{
    if s.len() > 0 {
        let t = s.drop_last();
        lemma_map_of(t);
        let x = s.last();
        assert(!map_of(t).contains_key(x.id)) by {
            if map_of(t).contains_key(x.id) {
                let i = choose|i: int| 0 <= i < t.len() && t[i].id == x.id;
                assert(s[i].id == s[s.len() - 1].id);
            }
        }
        assert forall|id: u128| map_of(s).contains_key(id) <==> exists|i: int|
            0 <= i < s.len() && s[i].id == id by {
            if map_of(t).contains_key(id) {
                let i = choose|i: int| 0 <= i < t.len() && t[i].id == id;
                assert(s[i].id == id);
            }
            if id == x.id {
                assert(s[s.len() - 1].id == id);
            }
            if exists|i: int| 0 <= i < s.len() && s[i].id == id {
                let i = choose|i: int| 0 <= i < s.len() && s[i].id == id;
                if i < s.len() - 1 {
                    assert(t[i].id == id);
                }
            }
        }
        assert forall|i: int| 0 <= i < s.len() implies map_of(s)[#[trigger] s[i].id] == s[i] by {
            if i < s.len() - 1 {
                assert(t[i] == s[i]);
                assert(s[i].id != x.id);
            }
        }
    }
}

proof fn lemma_counts(s: Seq<ScanResult>, st: ScanStatus)
    requires
        distinct_ids(s),
    ensures
        ids_with_status(map_of(s), st).finite(),
        ids_with_status(map_of(s), st).len() == count_status(s, st),
    decreases s.len(),
{
    lemma_map_of(s);
    if s.len() == 0 {
        assert(ids_with_status(map_of(s), st) =~= Set::empty());
    } else {
        let t = s.drop_last();
        let x = s.last();
        lemma_map_of(t);
        lemma_counts(t, st);
        assert(!map_of(t).contains_key(x.id)) by {
            if map_of(t).contains_key(x.id) {
                let i = choose|i: int| 0 <= i < t.len() && t[i].id == x.id;
                assert(s[i].id == s[s.len() - 1].id);
            }
        }
        let before = ids_with_status(map_of(t), st);
        let after = ids_with_status(map_of(s), st);
        if x.status == st {
            assert(after =~= before.insert(x.id));
        } else {
            assert(after =~= before);
        }
    }
}

proof fn lemma_latest(s: Seq<ScanResult>)
    ensures
        latest_start(s) is None <==> s.len() == 0,
        latest_start(s) matches Some(t) ==> (exists|i: int| 0 <= i < s.len() && s[i].started_at == t)
            && (forall|i: int| 0 <= i < s.len() ==> (#[trigger] s[i]).started_at.not_after(t)),
    decreases s.len(),
{
    if s.len() > 0 {
        let t = s.drop_last();
        lemma_latest(t);
        let last = s.len() - 1;
        match latest_start(t) {
            None => {
                assert(s[last].started_at == s.last().started_at);
            },
            Some(m) => {
                let i = choose|i: int| 0 <= i < t.len() && t[i].started_at == m;
                assert(s[i].started_at == m);
                assert(s[last].started_at == s.last().started_at);
                assert forall|k: int| 0 <= k < s.len() implies (#[trigger] s[k]).started_at.not_after(
                    latest_start(s)->0,
                ) by {
                    if k < last {
                        assert(t[k] == s[k]);
                    }
                }
            },
        }
    }
}

/// Walking a map whose scans sit under their own ids, each entry once,
/// yields scans with distinct ids that stand for the map again.
proof fn lemma_walk(m: Map<u128, ScanResult>, pairs: Seq<(&u128, &ScanResult)>, sc: Seq<ScanResult>)
    requires
        m.dom().finite(),
        pairs.len() == m.dom().len(),
        forall|i: int|
            0 <= i < pairs.len() ==> m.contains_key(*(#[trigger] pairs[i]).0) && m[*pairs[i].0]
                == *pairs[i].1,
        forall|k: u128| #[trigger] m.contains_key(k) ==> pairs.contains((&k, &m[k])),
        pairs.no_duplicates(),
        forall|k: u128| #[trigger] m.contains_key(k) ==> m[k].id == k,
        sc.len() == pairs.len(),
        forall|i: int| 0 <= i < sc.len() ==> sc[i] == *(#[trigger] pairs[i]).1,
    ensures
        distinct_ids(sc),
        map_of(sc) == m,
{
    assert forall|i: int| 0 <= i < sc.len() implies (#[trigger] sc[i]).id == *pairs[i].0 by {
        assert(m.contains_key(*pairs[i].0));
    }
    assert forall|i: int, j: int| 0 <= i < sc.len() && 0 <= j < sc.len() && i != j implies sc[i].id
        != sc[j].id by {
        if sc[i].id == sc[j].id {
            assert(*pairs[i].0 == *pairs[j].0);
            assert(pairs[i] == pairs[j]);
        }
    }
    lemma_map_of(sc);
    assert(map_of(sc) =~= m) by {
        assert forall|k: u128| #[trigger] map_of(sc).contains_key(k) <==> m.contains_key(k) by {
            if m.contains_key(k) {
                let i = choose|i: int| 0 <= i < pairs.len() && pairs[i] == (&k, &m[k]);
                assert(sc[i].id == k);
            }
            if map_of(sc).contains_key(k) {
                let i = choose|i: int| 0 <= i < sc.len() && sc[i].id == k;
                assert(m.contains_key(*pairs[i].0));
            }
        }
        assert forall|k: u128| #[trigger] map_of(sc).contains_key(k) implies map_of(sc)[k] == m[k] by {
            let i = choose|i: int| 0 <= i < sc.len() && sc[i].id == k;
            assert(map_of(sc)[sc[i].id] == sc[i]);
            assert(m.contains_key(*pairs[i].0));
        }
    }
}

/// The scans kept in memory, one per id.
pub struct InMemoryScanRepository {
    scans: HashMap<u128, ScanResult>,
}

impl View for InMemoryScanRepository {
    type V = Map<u128, ScanResult>;

    /// The stored scans by id.
    closed spec fn view(&self) -> Map<u128, ScanResult> {
        self.scans@
    }
}

impl InMemoryScanRepository {
    /// Each scan is stored under its own id.
    #[verifier::type_invariant]
    spec fn stored_under_own_id(self) -> bool {
        forall|id: u128| #[trigger] self.scans@.contains_key(id) ==> self.scans@[id].id == id
    }

    /// An empty store.
    pub fn new() -> (r: Self)
        ensures
            r@ == Map::<u128, ScanResult>::empty(),
    {
        InMemoryScanRepository { scans: HashMap::new() }
    }

    /// The stored scans, each once, in the order in which the map hands
    /// them out.
    fn stored(&self) -> (r: Vec<&ScanResult>)
        ensures
            distinct_ids(r@.unref()),
            map_of(r@.unref()) == self@,
    {
        broadcast use vstd::std_specs::hash::group_hash_axioms;
        proof {
            use_type_invariant(self);
        }
        let ghost m = self.scans@;
        let ghost pairs = vstd::std_specs::hash::spec_hash_map_iter(&self.scans).remaining();
        let mut out: Vec<&ScanResult> = Vec::new();
        for pair in it: self.scans.iter()
            invariant
                m == self.scans@,
                it.seq() == pairs,
                out@.len() == it.index(),
                forall|i: int| 0 <= i < it.index() ==> out@[i] == it.seq()[i].1,
        {
            let (_, v) = pair;
            out.push(v);
        }
        proof {
            assert(out@.len() == pairs.len());
            lemma_walk(m, pairs, out@.unref());
        }
        out
    }

    /// Stores `scan` under its id, replacing a scan stored under that id.
    pub fn save_scan(&mut self, scan: ScanResult)
        ensures
            final(self)@ == old(self)@.insert(scan.id, scan),
    {
        broadcast use vstd::std_specs::hash::group_hash_axioms;
        proof {
            use_type_invariant(&*self);
        }
        let mut scans: HashMap<u128, ScanResult> = HashMap::new();
        std::mem::swap(&mut scans, &mut self.scans);
        let id = scan.id;
        scans.insert(id, scan);
        self.scans = scans;
    }

    /// The scan stored under `scan_id`, if any.
    pub fn get_scan(&self, scan_id: u128) -> (r: Option<&ScanResult>)
        ensures
            match r {
                Some(s) => self@.contains_key(scan_id) && *s == self@[scan_id],
                None => !self@.contains_key(scan_id),
            },
    {
        broadcast use vstd::std_specs::hash::group_hash_axioms;
        self.scans.get(&scan_id)
    }

    /// Removes the scan stored under `scan_id`; tells whether there was one.
    pub fn delete_scan(&mut self, scan_id: u128) -> (r: bool)
        ensures
            r == old(self)@.contains_key(scan_id),
            final(self)@ == old(self)@.remove(scan_id),
    {
        broadcast use vstd::std_specs::hash::group_hash_axioms;
        proof {
            use_type_invariant(&*self);
        }
        let mut scans: HashMap<u128, ScanResult> = HashMap::new();
        std::mem::swap(&mut scans, &mut self.scans);
        let removed = scans.remove(&scan_id);
        self.scans = scans;
        removed.is_some()
    }

    /// Counts of the stored scans by status, and the latest start time.
    pub fn get_scan_statistics(&self) -> (r: ScanStatistics)
        ensures
            self@.dom().finite(),
            r.total_scans == self@.len(),
            r.successful_scans == ids_with_status(self@, ScanStatus::Completed).len(),
            r.failed_scans == ids_with_status(self@, ScanStatus::Failed).len(),
            r.last_scan_time is None <==> self@.len() == 0,
            r.last_scan_time matches Some(t) ==> is_latest_start(self@, t),
    {
        let all = self.stored();
        let ghost sc = all@.unref();
        proof {
            lemma_map_of(sc);
            lemma_counts(sc, ScanStatus::Completed);
            lemma_counts(sc, ScanStatus::Failed);
            lemma_latest(sc);
        }
        let n = all.len();
        let mut successful: usize = 0;
        let mut failed: usize = 0;
        let mut last: Option<Timestamp> = None;
        let mut i: usize = 0;
        while i < n
            invariant
                n == sc.len(),
                sc == all@.unref(),
                i <= n,
                successful <= i,
                failed <= i,
                successful == count_status(sc.take(i as int), ScanStatus::Completed),
                failed == count_status(sc.take(i as int), ScanStatus::Failed),
                last == latest_start(sc.take(i as int)),
            decreases n - i,
        {
            let s: &ScanResult = all[i];
            assert(sc.take(i + 1).drop_last() == sc.take(i as int));
            assert(sc.take(i + 1).last() == sc[i as int]);
            match s.status {
                ScanStatus::Completed => {
                    successful = successful + 1;
                },
                ScanStatus::Failed => {
                    failed = failed + 1;
                },
                ScanStatus::InProgress => {},
            }
            last = match last {
                None => Some(s.started_at),
                Some(t) => if t.is_before(&s.started_at) {
                    Some(s.started_at)
                } else {
                    Some(t)
                },
            };
            i = i + 1;
        }
        assert(sc.take(n as int) == sc);
        proof {
            if let Some(t) = last {
                let k = choose|k: int| 0 <= k < sc.len() && sc[k].started_at == t;
                assert(self@.contains_key(sc[k].id));
                assert(self@[sc[k].id] == sc[k]);
                assert forall|id: u128| self@.contains_key(id) implies (#[trigger] self@[id]).started_at.not_after(
                    t,
                ) by {
                    let q = choose|q: int| 0 <= q < sc.len() && sc[q].id == id;
                    assert(self@[sc[q].id] == sc[q]);
                }
            }
        }
        ScanStatistics {
            total_scans: n,
            successful_scans: successful,
            failed_scans: failed,
            last_scan_time: last,
        }
    }

    /// All stored scans, each once, latest start first. Scans that started
    /// at the same instant come in the order in which the map walks them,
    /// which nothing here fixes.
    pub fn get_all_scans(&self) -> (r: Vec<&ScanResult>)
        ensures
            r@.len() == self@.len(),
            forall|i: int|
                0 <= i < r@.len() ==> self@.contains_key((#[trigger] r@[i]).id) && *r@[i]
                    == self@[r@[i].id],
            forall|id: u128| #[trigger]
                self@.contains_key(id) ==> exists|i: int| 0 <= i < r@.len() && r@[i].id == id,
            forall|i: int, j: int| 0 <= i < j < r@.len() ==> r@[i].id != r@[j].id,
            forall|i: int, j: int|
                0 <= i < j < r@.len() ==> !(#[trigger] r@[i]).started_at.before(
                    (#[trigger] r@[j]).started_at,
                ),
    {
        let all = self.stored();
        let ghost sc = all@.unref();
        proof {
            lemma_map_of(sc);
        }
        let n = all.len();
        let mut sorted: Vec<&ScanResult> = Vec::new();
        let mut i: usize = 0;
        while i < n
            invariant
                n == sc.len(),
                sc == all@.unref(),
                distinct_ids(sc),
                i <= n,
                sorted_prefix(sorted@, sc, i as int),
            decreases n - i,
        {
            let x: &ScanResult = all[i];
            let p = insert_position(&sorted, &x.started_at);
            let ghost old_sorted = sorted@;
            sorted.insert(p, x);
            proof {
                lemma_insert_drawn(old_sorted, sorted@, sc, i as int, p as int);
                lemma_insert_covers(old_sorted, sorted@, sc, i as int, p as int);
                lemma_insert_unique(old_sorted, sorted@, sc, i as int, p as int);
                lemma_insert_order(old_sorted, sorted@, x, p as int);
            }
            i = i + 1;
        }
        proof {
            assert forall|k: int| 0 <= k < sorted@.len() implies self@.contains_key(
                (#[trigger] sorted@[k]).id,
            ) && *sorted@[k] == self@[sorted@[k].id] by {
                let m = choose|m: int| 0 <= m < n && *sorted@[k] == sc[m];
                assert(map_of(sc)[sc[m].id] == sc[m]);
            }
            assert forall|id: u128| #[trigger] self@.contains_key(id) implies exists|k: int|
                0 <= k < sorted@.len() && sorted@[k].id == id by {
                let m = choose|m: int| 0 <= m < sc.len() && sc[m].id == id;
                let k = choose|k: int| 0 <= k < sorted@.len() && *sorted@[k] == sc[m];
                assert(sorted@[k].id == id);
            }
        }
        sorted
    }
}

impl Default for InMemoryScanRepository {
    /// An empty store.
    fn default() -> (r: Self)
        ensures
            r@ == Map::<u128, ScanResult>::empty(),
    {
        Self::new()
    }
}

/// Every entry of `sorted` is one of the first `i` scans of `sc`.
pub open spec fn drawn_from(sorted: Seq<&ScanResult>, sc: Seq<ScanResult>, i: int) -> bool {
    forall|k: int|
        #![trigger sorted[k]]
        0 <= k < sorted.len() ==> exists|m: int|
            #![trigger sc[m]]
            0 <= m < i && *sorted[k] == sc[m]
}

/// Each of the first `i` scans of `sc` is in `sorted`.
pub open spec fn covers_prefix(sorted: Seq<&ScanResult>, sc: Seq<ScanResult>, i: int) -> bool {
    forall|m: int|
        #![trigger sc[m]]
        0 <= m < i ==> exists|k: int|
            #![trigger sorted[k]]
            0 <= k < sorted.len() && *sorted[k] == sc[m]
}

/// No two entries share an id.
pub open spec fn ids_unique(sorted: Seq<&ScanResult>) -> bool {
    forall|a: int, b: int| 0 <= a < b < sorted.len() ==> sorted[a].id != sorted[b].id
}

/// Latest start first.
pub open spec fn latest_first(sorted: Seq<&ScanResult>) -> bool {
    forall|a: int, b: int|
        0 <= a < b < sorted.len() ==> !(#[trigger] sorted[a]).started_at.before(
            (#[trigger] sorted[b]).started_at,
        )
}

/// `sorted` holds the first `i` scans of `sc`, each once, latest start
/// first.
pub open spec fn sorted_prefix(sorted: Seq<&ScanResult>, sc: Seq<ScanResult>, i: int) -> bool {
    &&& sorted.len() == i
    &&& drawn_from(sorted, sc, i)
    &&& covers_prefix(sorted, sc, i)
    &&& ids_unique(sorted)
    &&& latest_first(sorted)
}

/// Where a scan that started at `t` goes in a list ordered latest first:
/// after every scan that did not start before it.
fn insert_position(sorted: &Vec<&ScanResult>, t: &Timestamp) -> (p: usize)
    ensures
        p <= sorted@.len(),
        forall|k: int| 0 <= k < p ==> !sorted@[k].started_at.before(*t),
        p < sorted@.len() ==> sorted@[p as int].started_at.before(*t),
{
    let len = sorted.len();
    let mut p: usize = 0;
    while p < len && !sorted[p].started_at.is_before(t)
        invariant
            len == sorted@.len(),
            p <= len,
            forall|k: int| 0 <= k < p ==> !sorted@[k].started_at.before(*t),
        decreases len - p,
    {
        p = p + 1;
    }
    p
}

proof fn lemma_insert_drawn(
    old_sorted: Seq<&ScanResult>,
    sorted: Seq<&ScanResult>,
    sc: Seq<ScanResult>,
    i: int,
    p: int,
)
    requires
        0 <= i < sc.len(),
        drawn_from(old_sorted, sc, i),
        0 <= p <= old_sorted.len(),
        sorted == old_sorted.insert(p, &sc[i]),
    ensures
        drawn_from(sorted, sc, i + 1),
{
    assert forall|k: int|
        #![trigger sorted[k]]
        0 <= k < sorted.len() implies exists|m: int|
            #![trigger sc[m]]
            0 <= m < i + 1 && *sorted[k] == sc[m] by {
        if k < p {
            assert(sorted[k] == old_sorted[k]);
        } else if k == p {
            assert(*sorted[k] == sc[i]);
        } else {
            assert(sorted[k] == old_sorted[k - 1]);
        }
    }
}

proof fn lemma_insert_covers(
    old_sorted: Seq<&ScanResult>,
    sorted: Seq<&ScanResult>,
    sc: Seq<ScanResult>,
    i: int,
    p: int,
)
    requires
        0 <= i < sc.len(),
        covers_prefix(old_sorted, sc, i),
        0 <= p <= old_sorted.len(),
        sorted == old_sorted.insert(p, &sc[i]),
    ensures
        covers_prefix(sorted, sc, i + 1),
{
    assert forall|m: int|
        #![trigger sc[m]]
        0 <= m < i + 1 implies exists|k: int|
            #![trigger sorted[k]]
            0 <= k < sorted.len() && *sorted[k] == sc[m] by {
        if m == i {
            assert(*sorted[p] == sc[m]);
        } else {
            let k = choose|k: int| 0 <= k < old_sorted.len() && *old_sorted[k] == sc[m];
            if k < p {
                assert(sorted[k] == old_sorted[k]);
            } else {
                assert(sorted[k + 1] == old_sorted[k]);
            }
        }
    }
}

proof fn lemma_insert_unique(
    old_sorted: Seq<&ScanResult>,
    sorted: Seq<&ScanResult>,
    sc: Seq<ScanResult>,
    i: int,
    p: int,
)
    requires
        0 <= i < sc.len(),
        distinct_ids(sc),
        drawn_from(old_sorted, sc, i),
        ids_unique(old_sorted),
        0 <= p <= old_sorted.len(),
        sorted == old_sorted.insert(p, &sc[i]),
    ensures
        ids_unique(sorted),
{
    let x = sc[i];
    assert forall|k: int| 0 <= k < old_sorted.len() implies old_sorted[k].id != x.id by {
        let m = choose|m: int| 0 <= m < i && *old_sorted[k] == sc[m];
        assert(sc[m].id != sc[i].id);
    }
    assert forall|a: int, b: int| 0 <= a < b < sorted.len() implies sorted[a].id != sorted[b].id by {
        let a2 = if a < p { a } else { a - 1 };
        let b2 = if b < p { b } else { b - 1 };
        if a != p && b != p {
            assert(sorted[a] == old_sorted[a2]);
            assert(sorted[b] == old_sorted[b2]);
        } else if a == p {
            assert(sorted[b] == old_sorted[b2]);
        } else {
            assert(sorted[a] == old_sorted[a2]);
        }
    }
}

proof fn lemma_insert_order(old_sorted: Seq<&ScanResult>, sorted: Seq<&ScanResult>, x: &ScanResult, p: int)
    requires
        latest_first(old_sorted),
        0 <= p <= old_sorted.len(),
        sorted == old_sorted.insert(p, x),
        forall|k: int| 0 <= k < p ==> !old_sorted[k].started_at.before(x.started_at),
        p < old_sorted.len() ==> old_sorted[p].started_at.before(x.started_at),
    ensures
        latest_first(sorted),
{
    assert forall|a: int, b: int| 0 <= a < b < sorted.len() implies !(
    #[trigger] sorted[a]).started_at.before((#[trigger] sorted[b]).started_at) by {
        if b < p {
            assert(sorted[a] == old_sorted[a]);
            assert(sorted[b] == old_sorted[b]);
        } else if b == p {
            assert(sorted[a] == old_sorted[a]);
        } else if a < p {
            assert(sorted[a] == old_sorted[a]);
            assert(sorted[b] == old_sorted[b - 1]);
            if b - 1 > p {
                assert(!old_sorted[p].started_at.before(old_sorted[b - 1].started_at));
            }
            assert(old_sorted[p].started_at.before(x.started_at));
        } else if a == p {
            assert(sorted[b] == old_sorted[b - 1]);
            if b - 1 > p {
                assert(!old_sorted[p].started_at.before(old_sorted[b - 1].started_at));
            }
            assert(old_sorted[p].started_at.before(x.started_at));
        } else {
            assert(sorted[a] == old_sorted[a - 1]);
            assert(sorted[b] == old_sorted[b - 1]);
        }
    }
}

// ---------------------------------------------------------------------------
// Laws of the store. `save_scan` turns the stored map `m` into
// `m.insert(scan.id, scan)`, `delete_scan` into `m.remove(id)`, and
// `get_scan` reads `m` at an id.
// ---------------------------------------------------------------------------

/// Law: after a scan is saved, reading its id gives that scan back.
pub proof fn law_get_after_save(m: Map<u128, ScanResult>, scan: ScanResult)
    ensures
        m.insert(scan.id, scan).contains_key(scan.id),
        m.insert(scan.id, scan)[scan.id] == scan,
{
}

/// Law: saving a scan leaves every other id as it was.
pub proof fn law_save_keeps_other_scans(m: Map<u128, ScanResult>, scan: ScanResult, id: u128)
    requires
        id != scan.id,
    ensures
        m.insert(scan.id, scan).contains_key(id) == m.contains_key(id),
        m.contains_key(id) ==> m.insert(scan.id, scan)[id] == m[id],
{
}

/// Law: after a delete, the id is absent, so a second delete of it reports
/// that there was nothing to remove; other ids are untouched.
pub proof fn law_delete_removes(m: Map<u128, ScanResult>, id: u128, other: u128)
    requires
        other != id,
    ensures
        !m.remove(id).contains_key(id),
        m.remove(id).contains_key(other) == m.contains_key(other),
        m.contains_key(other) ==> m.remove(id)[other] == m[other],
{
}

/// Law: saving a scan and then deleting it gives back the store as it was
/// when the id was free.
pub proof fn law_delete_undoes_save(m: Map<u128, ScanResult>, scan: ScanResult)
    requires
        !m.contains_key(scan.id),
    ensures
        m.insert(scan.id, scan).remove(scan.id) == m,
{
    assert(m.insert(scan.id, scan).remove(scan.id) =~= m);
}

/// A write to the store: `save_scan` of a scan, or `delete_scan` of an id.
pub enum StoreWrite {
    Save(ScanResult),
    Delete(u128),
}

/// What one write does to the stored map, as the `ensures` of `save_scan`
/// and `delete_scan` state it.
pub open spec fn apply_write(m: Map<u128, ScanResult>, w: StoreWrite) -> Map<u128, ScanResult> {
    match w {
        StoreWrite::Save(s) => m.insert(s.id, s),
        StoreWrite::Delete(id) => m.remove(id),
    }
}

/// The stored map after a sequence of writes, in order.
pub open spec fn apply_writes(m: Map<u128, ScanResult>, ws: Seq<StoreWrite>) -> Map<u128, ScanResult>
    decreases ws.len(),
{
    if ws.len() == 0 {
        m
    } else {
        apply_write(apply_writes(m, ws.drop_last()), ws.last())
    }
}

/// Whether a write concerns the id `id`.
pub open spec fn writes_id(w: StoreWrite, id: u128) -> bool {
    match w {
        StoreWrite::Save(s) => s.id == id,
        StoreWrite::Delete(d) => d == id,
    }
}

/// The last write of the sequence that concerns `id`, if any.
pub open spec fn last_write_to(ws: Seq<StoreWrite>, id: u128) -> Option<StoreWrite>
    decreases ws.len(),
{
    if ws.len() == 0 {
        None
    } else if writes_id(ws.last(), id) {
        Some(ws.last())
    } else {
        last_write_to(ws.drop_last(), id)
    }
}

/// Law: after any sequence of saves and deletes, reading an id gives the
/// scan of the last save of that id, or nothing when the last write to it
/// was a delete; an id that no write concerns reads as before. A re-save
/// replaces the scan stored under its id, never adds a second one.
pub proof fn law_read_after_writes(m: Map<u128, ScanResult>, ws: Seq<StoreWrite>, id: u128)
    ensures
        match last_write_to(ws, id) {
            Some(StoreWrite::Save(s)) => apply_writes(m, ws).contains_key(id) && apply_writes(
                m,
                ws,
            )[id] == s,
            Some(StoreWrite::Delete(_)) => !apply_writes(m, ws).contains_key(id),
            None => apply_writes(m, ws).contains_key(id) == m.contains_key(id) && (m.contains_key(
                id,
            ) ==> apply_writes(m, ws)[id] == m[id]),
        },
    decreases ws.len(),
{
    if ws.len() > 0 {
        law_read_after_writes(m, ws.drop_last(), id);
    }
}

/// Law: completed and failed scans together never outnumber the stored
/// scans.
pub proof fn law_status_counts_bounded(m: Map<u128, ScanResult>)
    requires
        m.dom().finite(),
    ensures
        ids_with_status(m, ScanStatus::Completed).len() + ids_with_status(m, ScanStatus::Failed).len()
            <= m.len(),
{
    let a = ids_with_status(m, ScanStatus::Completed);
    let b = ids_with_status(m, ScanStatus::Failed);
    vstd::set_lib::lemma_len_subset(a, m.dom());
    vstd::set_lib::lemma_len_subset(b, m.dom());
    assert(a.disjoint(b));
    vstd::set_lib::lemma_set_disjoint_lens(a, b);
    vstd::set_lib::lemma_len_subset(a + b, m.dom());
}

} // verus!
