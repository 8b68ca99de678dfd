//! Garbage collection of the asset cache. When the store holds more assets
//! than the configured number, or its bodies take more bytes than the
//! configured total, assets are dropped oldest first (pinned ones are kept),
//! and a body is deleted once no remaining asset uses it.
//!
//! The oldest-first walk goes through the positions of the assets as they
//! stood when the walk began, while dropping assets shifts the later ones
//! down; the walk reads the asset found at each listed position at that
//! moment. A walk that reaches a position past the end cannot go on.

use vstd::prelude::*;
use crate::assoc::{assoc_get, lemma_assoc_get_first, lemma_assoc_get_absent};
use crate::cache::{AssetMetadata, AssetStore, pin_present};
use crate::config::CacheConfig;
use crate::text::{chars_of, chars_lt, chars_eq, str_eq, seq_lt, lemma_seq_lt_total, lemma_seq_lt_trans, lemma_seq_lt_irreflexive};
use crate::urls::opt_view;

verus! {

/// What collection reads of an asset: (id, creation time, hash, body key).
pub type GcRec = (Seq<char>, Seq<char>, Option<Seq<char>>, Option<Seq<char>>);

pub open spec fn rec_of(a: AssetMetadata) -> GcRec {
    (a.asset_id@, a.created_at@, opt_view(a.hash), opt_view(a.body_key))
}

/// The assets at the listed positions of `e`, as collection reads them.
pub open spec fn live_recs(e: Seq<AssetMetadata>, live: Seq<usize>) -> Seq<GcRec> {
    Seq::new(live.len(), |j: int| rec_of(e[live[j] as int]))
}

/// The records of all assets.
pub open spec fn recs_of(e: Seq<AssetMetadata>) -> Seq<GcRec> {
    Seq::new(e.len(), |i: int| rec_of(e[i]))
}

pub open spec fn usizes_view(v: Seq<usize>) -> Seq<int> {
    Seq::new(v.len(), |i: int| v[i] as int)
}

/// Asset `a` was created before asset `b`: its creation time comes first
/// as text, or the times are equal and `a` stands first.
pub open spec fn created_before(r: Seq<GcRec>, a: int, b: int) -> bool {
    seq_lt(r[a].1, r[b].1) || (r[a].1 == r[b].1 && a < b)
}

/// Where position `i` goes among the ordered positions `o`: before the
/// first one created after it.
pub open spec fn insert_pos(r: Seq<GcRec>, o: Seq<int>, i: int, from: int) -> int
    decreases o.len() - from,
{
    if from < 0 || from >= o.len() {
        o.len() as int
    } else if created_before(r, i, o[from]) {
        from
    } else {
        insert_pos(r, o, i, from + 1)
    }
}

/// The positions below `n`, oldest first: what a stable sort of the
/// positions by creation time gives.
pub open spec fn creation_order(r: Seq<GcRec>, n: int) -> Seq<int>
    decreases n,
{
    if n <= 0 {
        Seq::empty()
    } else {
        let o = creation_order(r, n - 1);
        o.insert(insert_pos(r, o, n - 1, 0), n - 1)
    }
}

/// The first position at or after `from` holding the asset id `id`.
pub open spec fn first_id_from(r: Seq<GcRec>, id: Seq<char>, from: int) -> int
    decreases r.len() - from,
{
    if from < 0 || from >= r.len() {
        r.len() as int
    } else if r[from].0 == id {
        from
    } else {
        first_id_from(r, id, from + 1)
    }
}

/// Whether an asset other than the one at `pos` keeps its body under `key`.
pub open spec fn shared_elsewhere(r: Seq<GcRec>, pos: int, key: Seq<char>) -> bool {
    exists|m: int| 0 <= m < r.len() && m != pos && #[trigger] r[m].3 == Some(key)
}

/// Whether an asset's hash is pinned.
pub open spec fn pinned_rec(x: GcRec, pins: Seq<(String, bool)>) -> bool {
    x.2 matches Some(h) && pin_present(pins, h)
}

/// Collection so far: the remaining records, whether anything was dropped,
/// the positions dropped (each in the list as it stood then), and the body
/// keys to delete.
pub type GcState = (Seq<GcRec>, bool, Seq<int>, Seq<Seq<char>>);

/// Drops the first asset with the id of the asset at `idx`; its body is to
/// be deleted when no remaining asset uses it.
pub open spec fn drop_at(st: GcState, idx: int) -> GcState {
    let r = st.0;
    let pos = first_id_from(r, r[idx].0, 0);
    let deleted = match r[pos].3 {
        Some(k) => if shared_elsewhere(r, pos, k) { st.3 } else { st.3.push(k) },
        None => st.3,
    };
    (r.remove(pos), true, st.2.push(pos), deleted)
}

/// The walk that enforces the limit on the number of assets.
pub open spec fn entry_walk(st: GcState, order: Seq<int>, k: int, pins: Seq<(String, bool)>, limit: int) -> Option<GcState>
    decreases order.len() - k,
{
    if k < 0 || k >= order.len() || st.0.len() <= limit {
        Some(st)
    } else {
        let idx = order[k];
        if idx < 0 || idx >= st.0.len() {
            None
        } else if pinned_rec(st.0[idx], pins) {
            entry_walk(st, order, k + 1, pins, limit)
        } else {
            entry_walk(drop_at(st, idx), order, k + 1, pins, limit)
        }
    }
}

/// The size of a stored body: what the file system reports, nothing for a
/// body it does not know.
pub open spec fn blob_size(sizes: Seq<(Seq<char>, u64)>, key: Seq<char>) -> int {
    match assoc_get(sizes, key) {
        Some(n) => n as int,
        None => 0,
    }
}

pub open spec fn rec_size(x: GcRec, sizes: Seq<(Seq<char>, u64)>) -> int {
    match x.3 {
        Some(k) => blob_size(sizes, k),
        None => 0,
    }
}

pub open spec fn sat_add(a: int, b: int) -> int {
    if a + b > u64::MAX { u64::MAX as int } else { a + b }
}

pub open spec fn sat_sub(a: int, b: int) -> int {
    if a - b < 0 { 0 } else { a - b }
}

/// Whether some record before position `n` uses the body key.
pub open spec fn key_before(r: Seq<GcRec>, n: int, key: Seq<char>) -> bool {
    exists|m: int| 0 <= m < n && #[trigger] r[m].3 == Some(key)
}

/// The bytes the bodies take: each body key counted once, saturating.
pub open spec fn total_bytes(r: Seq<GcRec>, sizes: Seq<(Seq<char>, u64)>) -> int
    decreases r.len(),
{
    if r.len() == 0 {
        0
    } else {
        let t = total_bytes(r.drop_last(), sizes);
        match r.last().3 {
            Some(k) => if key_before(r, r.len() - 1, k) { t } else { sat_add(t, blob_size(sizes, k)) },
            None => t,
        }
    }
}

/// The walk that enforces the limit on the bytes of the bodies; the total
/// goes down by the size of each dropped asset's body.
pub open spec fn size_walk(st: GcState, order: Seq<int>, k: int, pins: Seq<(String, bool)>, max: int, total: int, sizes: Seq<(Seq<char>, u64)>) -> Option<GcState>
    decreases order.len() - k,
{
    if k < 0 || k >= order.len() || total <= max {
        Some(st)
    } else {
        let idx = order[k];
        if idx < 0 || idx >= st.0.len() {
            None
        } else if pinned_rec(st.0[idx], pins) {
            size_walk(st, order, k + 1, pins, max, total, sizes)
        } else {
            size_walk(drop_at(st, idx), order, k + 1, pins, max, sat_sub(total, rec_size(st.0[idx], sizes)), sizes)
        }
    }
}

/// What collection does to the store's records: nothing when no limit is
/// set, or when only the count is limited and it is not exceeded;
/// otherwise first the count walk (when the count is limited and
/// exceeded), then, when the bytes are limited and the strategy is
/// "oldest", the byte walk (when the total exceeds the limit). None where
/// a walk cannot go on.
pub open spec fn gc_outcome(r: Seq<GcRec>, pins: Seq<(String, bool)>, cfg: CacheConfig, sizes: Seq<(Seq<char>, u64)>) -> Option<GcState> {
    let limit = cfg.gc_max_entries as int;
    let max = cfg.max_total_bytes as int;
    let start: GcState = (r, false, Seq::empty(), Seq::empty());
    if limit == 0 && max == 0 {
        Some(start)
    } else if limit > 0 && r.len() <= limit && max == 0 {
        Some(start)
    } else {
        let first = if limit > 0 && r.len() > limit {
            entry_walk(start, creation_order(r, r.len() as int), 0, pins, limit)
        } else {
            Some(start)
        };
        match first {
            None => None,
            Some(st1) => if max > 0 && cfg.gc_strategy@ == "oldest"@ {
                let total = total_bytes(st1.0, sizes);
                if total <= max {
                    Some(st1)
                } else {
                    size_walk(st1, creation_order(st1.0, st1.0.len() as int), 0, pins, max, total, sizes)
                }
            } else {
                Some(st1)
            },
        }
    }
}

/// The list after removing, in turn, the element at each position.
pub open spec fn after_removals<T>(e: Seq<T>, rs: Seq<int>) -> Seq<T>
    decreases rs.len(),
{
    if rs.len() == 0 {
        e
    } else {
        after_removals(e, rs.drop_last()).remove(rs.last())
    }
}

/// Each position lies in the list as it stands when it is removed.
pub open spec fn removals_fit(n: int, rs: Seq<int>) -> bool {
    forall|i: int| 0 <= i < rs.len() ==> 0 <= #[trigger] rs[i] < n - i
}

/// What collection decided.
#[derive(Debug, Clone)]
pub struct GcPlan {
    /// Whether any asset is dropped.
    pub removed: bool,
    /// The positions to remove, in turn.
    pub removals: Vec<usize>,
    /// The body keys whose blobs are to be deleted.
    pub deleted_blobs: Vec<String>,
}

pub open spec fn sizes_view(v: Seq<(String, u64)>) -> Seq<(Seq<char>, u64)> {
    Seq::new(v.len(), |i: int| (v[i].0@, v[i].1))
}

fn rec_created_before(e: &Vec<AssetMetadata>, live: &Vec<usize>, a: usize, b: usize) -> (r: bool)
    requires
        a < live@.len(),
        b < live@.len(),
        forall|j: int| 0 <= j < live@.len() ==> live@[j] < e@.len(),
    ensures
        r == created_before(live_recs(e@, live@), a as int, b as int),
{
    let ta = chars_of(e[live[a]].created_at.as_str());
    let tb = chars_of(e[live[b]].created_at.as_str());
    chars_lt(ta.as_slice(), tb.as_slice()) || (chars_eq(ta.as_slice(), tb.as_slice()) && a < b)
}

proof fn lemma_created_before_total(r: Seq<GcRec>, a: int, b: int)
    requires
        a != b,
    ensures
        created_before(r, a, b) || created_before(r, b, a),
        !(created_before(r, a, b) && created_before(r, b, a)),
{
    lemma_seq_lt_total(r[a].1, r[b].1);
    if r[a].1 == r[b].1 {
        lemma_seq_lt_irreflexive(r[a].1);
    }
}

proof fn lemma_created_before_trans(r: Seq<GcRec>, a: int, b: int, c: int)
    requires
        created_before(r, a, b),
        created_before(r, b, c),
    ensures
        created_before(r, a, c),
{
    if seq_lt(r[a].1, r[b].1) && seq_lt(r[b].1, r[c].1) {
        lemma_seq_lt_trans(r[a].1, r[b].1, r[c].1);
    }
}

/// The creation order holds each position below `n` once, oldest first.
pub proof fn law_creation_order_sorted(r: Seq<GcRec>, n: int)
    requires
        n >= 0,
    ensures
        creation_order(r, n).len() == n,
        forall|i: int| 0 <= i < n ==> 0 <= #[trigger] creation_order(r, n)[i] < n,
        forall|i: int, j: int| 0 <= i < j < n ==> created_before(r, creation_order(r, n)[i], creation_order(r, n)[j]),
    decreases n,
{
    if n > 0 {
        law_creation_order_sorted(r, n - 1);
        let o = creation_order(r, n - 1);
        let p = insert_pos(r, o, n - 1, 0);
        lemma_insert_pos(r, o, n - 1, 0);
        let u = o.insert(p, n - 1);
        assert forall|i: int, j: int| 0 <= i < j < n implies created_before(r, u[i], u[j]) by {
            if j < p {
                assert(u[i] == o[i] && u[j] == o[j]);
            } else if j == p {
                assert(u[i] == o[i]);
                lemma_created_before_total(r, o[i], n - 1);
            } else if i < p {
                assert(u[i] == o[i] && u[j] == o[j - 1]);
            } else if i == p {
                assert(u[j] == o[j - 1]);
                if j - 1 > p {
                    lemma_created_before_trans(r, n - 1, o[p], o[j - 1]);
                }
            } else {
                assert(u[i] == o[i - 1] && u[j] == o[j - 1]);
            }
        }
    }
}

proof fn lemma_insert_pos(r: Seq<GcRec>, o: Seq<int>, i: int, from: int)
    requires
        0 <= from <= o.len(),
    ensures
        from <= insert_pos(r, o, i, from) <= o.len(),
        forall|q: int| from <= q < insert_pos(r, o, i, from) ==> !created_before(r, i, o[q]),
        insert_pos(r, o, i, from) < o.len() ==> created_before(r, i, o[insert_pos(r, o, i, from)]),
    decreases o.len() - from,
{
    if from < o.len() && !created_before(r, i, o[from]) {
        lemma_insert_pos(r, o, i, from + 1);
    }
}

/// The creation order of the listed assets.
fn order_of(e: &Vec<AssetMetadata>, live: &Vec<usize>) -> (o: Vec<usize>)
    requires
        forall|j: int| 0 <= j < live@.len() ==> live@[j] < e@.len(),
    ensures
        usizes_view(o@) == creation_order(live_recs(e@, live@), live@.len() as int),
        forall|j: int| 0 <= j < o@.len() ==> o@[j] < live@.len(),
{
    let ghost r = live_recs(e@, live@);
    let n = live.len();
    let mut o: Vec<usize> = Vec::new();
    let mut i: usize = 0;
    assert(usizes_view(o@) =~= Seq::<int>::empty());
    while i < n
        invariant
            n == live@.len(),
            i <= n,
            r == live_recs(e@, live@),
            forall|j: int| 0 <= j < live@.len() ==> live@[j] < e@.len(),
            usizes_view(o@) == creation_order(r, i as int),
            o@.len() == i,
            forall|j: int| 0 <= j < o@.len() ==> o@[j] < i,
        decreases n - i,
    {
        let ghost ov = usizes_view(o@);
        let mut p: usize = 0;
        while p < o.len() && !rec_created_before(e, live, i, o[p])
            invariant
                p <= o@.len(),
                i < n,
                n == live@.len(),
                r == live_recs(e@, live@),
                forall|j: int| 0 <= j < live@.len() ==> live@[j] < e@.len(),
                forall|j: int| 0 <= j < o@.len() ==> o@[j] < i,
                ov == usizes_view(o@),
                insert_pos(r, ov, i as int, p as int) == insert_pos(r, ov, i as int, 0),
            decreases o@.len() - p,
        {
            assert(ov[p as int] == o@[p as int] as int);
            p = p + 1;
        }
        proof {
            if p < o@.len() {
                assert(ov[p as int] == o@[p as int] as int);
            }
        }
        o.insert(p, i);
        proof {
            assert(usizes_view(o@) =~= ov.insert(p as int, i as int));
        }
        i = i + 1;
    }
    o
}

fn first_id_position(e: &Vec<AssetMetadata>, live: &Vec<usize>, id: &String) -> (r: usize)
    requires
        forall|j: int| 0 <= j < live@.len() ==> live@[j] < e@.len(),
    ensures
        r as int == first_id_from(live_recs(e@, live@), id@, 0),
        r <= live@.len(),
{
    let ghost rs = live_recs(e@, live@);
    let mut j: usize = 0;
    while j < live.len()
        invariant
            j <= live@.len(),
            rs == live_recs(e@, live@),
            forall|m: int| 0 <= m < live@.len() ==> live@[m] < e@.len(),
            first_id_from(rs, id@, j as int) == first_id_from(rs, id@, 0),
        decreases live@.len() - j,
    {
        if str_eq(e[live[j]].asset_id.as_str(), id.as_str()) {
            return j;
        }
        j = j + 1;
    }
    j
}

fn shared_elsewhere_exec(e: &Vec<AssetMetadata>, live: &Vec<usize>, pos: usize, key: &String) -> (r: bool)
    requires
        forall|j: int| 0 <= j < live@.len() ==> live@[j] < e@.len(),
    ensures
        r == shared_elsewhere(live_recs(e@, live@), pos as int, key@),
{
    let ghost rs = live_recs(e@, live@);
    let mut m: usize = 0;
    while m < live.len()
        invariant
            m <= live@.len(),
            rs == live_recs(e@, live@),
            forall|j: int| 0 <= j < live@.len() ==> live@[j] < e@.len(),
            forall|q: int| 0 <= q < m && q != pos ==> rs[q].3 != Some(key@),
        decreases live@.len() - m,
    {
        if m != pos {
            let hit = match &e[live[m]].body_key {
                Some(k) => str_eq(k.as_str(), key.as_str()),
                None => false,
            };
            if hit {
                assert(rs[m as int].3 == Some(key@));
                return true;
            }
        }
        m = m + 1;
    }
    false
}

#[verifier::loop_isolation(false)]
fn is_pinned(store: &AssetStore, a: &AssetMetadata) -> (r: bool)
    ensures
        r == pinned_rec(rec_of(*a), store.spec_pins()),
{
    match &a.hash {
        Some(h) => {
            let pins = store.pins();
            let mut k: usize = 0;
            while k < pins.len()
                invariant
                    k <= pins@.len(),
                    pins@ == store.spec_pins(),
                    forall|q: int| 0 <= q < k ==> pins@[q].0@ != h@,
                decreases pins@.len() - k,
            {
                if str_eq(pins[k].0.as_str(), h.as_str()) {
                    assert(pins@[k as int].0@ == h@);
                    return true;
                }
                k = k + 1;
            }
            false
        },
        None => false,
    }
}

fn blob_size_exec(sizes: &Vec<(String, u64)>, key: &String) -> (r: u64)
    ensures
        r as int == blob_size(sizes_view(sizes@), key@),
{
    let ghost sv = sizes_view(sizes@);
    let mut i: usize = 0;
    while i < sizes.len()
        invariant
            i <= sizes@.len(),
            sv == sizes_view(sizes@),
            forall|q: int| 0 <= q < i ==> sv[q].0 != key@,
        decreases sizes@.len() - i,
    {
        if str_eq(sizes[i].0.as_str(), key.as_str()) {
            proof { lemma_assoc_get_first(sv, i as int, key@); }
            return sizes[i].1;
        }
        i = i + 1;
    }
    proof { lemma_assoc_get_absent(sv, key@); }
    0
}

fn total_bytes_exec(e: &Vec<AssetMetadata>, live: &Vec<usize>, sizes: &Vec<(String, u64)>) -> (r: u64)
    requires
        forall|j: int| 0 <= j < live@.len() ==> live@[j] < e@.len(),
    ensures
        r as int == total_bytes(live_recs(e@, live@), sizes_view(sizes@)),
{
    let ghost rs = live_recs(e@, live@);
    let mut total: u64 = 0;
    let mut i: usize = 0;
    while i < live.len()
        invariant
            i <= live@.len(),
            rs == live_recs(e@, live@),
            forall|j: int| 0 <= j < live@.len() ==> live@[j] < e@.len(),
            total as int == total_bytes(rs.subrange(0, i as int), sizes_view(sizes@)),
        decreases live@.len() - i,
    {
        let ghost pre = rs.subrange(0, i as int + 1);
        proof {
            assert(pre.drop_last() =~= rs.subrange(0, i as int));
            assert(pre.last() == rs[i as int]);
        }
        match &e[live[i]].body_key {
            Some(k) => {
                let mut m: usize = 0;
                let mut seen = false;
                while m < i && !seen
                    invariant
                        m <= i < live@.len(),
                        rs == live_recs(e@, live@),
                        pre == rs.subrange(0, i as int + 1),
                        forall|j: int| 0 <= j < live@.len() ==> live@[j] < e@.len(),
                        rs[i as int].3 == Some(k@),
                        seen ==> key_before(pre, i as int, k@),
                        !seen ==> forall|q: int| 0 <= q < m ==> pre[q].3 != Some(k@),
                    decreases i - m, if seen { 0int } else { 1int },
                {
                    let hit = match &e[live[m]].body_key {
                        Some(other) => str_eq(other.as_str(), k.as_str()),
                        None => false,
                    };
                    assert(pre[m as int] == rs[m as int]);
                    if hit {
                        seen = true;
                    } else {
                        m = m + 1;
                    }
                }
                if !seen {
                    let size = blob_size_exec(sizes, k);
                    total = if total > u64::MAX - size { u64::MAX } else { total + size };
                }
            },
            None => {},
        }
        i = i + 1;
    }
    assert(rs.subrange(0, live@.len() as int) =~= rs);
    total
}

/// One drop: the position removed from the list and the body key to
/// delete, if any.
fn drop_exec(e: &Vec<AssetMetadata>, live: &mut Vec<usize>, idx: usize, removals: &mut Vec<usize>, deleted: &mut Vec<String>)
    requires
        idx < old(live)@.len(),
        forall|j: int| 0 <= j < old(live)@.len() ==> old(live)@[j] < e@.len(),
    ensures
        forall|j: int| 0 <= j < final(live)@.len() ==> final(live)@[j] < e@.len(),
        final(live)@.len() == old(live)@.len() - 1,
        ({
            let st = drop_at((live_recs(e@, old(live)@), false, usizes_view(old(removals)@), strs(old(deleted)@)), idx as int);
            &&& live_recs(e@, final(live)@) == st.0
            &&& usizes_view(final(removals)@) == st.2
            &&& strs(final(deleted)@) == st.3
            &&& final(removals)@.len() == old(removals)@.len() + 1
            &&& final(removals)@.last() < old(live)@.len()
            &&& final(removals)@.drop_last() == old(removals)@
        }),
{
    let ghost rs = live_recs(e@, live@);
    let id = e[live[idx]].asset_id.clone();
    let pos = first_id_position(e, live, &id);
    proof {
        lemma_first_id_bound(rs, id@, 0, idx as int);
    }
    let del: Option<String> = match &e[live[pos]].body_key {
        Some(k) => {
            if shared_elsewhere_exec(e, live, pos, k) { None } else { Some(k.clone()) }
        },
        None => None,
    };
    let ghost before_removals = removals@;
    let ghost before_deleted = deleted@;
    let ghost before_live = live@;
    live.remove(pos);
    removals.push(pos);
    match del {
        Some(k) => {
            deleted.push(k);
            assert(strs(deleted@) =~= strs(before_deleted).push(k@));
        },
        None => {},
    }
    proof {
        assert(live_recs(e@, live@) =~= rs.remove(pos as int));
        assert(usizes_view(removals@) =~= usizes_view(before_removals).push(pos as int));
        assert(removals@.drop_last() =~= before_removals);
    }
}

proof fn lemma_first_id_bound(r: Seq<GcRec>, id: Seq<char>, from: int, idx: int)
    requires
        0 <= from <= idx < r.len(),
        r[idx].0 == id,
    ensures
        from <= first_id_from(r, id, from) <= idx,
    decreases idx - from,
{
    if r[from].0 != id {
        lemma_first_id_bound(r, id, from + 1, idx);
    }
}

pub open spec fn strs(v: Seq<String>) -> Seq<Seq<char>> {
    Seq::new(v.len(), |i: int| v[i]@)
}

impl AssetStore {
    /// Plans garbage collection over the store's assets, given the sizes of
    /// the stored bodies: which assets to drop (oldest first, pinned ones
    /// kept) and which bodies to delete. None where the walk cannot go on.
    #[verifier::loop_isolation(false)]
    pub fn gc_plan(&self, blob_sizes: &Vec<(String, u64)>) -> (r: Option<GcPlan>)
        ensures
            match gc_outcome(recs_of(self.spec_entries()), self.spec_pins(), self.spec_config(), sizes_view(blob_sizes@)) {
                None => r is None,
                Some(st) => r matches Some(p) && p.removed == st.1 && usizes_view(p.removals@) == st.2
                    && strs(p.deleted_blobs@) == st.3 && removals_fit(self.spec_entries().len() as int, st.2),
            },
    {
        let e = self.entries();
        let cfg = self.config();
        let ghost pins = self.spec_pins();
        let ghost sv = sizes_view(blob_sizes@);
        let ghost r0 = recs_of(e@);
        let n = e.len();
        let mut live: Vec<usize> = Vec::new();
        let mut i: usize = 0;
        while i < n
            invariant
                n == e@.len(),
                i <= n,
                live@.len() == i,
                forall|j: int| 0 <= j < i ==> live@[j] == j,
            decreases n - i,
        {
            live.push(i);
            i = i + 1;
        }
        assert(live_recs(e@, live@) =~= r0);
        let limit: u32 = cfg.gc_max_entries;
        let max: u64 = cfg.max_total_bytes;
        let mut removals: Vec<usize> = Vec::new();
        let mut deleted: Vec<String> = Vec::new();
        let mut removed = false;
        let ghost start: GcState = (r0, false, Seq::empty(), Seq::empty());
        assert(usizes_view(removals@) =~= Seq::<int>::empty());
        assert(strs(deleted@) =~= Seq::<Seq<char>>::empty());
        if limit == 0 && max == 0 {
            return Some(GcPlan { removed, removals, deleted_blobs: deleted });
        }
        if limit > 0 && n <= limit as usize && max == 0 {
            return Some(GcPlan { removed, removals, deleted_blobs: deleted });
        }
        let ghost first: Option<GcState> = if limit > 0 && r0.len() > limit {
            entry_walk(start, creation_order(r0, r0.len() as int), 0, pins, limit as int)
        } else {
            Some(start)
        };
        if limit > 0 && n > limit as usize {
            let order = order_of(e, &live);
            let ghost ov = usizes_view(order@);
            let mut k: usize = 0;
            loop
                invariant
                    n == e@.len(),
                    ov == usizes_view(order@),
                    ov == creation_order(r0, n as int),
                    forall|j: int| 0 <= j < live@.len() ==> live@[j] < e@.len(),
                    live@.len() + removals@.len() == n,
                    removals_fit(n as int, usizes_view(removals@)),
                    pins == self.spec_pins(),
                    first == entry_walk(start, ov, 0, pins, limit as int),
                    entry_walk((live_recs(e@, live@), removed, usizes_view(removals@), strs(deleted@)), ov, k as int, pins, limit as int) == first,
                decreases order@.len() - k,
            {
                let ghost cur: GcState = (live_recs(e@, live@), removed, usizes_view(removals@), strs(deleted@));
                if k >= order.len() || live.len() <= limit as usize {
                    break;
                }
                let idx = order[k];
                assert(ov[k as int] == idx as int);
                if idx >= live.len() {
                    return None;
                }
                if is_pinned(self, &e[live[idx]]) {
                    k = k + 1;
                } else {
                    let ghost old_removals = removals@;
                    drop_exec(e, &mut live, idx, &mut removals, &mut deleted);
                    removed = true;
                    proof {
                        let d = drop_at(cur, idx as int);
                        assert((live_recs(e@, live@), removed, usizes_view(removals@), strs(deleted@)) == d);
                        assert forall|q: int| 0 <= q < usizes_view(removals@).len() implies 0 <= #[trigger] usizes_view(removals@)[q] < n - q by {
                            if q < old_removals.len() {
                                assert(usizes_view(removals@)[q] == usizes_view(old_removals)[q]);
                            }
                        }
                    }
                    k = k + 1;
                }
            }
        }
        let ghost st1 = first.unwrap();
        assert(first == Some((live_recs(e@, live@), removed, usizes_view(removals@), strs(deleted@))));
        if max > 0 && str_eq(cfg.gc_strategy.as_str(), "oldest") {
            let total = total_bytes_exec(e, &live, blob_sizes);
            if total > max {
                let order = order_of(e, &live);
                let ghost ov = usizes_view(order@);
                let ghost target = size_walk(st1, ov, 0, pins, max as int, total as int, sv);
                let mut k: usize = 0;
                let mut current: u64 = total;
                loop
                    invariant
                        n == e@.len(),
                        ov == usizes_view(order@),
                        forall|j: int| 0 <= j < live@.len() ==> live@[j] < e@.len(),
                        live@.len() + removals@.len() == n,
                        removals_fit(n as int, usizes_view(removals@)),
                        pins == self.spec_pins(),
                        sv == sizes_view(blob_sizes@),
                        size_walk((live_recs(e@, live@), removed, usizes_view(removals@), strs(deleted@)), ov, k as int, pins, max as int, current as int, sv) == target,
                    decreases order@.len() - k,
                {
                    let ghost cur: GcState = (live_recs(e@, live@), removed, usizes_view(removals@), strs(deleted@));
                    if k >= order.len() || current <= max {
                        break;
                    }
                    let idx = order[k];
                    assert(ov[k as int] == idx as int);
                    if idx >= live.len() {
                        return None;
                    }
                    if is_pinned(self, &e[live[idx]]) {
                        k = k + 1;
                    } else {
                        let size: u64 = match &e[live[idx]].body_key {
                            Some(key) => blob_size_exec(blob_sizes, key),
                            None => 0,
                        };
                        assert(size as int == rec_size(cur.0[idx as int], sv));
                        let ghost old_removals = removals@;
                        drop_exec(e, &mut live, idx, &mut removals, &mut deleted);
                        removed = true;
                        current = if current > size { current - size } else { 0 };
                        proof {
                            let d = drop_at(cur, idx as int);
                            assert((live_recs(e@, live@), removed, usizes_view(removals@), strs(deleted@)) == d);
                            assert forall|q: int| 0 <= q < usizes_view(removals@).len() implies 0 <= #[trigger] usizes_view(removals@)[q] < n - q by {
                                if q < old_removals.len() {
                                    assert(usizes_view(removals@)[q] == usizes_view(old_removals)[q]);
                                }
                            }
                        }
                        k = k + 1;
                    }
                }
            }
        }
        Some(GcPlan { removed, removals, deleted_blobs: deleted })
    }
}

/// A walk state whose records are what the removals so far leave of `r`.
pub open spec fn state_from(r: Seq<GcRec>, st: GcState) -> bool {
    &&& st.0 == after_removals(r, st.2)
    &&& st.0.len() + st.2.len() == r.len()
    &&& removals_fit(r.len() as int, st.2)
}

proof fn lemma_drop_keeps_state(r: Seq<GcRec>, st: GcState, idx: int)
    requires
        state_from(r, st),
        0 <= idx < st.0.len(),
    ensures
        state_from(r, drop_at(st, idx)),
{
    lemma_first_id_bound(st.0, st.0[idx].0, 0, idx);
    let d = drop_at(st, idx);
    assert(d.2.drop_last() =~= st.2);
    assert forall|i: int| 0 <= i < d.2.len() implies 0 <= #[trigger] d.2[i] < r.len() - i by {
        if i < st.2.len() {
            assert(d.2[i] == st.2[i]);
        }
    }
}

proof fn lemma_entry_walk_state(r: Seq<GcRec>, st: GcState, order: Seq<int>, k: int, pins: Seq<(String, bool)>, limit: int)
    requires
        state_from(r, st),
    ensures
        entry_walk(st, order, k, pins, limit) matches Some(out) ==> state_from(r, out),
    decreases order.len() - k,
{
    if !(k < 0 || k >= order.len() || st.0.len() <= limit) {
        let idx = order[k];
        if 0 <= idx < st.0.len() {
            if pinned_rec(st.0[idx], pins) {
                lemma_entry_walk_state(r, st, order, k + 1, pins, limit);
            } else {
                lemma_drop_keeps_state(r, st, idx);
                lemma_entry_walk_state(r, drop_at(st, idx), order, k + 1, pins, limit);
            }
        }
    }
}

proof fn lemma_size_walk_state(r: Seq<GcRec>, st: GcState, order: Seq<int>, k: int, pins: Seq<(String, bool)>, max: int, total: int, sizes: Seq<(Seq<char>, u64)>)
    requires
        state_from(r, st),
    ensures
        size_walk(st, order, k, pins, max, total, sizes) matches Some(out) ==> state_from(r, out),
    decreases order.len() - k,
{
    if !(k < 0 || k >= order.len() || total <= max) {
        let idx = order[k];
        if 0 <= idx < st.0.len() {
            if pinned_rec(st.0[idx], pins) {
                lemma_size_walk_state(r, st, order, k + 1, pins, max, total, sizes);
            } else {
                lemma_drop_keeps_state(r, st, idx);
                lemma_size_walk_state(r, drop_at(st, idx), order, k + 1, pins, max, sat_sub(total, rec_size(st.0[idx], sizes)), sizes);
            }
        }
    }
}

proof fn lemma_records_commute(e: Seq<AssetMetadata>, rs: Seq<int>)
    requires
        removals_fit(e.len() as int, rs),
    ensures
        recs_of(after_removals(e, rs)) == after_removals(recs_of(e), rs),
        after_removals(e, rs).len() == e.len() - rs.len(),
    decreases rs.len(),
{
    if rs.len() > 0 {
        let init = rs.drop_last();
        assert forall|i: int| 0 <= i < init.len() implies 0 <= #[trigger] init[i] < e.len() - i by {
            assert(init[i] == rs[i]);
        }
        lemma_records_commute(e, init);
        let a = after_removals(e, init);
        assert(0 <= rs[rs.len() - 1] < e.len() - (rs.len() - 1));
        assert(recs_of(a.remove(rs.last())) =~= recs_of(a).remove(rs.last()));
    }
}

/// Carrying out a plan's removals on the assets leaves exactly the assets
/// that the walks kept.
pub proof fn law_plan_matches_records(e: Seq<AssetMetadata>, pins: Seq<(String, bool)>, cfg: CacheConfig, sizes: Seq<(Seq<char>, u64)>)
    requires
        gc_outcome(recs_of(e), pins, cfg, sizes) is Some,
    ensures
        ({
            let st = gc_outcome(recs_of(e), pins, cfg, sizes).unwrap();
            &&& removals_fit(e.len() as int, st.2)
            &&& recs_of(after_removals(e, st.2)) == st.0
        }),
{
    let r = recs_of(e);
    let start: GcState = (r, false, Seq::empty(), Seq::empty());
    assert(state_from(r, start));
    let limit = cfg.gc_max_entries as int;
    let max = cfg.max_total_bytes as int;
    if limit > 0 && r.len() > limit {
        lemma_entry_walk_state(r, start, creation_order(r, r.len() as int), 0, pins, limit);
    }
    let first = if limit > 0 && r.len() > limit {
        entry_walk(start, creation_order(r, r.len() as int), 0, pins, limit)
    } else {
        Some(start)
    };
    if let Some(st1) = first {
        if max > 0 && cfg.gc_strategy@ == "oldest"@ {
            let total = total_bytes(st1.0, sizes);
            lemma_size_walk_state(r, st1, creation_order(st1.0, st1.0.len() as int), 0, pins, max, total, sizes);
        }
    }
    let st = gc_outcome(r, pins, cfg, sizes).unwrap();
    lemma_records_commute(e, st.2);
}

} // verus!
