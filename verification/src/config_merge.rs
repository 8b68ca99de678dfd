//! Layering a configuration file over the defaults. A configuration is a
//! tree: tables of named entries, and values at the leaves. The file's
//! tree is merged into the defaults' tree: where both hold a table, their
//! entries are merged key by key; anywhere else the file's node replaces
//! the default one; keys only the defaults have are kept.

use vstd::prelude::*;
use crate::text::str_eq;

verus! {

/// A configuration tree whose leaves are of type `L`.
pub enum ConfigNode<L> {
    /// Named entries, in order.
    Table(Vec<(String, ConfigNode<L>)>),
    /// A leaf value.
    Value(L),
}

/// A configuration tree as plain values.
pub enum NodeView<L> {
    Table(Seq<(Seq<char>, NodeView<L>)>),
    Value(L),
}

pub open spec fn node_view<L>(n: ConfigNode<L>) -> NodeView<L>
    decreases n, 1int,
{
    match n {
        ConfigNode::Table(v) => NodeView::Table(entries_view(v@)),
        ConfigNode::Value(l) => NodeView::Value(l),
    }
}

pub open spec fn entries_view<L>(s: Seq<(String, ConfigNode<L>)>) -> Seq<(Seq<char>, NodeView<L>)>
    decreases s, 0int,
{
    if s.len() == 0 {
        Seq::empty()
    } else {
        entries_view(s.drop_last()).push((s.last().0@, node_view(s.last().1)))
    }
}

/// The position of the first entry named `key`.
pub open spec fn key_index<L>(s: Seq<(Seq<char>, NodeView<L>)>, key: Seq<char>) -> Option<int> {
    if exists|i: int| 0 <= i < s.len() && s[i].0 == key {
        Some(choose|i: int| 0 <= i < s.len() && s[i].0 == key && forall|j: int| 0 <= j < i ==> s[j].0 != key)
    } else {
        None
    }
}

/// `overlay` merged into `base`: two tables merge entry by entry; any
/// other overlay node replaces the base node.
pub open spec fn merged<L>(base: NodeView<L>, overlay: NodeView<L>) -> NodeView<L>
    decreases overlay, 1int,
{
    match overlay {
        NodeView::Table(ot) => match base {
            NodeView::Table(bt) => NodeView::Table(merged_entries(bt, ot)),
            NodeView::Value(_) => overlay,
        },
        NodeView::Value(_) => overlay,
    }
}

/// The overlay's entries merged, in order, into the base's entries: an
/// entry whose key the table already has merges into that entry; any
/// other is added at the end.
pub open spec fn merged_entries<L>(bt: Seq<(Seq<char>, NodeView<L>)>, ot: Seq<(Seq<char>, NodeView<L>)>) -> Seq<(Seq<char>, NodeView<L>)>
    decreases ot, 0int,
{
    if ot.len() == 0 {
        bt
    } else {
        let acc = merged_entries(bt, ot.drop_last());
        let e = ot.last();
        match key_index(acc, e.0) {
            Some(i) => acc.update(i, (acc[i].0, merged(acc[i].1, e.1))),
            None => acc.push(e),
        }
    }
}

proof fn lemma_entries_view_len<L>(s: Seq<(String, ConfigNode<L>)>)
    ensures
        entries_view(s).len() == s.len(),
    decreases s.len(),
{
    if s.len() > 0 {
        lemma_entries_view_len(s.drop_last());
    }
}

proof fn lemma_entries_view_index<L>(s: Seq<(String, ConfigNode<L>)>, i: int)
    requires
        0 <= i < s.len(),
    ensures
        entries_view(s)[i] == (s[i].0@, node_view(s[i].1)),
    decreases s.len(),
{
    lemma_entries_view_len(s);
    if i < s.len() - 1 {
        lemma_entries_view_len(s.drop_last());
        lemma_entries_view_index(s.drop_last(), i);
    }
}

/// The view of entries is taken entry by entry.
proof fn lemma_entries_view_ext<L>(s: Seq<(String, ConfigNode<L>)>)
    ensures
        entries_view(s) =~= Seq::new(s.len(), |i: int| (s[i].0@, node_view(s[i].1))),
{
    lemma_entries_view_len(s);
    assert forall|i: int| 0 <= i < s.len() implies entries_view(s)[i] == (s[i].0@, node_view(s[i].1)) by {
        lemma_entries_view_index(s, i);
    }
}

fn find_key<L>(v: &Vec<(String, ConfigNode<L>)>, key: &String) -> (r: Option<usize>)
    ensures
        match r {
            Some(i) => i < v@.len() && key_index(entries_view(v@), key@) == Some(i as int),
            None => key_index(entries_view(v@), key@) is None,
        },
{
    proof { lemma_entries_view_ext(v@); }
    let ghost ev = entries_view(v@);
    let mut i: usize = 0;
    while i < v.len()
        invariant
            i <= v@.len(),
            ev == entries_view(v@),
            ev == Seq::new(v@.len(), |k: int| (v@[k].0@, node_view(v@[k].1))),
            forall|j: int| 0 <= j < i ==> ev[j].0 != key@,
        decreases v@.len() - i,
    {
        if str_eq(v[i].0.as_str(), key.as_str()) {
            proof {
                let w = choose|m: int| 0 <= m < ev.len() && ev[m].0 == key@ && forall|j: int| 0 <= j < m ==> ev[j].0 != key@;
                assert(ev[i as int].0 == key@);
                if w < i {
                    assert(ev[w].0 != key@);
                }
                if i < w {
                    assert(ev[i as int].0 != key@);
                }
            }
            return Some(i);
        }
        i = i + 1;
    }
    None
}

/// Merges `overlay` into `base`.
#[verifier::loop_isolation(false)]
pub fn merge_node<L>(base: &mut ConfigNode<L>, overlay: ConfigNode<L>)
    ensures
        node_view(*final(base)) == merged(node_view(*old(base)), node_view(overlay)),
    decreases overlay,
{
    let ghost whole = overlay;
    match overlay {
        ConfigNode::Table(ov) => {
            let is_table = match base {
                ConfigNode::Table(_) => true,
                ConfigNode::Value(_) => false,
            };
            if !is_table {
                *base = ConfigNode::Table(ov);
                return;
            }
            let mut bv: Vec<(String, ConfigNode<L>)> = Vec::new();
            match base {
                ConfigNode::Table(t) => {
                    std::mem::swap(&mut bv, t);
                },
                ConfigNode::Value(_) => {},
            }
            let ghost bt0 = entries_view(bv@);
            assert(node_view(*old(base)) == NodeView::Table(bt0));
            assert(node_view(whole) == NodeView::Table(entries_view(ov@)));
            let ghost ot = ov@;
            let ghost ov_g = ov;
            let mut rest = ov;
            let n = rest.len();
            let mut k: usize = 0;
            proof {
                assert(ot.subrange(0, 0) =~= Seq::<(String, ConfigNode<L>)>::empty());
            }
            while k < n
                invariant
                    n == ot.len(),
                    k <= n,
                    rest@ == ot.subrange(k as int, n as int),
                    ov_g@ == ot,
                    whole == ConfigNode::Table(ov_g),
                    entries_view(bv@) == merged_entries(bt0, entries_view(ot.subrange(0, k as int))),
                decreases n - k,
            {
                let (key, node) = rest.remove(0);
                let ghost pre = ot.subrange(0, k as int + 1);
                proof {
                    assert(pre.drop_last() =~= ot.subrange(0, k as int));
                    assert(pre.last() == ot[k as int]);
                    assert(ot[k as int] == (key, node));
                    assert(whole == ConfigNode::Table(ov_g));
                    assert(decreases_to!(whole => whole->Table_0));
                    assert(whole->Table_0 == ov_g);
                    assert(decreases_to!(ov_g => ov_g@));
                    assert(decreases_to!(ov_g@ => ov_g@[k as int]));
                    assert(decreases_to!(ov_g@[k as int] => ov_g@[k as int].1));
                    assert(decreases_to!(whole => node));
                }
                let ghost acc = entries_view(bv@);
                let ghost before = bv@;
                let ghost e = (key@, node_view(node));
                proof {
                    lemma_entries_view_len(pre);
                    assert(entries_view(pre).drop_last() == entries_view(pre.drop_last()));
                    assert(entries_view(pre).last() == e);
                    assert(merged_entries(bt0, entries_view(pre)) == match key_index(acc, e.0) {
                        Some(i) => acc.update(i, (acc[i].0, merged(acc[i].1, e.1))),
                        None => acc.push(e),
                    });
                }
                let found = find_key(&bv, &key);
                match found {
                    Some(i) => {
                        let (bkey, mut bnode) = bv.remove(i);
                        let ghost old_node = bnode;
                        merge_node(&mut bnode, node);
                        bv.insert(i, (bkey, bnode));
                        proof {
                            assert(bv@ =~= before.update(i as int, (bkey, bnode)));
                            lemma_entries_view_ext(before);
                            lemma_entries_view_ext(bv@);
                            lemma_entries_view_index(before, i as int);
                            assert(acc[i as int] == (bkey@, node_view(old_node)));
                            assert(entries_view(bv@) =~= acc.update(i as int, (acc[i as int].0, merged(acc[i as int].1, e.1))));
                        }
                    },
                    None => {
                        bv.push((key, node));
                        proof {
                            assert(bv@.drop_last() =~= before);
                        }
                    },
                }
                k = k + 1;
            }
            assert(ot.subrange(0, n as int) =~= ot);
            *base = ConfigNode::Table(bv);
        },
        ConfigNode::Value(l) => {
            *base = ConfigNode::Value(l);
        },
    }
}

/// The node at the end of a path of keys, following the first entry with
/// each key.
pub open spec fn lookup<L>(n: NodeView<L>, path: Seq<Seq<char>>) -> Option<NodeView<L>>
    decreases path.len(),
{
    if path.len() == 0 {
        Some(n)
    } else {
        match n {
            NodeView::Table(t) => match key_index(t, path[0]) {
                Some(i) => lookup(t[i].1, path.drop_first()),
                None => None,
            },
            NodeView::Value(_) => None,
        }
    }
}

/// No key occurs twice in a table.
pub open spec fn distinct_keys<L>(t: Seq<(Seq<char>, NodeView<L>)>) -> bool {
    forall|i: int, j: int| 0 <= i < j < t.len() ==> t[i].0 != t[j].0
}

/// Every table met along the path has distinct keys.
pub open spec fn unique_along<L>(n: NodeView<L>, path: Seq<Seq<char>>) -> bool
    decreases path.len(),
{
    if path.len() == 0 {
        true
    } else {
        match n {
            NodeView::Table(t) => distinct_keys(t) && match key_index(t, path[0]) {
                Some(i) => unique_along(t[i].1, path.drop_first()),
                None => true,
            },
            NodeView::Value(_) => true,
        }
    }
}

/// The tree says nothing along the path: following it through tables
/// reaches a table without the next key.
pub open spec fn lacks_path<L>(n: NodeView<L>, path: Seq<Seq<char>>) -> bool
    decreases path.len(),
{
    path.len() > 0 && match n {
        NodeView::Table(t) => match key_index(t, path[0]) {
            Some(i) => lacks_path(t[i].1, path.drop_first()),
            None => true,
        },
        NodeView::Value(_) => false,
    }
}

proof fn lemma_key_index_some<L>(s: Seq<(Seq<char>, NodeView<L>)>, k: Seq<char>, i: int)
    requires
        0 <= i < s.len(),
        s[i].0 == k,
        forall|j: int| 0 <= j < i ==> s[j].0 != k,
    ensures
        key_index(s, k) == Some(i),
{
    let w = choose|m: int| 0 <= m < s.len() && s[m].0 == k && forall|j: int| 0 <= j < m ==> s[j].0 != k;
    if w < i {
        assert(s[w].0 != k);
    }
    if i < w {
        assert(s[i].0 != k);
    }
}

proof fn lemma_key_index_facts<L>(s: Seq<(Seq<char>, NodeView<L>)>, k: Seq<char>)
    ensures
        key_index(s, k) matches Some(i) ==> 0 <= i < s.len() && s[i].0 == k && forall|j: int| 0 <= j < i ==> s[j].0 != k,
        key_index(s, k) is None ==> forall|j: int| 0 <= j < s.len() ==> s[j].0 != k,
{
    if exists|i: int| 0 <= i < s.len() && s[i].0 == k {
        let i0 = choose|i: int| 0 <= i < s.len() && s[i].0 == k;
        lemma_first_exists(s, k, i0);
    }
}

proof fn lemma_first_exists<L>(s: Seq<(Seq<char>, NodeView<L>)>, k: Seq<char>, i0: int)
    requires
        0 <= i0 < s.len(),
        s[i0].0 == k,
    ensures
        exists|m: int| 0 <= m < s.len() && s[m].0 == k && forall|j: int| 0 <= j < m ==> s[j].0 != k,
    decreases i0,
{
    if exists|j: int| 0 <= j < i0 && s[j].0 == k {
        let j0 = choose|j: int| 0 <= j < i0 && s[j].0 == k;
        lemma_first_exists(s, k, j0);
    } else {
        assert(forall|j: int| 0 <= j < i0 ==> s[j].0 != k);
    }
}

/// Changing or adding an entry of another key leaves where a key is found,
/// and what is found there.
proof fn lemma_key_index_other<L>(s: Seq<(Seq<char>, NodeView<L>)>, k: Seq<char>, i2: int, e: (Seq<char>, NodeView<L>))
    requires
        e.0 != k,
        0 <= i2 <= s.len(),
        i2 < s.len() ==> s[i2].0 == e.0,
    ensures
        ({
            let u = if i2 < s.len() { s.update(i2, e) } else { s.push(e) };
            &&& key_index(u, k) == key_index(s, k)
            &&& key_index(s, k) matches Some(i) ==> u[i] == s[i]
        }),
{
    let u = if i2 < s.len() { s.update(i2, e) } else { s.push(e) };
    lemma_key_index_facts(s, k);
    lemma_key_index_facts(u, k);
    match key_index(s, k) {
        Some(i) => {
            assert(u[i] == s[i]);
            assert forall|j: int| 0 <= j < i implies u[j].0 != k by {
                if j != i2 { assert(u[j] == s[j]); }
            }
            lemma_key_index_some(u, k, i);
        },
        None => {
            assert forall|j: int| 0 <= j < u.len() implies u[j].0 != k by {
                if j != i2 { assert(u[j] == s[j]); }
            }
            if key_index(u, k) is Some {
                let i = key_index(u, k).unwrap();
                assert(u[i].0 == k);
            }
        },
    }
}

/// Merging entries that do not name `k` leaves the entry for `k` as it was.
proof fn lemma_merge_untouched<L>(bt: Seq<(Seq<char>, NodeView<L>)>, ot: Seq<(Seq<char>, NodeView<L>)>, k: Seq<char>)
    requires
        forall|j: int| 0 <= j < ot.len() ==> ot[j].0 != k,
    ensures
        key_index(merged_entries(bt, ot), k) == key_index(bt, k),
        key_index(bt, k) matches Some(i) ==> merged_entries(bt, ot)[i] == bt[i],
    decreases ot.len(),
{
    if ot.len() > 0 {
        let acc = merged_entries(bt, ot.drop_last());
        lemma_merge_untouched(bt, ot.drop_last(), k);
        let e = ot.last();
        lemma_key_index_facts(acc, e.0);
        match key_index(acc, e.0) {
            Some(i2) => lemma_key_index_other(acc, k, i2, (acc[i2].0, merged(acc[i2].1, e.1))),
            None => lemma_key_index_other(acc, k, acc.len() as int, e),
        }
    }
}

/// Merging entries with distinct keys, one of which names `k`: the entry
/// for `k` is the base's entry merged with the overlay's, or the overlay's
/// where the base has none.
proof fn lemma_merge_touched<L>(bt: Seq<(Seq<char>, NodeView<L>)>, ot: Seq<(Seq<char>, NodeView<L>)>, j: int)
    requires
        distinct_keys(ot),
        0 <= j < ot.len(),
    ensures
        key_index(merged_entries(bt, ot), ot[j].0) matches Some(i) && merged_entries(bt, ot)[i].1 == match key_index(bt, ot[j].0) {
            Some(ib) => merged(bt[ib].1, ot[j].1),
            None => ot[j].1,
        },
    decreases ot.len(),
{
    let k = ot[j].0;
    let acc = merged_entries(bt, ot.drop_last());
    let e = ot.last();
    let init = ot.drop_last();
    assert forall|a: int, b: int| 0 <= a < b < init.len() implies init[a].0 != init[b].0 by {
        assert(init[a] == ot[a] && init[b] == ot[b]);
    }
    if j == ot.len() - 1 {
        assert forall|m: int| 0 <= m < init.len() implies init[m].0 != k by {
            assert(init[m] == ot[m]);
        }
        lemma_merge_untouched(bt, init, k);
        lemma_key_index_facts(acc, k);
        lemma_key_index_facts(bt, k);
        match key_index(acc, k) {
            Some(i) => {
                let u = acc.update(i, (acc[i].0, merged(acc[i].1, e.1)));
                assert forall|m: int| 0 <= m < i implies u[m].0 != k by { assert(u[m] == acc[m]); }
                lemma_key_index_some(u, k, i);
            },
            None => {
                let u = acc.push(e);
                assert forall|m: int| 0 <= m < acc.len() implies u[m].0 != k by { assert(u[m] == acc[m]); }
                lemma_key_index_some(u, k, acc.len() as int);
            },
        }
    } else {
        assert(init[j] == ot[j]);
        lemma_merge_touched(bt, init, j);
        assert(e.0 != k);
        lemma_key_index_facts(acc, e.0);
        match key_index(acc, e.0) {
            Some(i2) => lemma_key_index_other(acc, k, i2, (acc[i2].0, merged(acc[i2].1, e.1))),
            None => lemma_key_index_other(acc, k, acc.len() as int, e),
        }
    }
}

proof fn lemma_lacks_path_lookup<L>(n: NodeView<L>, path: Seq<Seq<char>>)
    requires
        lacks_path(n, path),
    ensures
        lookup(n, path) is None,
    decreases path.len(),
{
    match n {
        NodeView::Table(t) => match key_index(t, path[0]) {
            Some(i) => lemma_lacks_path_lookup(t[i].1, path.drop_first()),
            None => {},
        },
        NodeView::Value(_) => {},
    }
}

/// A value the file sets is the value the merged configuration holds.
pub proof fn law_file_value_wins<L>(defaults: NodeView<L>, file: NodeView<L>, path: Seq<Seq<char>>, v: L)
    requires
        lookup(file, path) == Some(NodeView::<L>::Value(v)),
        unique_along(file, path),
    ensures
        lookup(merged(defaults, file), path) == Some(NodeView::<L>::Value(v)),
    decreases path.len(),
{
    if path.len() > 0 {
        match file {
            NodeView::Table(ot) => {
                let j = key_index(ot, path[0]).unwrap();
                lemma_key_index_facts(ot, path[0]);
                match defaults {
                    NodeView::Table(bt) => {
                        lemma_merge_touched(bt, ot, j);
                        let r = merged_entries(bt, ot);
                        let i = key_index(r, path[0]).unwrap();
                        match key_index(bt, path[0]) {
                            Some(ib) => law_file_value_wins(bt[ib].1, ot[j].1, path.drop_first(), v),
                            None => {},
                        }
                    },
                    NodeView::Value(_) => {},
                }
            },
            NodeView::Value(_) => {},
        }
    }
}

/// Where the file says nothing, the merged configuration holds the default.
pub proof fn law_default_kept<L>(defaults: NodeView<L>, file: NodeView<L>, path: Seq<Seq<char>>)
    requires
        lacks_path(file, path),
        unique_along(file, path),
    ensures
        lookup(merged(defaults, file), path) == lookup(defaults, path),
    decreases path.len(),
{
    match file {
        NodeView::Table(ot) => {
            lemma_key_index_facts(ot, path[0]);
            match defaults {
                NodeView::Table(bt) => {
                    match key_index(ot, path[0]) {
                        None => {
                            lemma_merge_untouched(bt, ot, path[0]);
                        },
                        Some(j) => {
                            lemma_merge_touched(bt, ot, j);
                            match key_index(bt, path[0]) {
                                Some(ib) => law_default_kept(bt[ib].1, ot[j].1, path.drop_first()),
                                None => lemma_lacks_path_lookup(ot[j].1, path.drop_first()),
                            }
                        },
                    }
                },
                NodeView::Value(_) => {
                    match key_index(ot, path[0]) {
                        None => {},
                        Some(j) => lemma_lacks_path_lookup(ot[j].1, path.drop_first()),
                    }
                },
            }
        },
        NodeView::Value(_) => {},
    }
}

} // verus!
