//! What the profile database's rows mean: permission grants and visit
//! statistics, decoded from the values the database hands back.

use vstd::prelude::*;
use crate::permissions::{
    Capability, PermissionDecision, DomainTables, tables_view, table_get, tables_set_decision,
    capability_from_label, decision_from_label, lemma_empty_tables,
};

verus! {

/// Grant rows as plain values: (domain, capability label, decision label).
pub open spec fn rows_view(rows: Seq<(String, String, String)>) -> Seq<(Seq<char>, Seq<char>, Seq<char>)> {
    Seq::new(rows.len(), |i: int| (rows[i].0@, rows[i].1@, rows[i].2@))
}

/// The decision that grant rows give for `domain` and `c`: that of the last
/// row for them whose capability and decision labels are both known. Rows
/// with an unknown label are skipped.
pub open spec fn row_grant(rows: Seq<(Seq<char>, Seq<char>, Seq<char>)>, domain: Seq<char>, c: Capability) -> Option<PermissionDecision>
    decreases rows.len(),
{
    if rows.len() == 0 {
        None
    } else {
        let r = rows.last();
        if r.0 == domain && capability_from_label(r.1) == Some(c) && decision_from_label(r.2) is Some {
            decision_from_label(r.2)
        } else {
            row_grant(rows.drop_last(), domain, c)
        }
    }
}

/// Builds per-domain grant tables from the rows of the grants table, in
/// the order the database returned them.
pub fn permission_grants_from_rows(rows: &Vec<(String, String, String)>) -> (r: DomainTables)
    ensures
        forall|dom: Seq<char>, c: Capability| #[trigger] table_get(tables_view(r@), dom, c)
            == row_grant(rows_view(rows@), dom, c),
{
    let mut out: DomainTables = Vec::new();
    proof { lemma_empty_tables(out@); }
    let mut i: usize = 0;
    while i < rows.len()
        invariant
            i <= rows@.len(),
            forall|dom: Seq<char>, c: Capability| #[trigger] table_get(tables_view(out@), dom, c)
                == row_grant(rows_view(rows@).subrange(0, i as int), dom, c),
        decreases rows@.len() - i,
    {
        let cap = Capability::from_label(rows[i].1.as_str());
        let dec = PermissionDecision::from_label(rows[i].2.as_str());
        let ghost pre = rows_view(rows@).subrange(0, i as int + 1);
        proof {
            assert(pre.drop_last() =~= rows_view(rows@).subrange(0, i as int));
            assert(pre.last() == (rows@[i as int].0@, rows@[i as int].1@, rows@[i as int].2@));
        }
        match (cap, dec) {
            (Some(c), Some(d)) => {
                tables_set_decision(&mut out, rows[i].0.as_str(), c, d);
            },
            _ => {},
        }
        i = i + 1;
    }
    assert(rows_view(rows@).subrange(0, rows@.len() as int) =~= rows_view(rows@));
    out
}

/// A stored visit count read back: negative values count as zero, and the
/// count keeps its low 32 bits.
pub open spec fn stored_count(count: i64) -> u32 {
    if count <= 0 { 0 } else { (count % 0x1_0000_0000) as u32 }
}

/// Reads back a stored visit count.
pub fn visit_count_from_db(count: i64) -> (r: u32)
    ensures
        r == stored_count(count),
{
    if count <= 0 {
        0
    } else {
        let c: u64 = count as u64;
        let low: u64 = c % 0x1_0000_0000u64;
        low as u32
    }
}

/// Reads back a stored visit total: negative values count as zero.
pub fn visit_total_from_db(total: i64) -> (r: u64)
    ensures
        r == (if total < 0 { 0 } else { total as int }),
{
    if total < 0 { 0 } else { total as u64 }
}


/// The last row for a domain and capability decides, if its labels are
/// known; a row with an unknown label changes nothing.
pub proof fn law_last_grant_row_wins(rows: Seq<(Seq<char>, Seq<char>, Seq<char>)>, row: (Seq<char>, Seq<char>, Seq<char>), domain: Seq<char>, c: Capability)
    ensures
        (row.0 == domain && capability_from_label(row.1) == Some(c) && decision_from_label(row.2) is Some)
            ==> row_grant(rows.push(row), domain, c) == decision_from_label(row.2),
        (capability_from_label(row.1) is None || decision_from_label(row.2) is None)
            ==> row_grant(rows.push(row), domain, c) == row_grant(rows, domain, c),
{
    assert(rows.push(row).drop_last() =~= rows);
}

} // verus!
