//! Capability-based permission policy: per-capability decisions, a default,
//! and per-domain overrides.

use vstd::prelude::*;
use crate::text::{str_eq, owned};
use crate::assoc::{assoc_get, lemma_assoc_get_first, lemma_assoc_get_absent, lemma_assoc_update_first, lemma_assoc_push_new};

verus! {

/// A capability that pages or automation clients may ask for.
#[derive(Debug, Clone, Copy, PartialEq, Eq, Structural, PartialOrd, Ord, Hash)]
pub enum Capability {
    TerminalExec,
    TerminalOutputRead,
    DomRead,
    CacheRead,
    TabInspect,
    AiToolUse,
    VirtualResourceMount,
    FsRead,
    FsWrite,
    DomWrite,
    ScreenshotWindow,
}

/// The kebab-case label of a capability.
pub open spec fn capability_label(c: Capability) -> Seq<char> {
    match c {
        Capability::TerminalExec => "terminal-exec"@,
        Capability::TerminalOutputRead => "terminal-output-read"@,
        Capability::DomRead => "dom-read"@,
        Capability::CacheRead => "cache-read"@,
        Capability::TabInspect => "tab-inspect"@,
        Capability::AiToolUse => "ai-tool-use"@,
        Capability::VirtualResourceMount => "virtual-resource-mount"@,
        Capability::FsRead => "fs-read"@,
        Capability::FsWrite => "fs-write"@,
        Capability::DomWrite => "dom-write"@,
        Capability::ScreenshotWindow => "screenshot-window"@,
    }
}

/// The capability whose label is `label`, if any.
pub open spec fn capability_from_label(label: Seq<char>) -> Option<Capability> {
    if label == "terminal-exec"@ {
        Some(Capability::TerminalExec)
    } else if label == "terminal-output-read"@ {
        Some(Capability::TerminalOutputRead)
    } else if label == "dom-read"@ {
        Some(Capability::DomRead)
    } else if label == "cache-read"@ {
        Some(Capability::CacheRead)
    } else if label == "tab-inspect"@ {
        Some(Capability::TabInspect)
    } else if label == "ai-tool-use"@ {
        Some(Capability::AiToolUse)
    } else if label == "virtual-resource-mount"@ {
        Some(Capability::VirtualResourceMount)
    } else if label == "fs-read"@ {
        Some(Capability::FsRead)
    } else if label == "fs-write"@ {
        Some(Capability::FsWrite)
    } else if label == "dom-write"@ {
        Some(Capability::DomWrite)
    } else if label == "screenshot-window"@ {
        Some(Capability::ScreenshotWindow)
    } else {
        None
    }
}

impl Capability {
    /// The capability's kebab-case label.
    pub fn label(&self) -> (r: &'static str)
        ensures
            r@ == capability_label(*self),
    {
        match self {
            Capability::TerminalExec => "terminal-exec",
            Capability::TerminalOutputRead => "terminal-output-read",
            Capability::DomRead => "dom-read",
            Capability::CacheRead => "cache-read",
            Capability::TabInspect => "tab-inspect",
            Capability::AiToolUse => "ai-tool-use",
            Capability::VirtualResourceMount => "virtual-resource-mount",
            Capability::FsRead => "fs-read",
            Capability::FsWrite => "fs-write",
            Capability::DomWrite => "dom-write",
            Capability::ScreenshotWindow => "screenshot-window",
        }
    }

    /// The capability with the given label; `None` for an unknown label.
    pub fn from_label(label: &str) -> (r: Option<Capability>)
        ensures
            r == capability_from_label(label@),
    {
        if str_eq(label, "terminal-exec") {
            Some(Capability::TerminalExec)
        } else if str_eq(label, "terminal-output-read") {
            Some(Capability::TerminalOutputRead)
        } else if str_eq(label, "dom-read") {
            Some(Capability::DomRead)
        } else if str_eq(label, "cache-read") {
            Some(Capability::CacheRead)
        } else if str_eq(label, "tab-inspect") {
            Some(Capability::TabInspect)
        } else if str_eq(label, "ai-tool-use") {
            Some(Capability::AiToolUse)
        } else if str_eq(label, "virtual-resource-mount") {
            Some(Capability::VirtualResourceMount)
        } else if str_eq(label, "fs-read") {
            Some(Capability::FsRead)
        } else if str_eq(label, "fs-write") {
            Some(Capability::FsWrite)
        } else if str_eq(label, "dom-write") {
            Some(Capability::DomWrite)
        } else if str_eq(label, "screenshot-window") {
            Some(Capability::ScreenshotWindow)
        } else {
            None
        }
    }
}

/// Parsing a capability's label gives the capability back.
pub proof fn lemma_capability_label_round_trip(c: Capability)
    ensures
        capability_from_label(capability_label(c)) == Some(c),
{
    broadcast use vstd::string::group_string_axioms;
    reveal_strlit("terminal-exec");
    reveal_strlit("terminal-output-read");
    reveal_strlit("dom-read");
    reveal_strlit("cache-read");
    reveal_strlit("tab-inspect");
    reveal_strlit("ai-tool-use");
    reveal_strlit("virtual-resource-mount");
    reveal_strlit("fs-read");
    reveal_strlit("fs-write");
    reveal_strlit("dom-write");
    reveal_strlit("screenshot-window");
    assert("terminal-exec"@.len() == 13);
    assert("terminal-output-read"@.len() == 20);
    assert("dom-read"@.len() == 8);
    assert("cache-read"@.len() == 10);
    assert("tab-inspect"@.len() == 11);
    assert("ai-tool-use"@.len() == 11);
    assert("virtual-resource-mount"@.len() == 22);
    assert("fs-read"@.len() == 7);
    assert("fs-write"@.len() == 8);
    assert("dom-write"@.len() == 9);
    assert("screenshot-window"@.len() == 17);
    assert("tab-inspect"@[0] == 't' && "ai-tool-use"@[0] == 'a');
    assert("dom-read"@[0] == 'd' && "fs-write"@[0] == 'f');
}

/// A label that parses to a capability is that capability's label.
pub proof fn lemma_capability_from_label_sound(label: Seq<char>)
    ensures
        capability_from_label(label) matches Some(c) ==> capability_label(c) == label,
{
}

/// What the policy says of a capability.
#[derive(Debug, Clone, Copy, PartialEq, Eq, Structural)]
pub enum PermissionDecision {
    Allow,
    Ask,
    Deny,
}

/// The kebab-case label of a decision.
pub open spec fn decision_label(d: PermissionDecision) -> Seq<char> {
    match d {
        PermissionDecision::Allow => "allow"@,
        PermissionDecision::Ask => "ask"@,
        PermissionDecision::Deny => "deny"@,
    }
}

/// The decision whose label is `label`, if any.
pub open spec fn decision_from_label(label: Seq<char>) -> Option<PermissionDecision> {
    if label == "allow"@ {
        Some(PermissionDecision::Allow)
    } else if label == "ask"@ {
        Some(PermissionDecision::Ask)
    } else if label == "deny"@ {
        Some(PermissionDecision::Deny)
    } else {
        None
    }
}

impl Default for PermissionDecision {
    fn default() -> (r: Self)
        ensures
            r == PermissionDecision::Ask,
    {
        PermissionDecision::Ask
    }
}

impl PermissionDecision {
    /// The decision with the given label; `None` for an unknown label.
    pub fn from_label(label: &str) -> (r: Option<PermissionDecision>)
        ensures
            r == decision_from_label(label@),
    {
        if str_eq(label, "allow") {
            Some(PermissionDecision::Allow)
        } else if str_eq(label, "ask") {
            Some(PermissionDecision::Ask)
        } else if str_eq(label, "deny") {
            Some(PermissionDecision::Deny)
        } else {
            None
        }
    }

    /// The decision's kebab-case label.
    pub fn label(&self) -> (r: &'static str)
        ensures
            r@ == decision_label(*self),
    {
        match self {
            PermissionDecision::Allow => "allow",
            PermissionDecision::Ask => "ask",
            PermissionDecision::Deny => "deny",
        }
    }
}

/// Parsing a decision's label gives the decision back.
pub proof fn lemma_decision_label_round_trip(d: PermissionDecision)
    ensures
        decision_from_label(decision_label(d)) == Some(d),
{
    broadcast use vstd::string::group_string_axioms;
    reveal_strlit("allow");
    reveal_strlit("ask");
    reveal_strlit("deny");
    assert("allow"@.len() == 5);
    assert("ask"@.len() == 3);
    assert("deny"@.len() == 4);
}

/// A per-capability decision table.
pub type DecisionTable = Vec<(Capability, PermissionDecision)>;

/// Per-domain decision tables.
pub type DomainTables = Vec<(String, DecisionTable)>;

/// The view of per-domain tables: each domain by its characters.
pub open spec fn tables_view(t: Seq<(String, DecisionTable)>) -> Seq<(Seq<char>, Seq<(Capability, PermissionDecision)>)> {
    Seq::new(t.len(), |i: int| (t[i].0@, t[i].1@))
}

/// The decision that per-domain tables give for `domain` and `c`, if any:
/// the entry for `c` in the first table of `domain`.
pub open spec fn table_get(
    t: Seq<(Seq<char>, Seq<(Capability, PermissionDecision)>)>,
    domain: Seq<char>,
    c: Capability,
) -> Option<PermissionDecision> {
    match assoc_get(t, domain) {
        Some(table) => assoc_get(table, c),
        None => None,
    }
}

/// Empty tables give no decision.
pub proof fn lemma_empty_tables(t: Seq<(String, DecisionTable)>)
    requires
        t.len() == 0,
    ensures
        forall|dom: Seq<char>, c: Capability| #[trigger] table_get(tables_view(t), dom, c) is None,
{
    assert forall|dom: Seq<char>, c: Capability| #[trigger] table_get(tables_view(t), dom, c) is None by {
        lemma_assoc_get_absent(tables_view(t), dom);
    }
}

/// The permission policy: a default decision, per-capability decisions and
/// per-domain overrides. Each table is read as a map from its keys to the
/// first entry that carries the key.
#[derive(Debug, Clone)]
pub struct PermissionPolicy {
    pub default: PermissionDecision,
    pub capabilities: DecisionTable,
    pub domain_overrides: DomainTables,
}

impl PermissionPolicy {
    /// The decision for a capability when no domain is involved.
    pub open spec fn spec_decision_for(&self, c: Capability) -> PermissionDecision {
        match assoc_get(self.capabilities@, c) {
            Some(d) => d,
            None => self.default,
        }
    }

    /// The decision for a capability requested by a domain.
    pub open spec fn spec_decision_for_domain(&self, domain: Seq<char>, c: Capability) -> PermissionDecision {
        match table_get(tables_view(self.domain_overrides@), domain, c) {
            Some(d) => d,
            None => self.spec_decision_for(c),
        }
    }
}

/// The position of the first entry for `key`.
fn find_capability(entries: &DecisionTable, key: Capability) -> (r: Option<usize>)
    ensures
        r is None ==> forall|j: int| 0 <= j < entries@.len() ==> entries@[j].0 != key,
        r is None ==> assoc_get(entries@, key) is None,
        r matches Some(i) ==> i < entries@.len() && entries@[i as int].0 == key
            && (forall|j: int| 0 <= j < i ==> entries@[j].0 != key)
            && assoc_get(entries@, key) == Some(entries@[i as int].1),
{
    let mut i: usize = 0;
    while i < entries.len()
        invariant
            i <= entries@.len(),
            forall|j: int| 0 <= j < i ==> entries@[j].0 != key,
        decreases entries@.len() - i,
    {
        if entries[i].0 == key {
            proof {
                lemma_assoc_get_first(entries@, i as int, key);
            }
            return Some(i);
        }
        i = i + 1;
    }
    proof {
        lemma_assoc_get_absent(entries@, key);
    }
    None
}

/// The position of the first table of `domain`.
fn find_domain(entries: &DomainTables, domain: &str) -> (r: Option<usize>)
    ensures
        r is None ==> forall|j: int| 0 <= j < entries@.len() ==> entries@[j].0@ != domain@,
        r is None ==> assoc_get(tables_view(entries@), domain@) is None,
        r matches Some(i) ==> i < entries@.len() && entries@[i as int].0@ == domain@
            && (forall|j: int| 0 <= j < i ==> entries@[j].0@ != domain@)
            && assoc_get(tables_view(entries@), domain@) == Some(entries@[i as int].1@),
{
    let ghost v = tables_view(entries@);
    let mut i: usize = 0;
    while i < entries.len()
        invariant
            i <= entries@.len(),
            v == tables_view(entries@),
            forall|j: int| 0 <= j < i ==> entries@[j].0@ != domain@,
        decreases entries@.len() - i,
    {
        if str_eq(entries[i].0.as_str(), domain) {
            proof {
                assert forall|j: int| 0 <= j < i implies v[j].0 != domain@ by {}
                lemma_assoc_get_first(v, i as int, domain@);
            }
            return Some(i);
        }
        i = i + 1;
    }
    proof {
        assert forall|j: int| 0 <= j < v.len() implies v[j].0 != domain@ by {}
        lemma_assoc_get_absent(v, domain@);
    }
    None
}

/// A copy of a decision table.
fn copy_table(t: &DecisionTable) -> (r: DecisionTable)
    ensures
        r@ == t@,
{
    let mut r: DecisionTable = Vec::new();
    let mut i: usize = 0;
    while i < t.len()
        invariant
            i <= t@.len(),
            r@ == t@.subrange(0, i as int),
        decreases t@.len() - i,
    {
        r.push(t[i]);
        i = i + 1;
    }
    r
}

/// Sets the decision of `c` in a table, as a map insert does.
pub fn table_set_decision(t: &mut DecisionTable, c: Capability, d: PermissionDecision)
    ensures
        forall|c2: Capability| #[trigger] assoc_get(final(t)@, c2)
            == if c2 == c { Some(d) } else { assoc_get(old(t)@, c2) },
{
    match find_capability(t, c) {
        Some(i) => {
            proof {
                assert forall|c2: Capability| #[trigger] assoc_get(old(t)@.update(i as int, (c, d)), c2)
                    == if c2 == c { Some(d) } else { assoc_get(old(t)@, c2) } by {
                    lemma_assoc_update_first(old(t)@, i as int, c, d, c2);
                }
            }
            t.set(i, (c, d));
        },
        None => {
            proof {
                assert forall|c2: Capability| #[trigger] assoc_get(old(t)@.push((c, d)), c2)
                    == if c2 == c { Some(d) } else { assoc_get(old(t)@, c2) } by {
                    lemma_assoc_push_new(old(t)@, c, d, c2);
                }
            }
            t.push((c, d));
        },
    }
}

/// Sets the decision of `c` for `domain`, creating the domain's table if
/// needed, as `entry(domain).or_default().insert(c, d)` does on nested maps.
pub fn tables_set_decision(t: &mut DomainTables, domain: &str, c: Capability, d: PermissionDecision)
    ensures
        forall|dom: Seq<char>, c2: Capability| #[trigger] table_get(tables_view(final(t)@), dom, c2)
            == if dom == domain@ && c2 == c { Some(d) } else { table_get(tables_view(old(t)@), dom, c2) },
{
    let ghost v0 = tables_view(t@);
    match find_domain(t, domain) {
        Some(i) => {
            let mut inner = copy_table(&t[i].1);
            table_set_decision(&mut inner, c, d);
            let name = t[i].0.clone();
            let ghost entry = (name@, inner@);
            t.set(i, (name, inner));
            proof {
                assert(tables_view(t@) =~= v0.update(i as int, entry));
                assert forall|j: int| 0 <= j < i implies v0[j].0 != domain@ by {}
                assert forall|dom: Seq<char>, c2: Capability| #[trigger] table_get(tables_view(t@), dom, c2)
                    == if dom == domain@ && c2 == c { Some(d) } else { table_get(v0, dom, c2) } by {
                    lemma_assoc_update_first(v0, i as int, domain@, entry.1, dom);
                }
            }
        },
        None => {
            let name = owned(domain);
            let inner: DecisionTable = vec![(c, d)];
            let ghost entry = (name@, inner@);
            assert(inner@ =~= seq![(c, d)]);
            t.push((name, inner));
            proof {
                assert(tables_view(t@) =~= v0.push(entry));
                assert forall|j: int| 0 <= j < v0.len() implies v0[j].0 != domain@ by {}
                assert forall|dom: Seq<char>, c2: Capability| #[trigger] table_get(tables_view(t@), dom, c2)
                    == if dom == domain@ && c2 == c { Some(d) } else { table_get(v0, dom, c2) } by {
                    lemma_assoc_push_new(v0, domain@, entry.1, dom);
                    lemma_assoc_get_absent(v0, domain@);
                    let e = Seq::<(Capability, PermissionDecision)>::empty();
                    assert(e.push((c, d)) =~= entry.1);
                    lemma_assoc_push_new(e, c, d, c2);
                }
            }
        },
    }
}

impl PermissionPolicy {
    /// The decision for a capability: its own entry, else the default.
    pub fn decision_for(&self, capability: &Capability) -> (r: PermissionDecision)
        ensures
            r == self.spec_decision_for(*capability),
    {
        match find_capability(&self.capabilities, *capability) {
            Some(i) => self.capabilities[i].1,
            None => self.default,
        }
    }

    /// The decision for a capability requested by `domain`: the domain's
    /// override if it has one, else `decision_for`.
    pub fn decision_for_domain(&self, domain: &str, capability: &Capability) -> (r: PermissionDecision)
        ensures
            r == self.spec_decision_for_domain(domain@, *capability),
    {
        if let Some(i) = find_domain(&self.domain_overrides, domain) {
            if let Some(j) = find_capability(&self.domain_overrides[i].1, *capability) {
                return self.domain_overrides[i].1[j].1;
            }
        }
        self.decision_for(capability)
    }

    /// Records a decision for `capability` requested by `domain`.
    pub fn set_domain_decision(&mut self, domain: &str, capability: Capability, decision: PermissionDecision)
        ensures
            final(self).default == old(self).default,
            final(self).capabilities@ == old(self).capabilities@,
            forall|dom: Seq<char>, c: Capability| #[trigger] final(self).spec_decision_for_domain(dom, c)
                == if dom == domain@ && c == capability { decision } else { old(self).spec_decision_for_domain(dom, c) },
    {
        tables_set_decision(&mut self.domain_overrides, domain, capability, decision);
        proof {
            assert forall|dom: Seq<char>, c: Capability| #[trigger] self.spec_decision_for_domain(dom, c)
                == if dom == domain@ && c == capability { decision } else { old(self).spec_decision_for_domain(dom, c) } by {
                assert(table_get(tables_view(self.domain_overrides@), dom, c)
                    == if dom == domain@ && c == capability { Some(decision) } else {
                        table_get(tables_view(old(self).domain_overrides@), dom, c) });
            }
        }
    }
}

/// The policy shipped by default: terminal execution, virtual mounts and
/// file writes denied, everything else asked.
pub open spec fn default_capability_table() -> Seq<(Capability, PermissionDecision)> {
    seq![
        (Capability::TerminalExec, PermissionDecision::Deny),
        (Capability::TerminalOutputRead, PermissionDecision::Ask),
        (Capability::DomRead, PermissionDecision::Ask),
        (Capability::CacheRead, PermissionDecision::Ask),
        (Capability::TabInspect, PermissionDecision::Ask),
        (Capability::AiToolUse, PermissionDecision::Ask),
        (Capability::VirtualResourceMount, PermissionDecision::Deny),
        (Capability::FsRead, PermissionDecision::Ask),
        (Capability::FsWrite, PermissionDecision::Deny),
    ]
}

impl Default for PermissionPolicy {
    fn default() -> (r: Self)
        ensures
            r.default == PermissionDecision::Ask,
            r.capabilities@ == default_capability_table(),
            r.domain_overrides@.len() == 0,
    {
        let capabilities: DecisionTable = vec![
            (Capability::TerminalExec, PermissionDecision::Deny),
            (Capability::TerminalOutputRead, PermissionDecision::Ask),
            (Capability::DomRead, PermissionDecision::Ask),
            (Capability::CacheRead, PermissionDecision::Ask),
            (Capability::TabInspect, PermissionDecision::Ask),
            (Capability::AiToolUse, PermissionDecision::Ask),
            (Capability::VirtualResourceMount, PermissionDecision::Deny),
            (Capability::FsRead, PermissionDecision::Ask),
            (Capability::FsWrite, PermissionDecision::Deny),
        ];
        assert(capabilities@ =~= default_capability_table());
        PermissionPolicy {
            default: PermissionDecision::Ask,
            capabilities,
            domain_overrides: Vec::new(),
        }
    }
}

/// The decision that a list of grants gives for `domain` and `c`: the
/// first table of `domain` that has an entry for `c`, in list order.
pub open spec fn grant_get(
    g: Seq<(Seq<char>, Seq<(Capability, PermissionDecision)>)>,
    domain: Seq<char>,
    c: Capability,
) -> Option<PermissionDecision>
    decreases g.len(),
{
    if g.len() == 0 {
        None
    } else if g[0].0 == domain && assoc_get(g[0].1, c) is Some {
        assoc_get(g[0].1, c)
    } else {
        grant_get(g.subrange(1, g.len() as int), domain, c)
    }
}

/// Overlays a list of grants on per-domain tables: a granted decision
/// replaces what the tables held; everything else is kept.
pub fn apply_grants(t: &mut DomainTables, grants: &DomainTables)
    ensures
        forall|dom: Seq<char>, c: Capability| #[trigger] table_get(tables_view(final(t)@), dom, c)
            == match grant_get(tables_view(grants@), dom, c) {
                Some(x) => Some(x),
                None => table_get(tables_view(old(t)@), dom, c),
            },
{
    let ghost g = tables_view(grants@);
    let ghost t0 = tables_view(t@);
    let n = grants.len();
    let mut i: usize = n;
    assert(g.subrange(n as int, n as int) =~= Seq::<(Seq<char>, Seq<(Capability, PermissionDecision)>)>::empty());
    while i > 0
        invariant
            n == grants@.len(),
            g == tables_view(grants@),
            t0 == tables_view(old(t)@),
            i <= n,
            forall|dom: Seq<char>, c: Capability| #[trigger] table_get(tables_view(t@), dom, c)
                == match grant_get(g.subrange(i as int, n as int), dom, c) {
                    Some(x) => Some(x),
                    None => table_get(t0, dom, c),
                },
        decreases i,
    {
        let ghost before = tables_view(t@);
        let k = i - 1;
        let m = grants[k].1.len();
        let ghost tab = grants@[k as int].1@;
        let mut j: usize = m;
        assert(tab.subrange(m as int, m as int) =~= Seq::<(Capability, PermissionDecision)>::empty());
        while j > 0
            invariant
                k < n,
                n == grants@.len(),
                m == grants@[k as int].1@.len(),
                tab == grants@[k as int].1@,
                j <= m,
                forall|dom: Seq<char>, c: Capability| #[trigger] table_get(tables_view(t@), dom, c)
                    == if dom == grants@[k as int].0@ && assoc_get(tab.subrange(j as int, m as int), c) is Some {
                        assoc_get(tab.subrange(j as int, m as int), c)
                    } else {
                        table_get(before, dom, c)
                    },
            decreases j,
        {
            let l = j - 1;
            let (cap, dec) = grants[k].1[l];
            tables_set_decision(t, grants[k].0.as_str(), cap, dec);
            proof {
                let suf = tab.subrange(l as int, m as int);
                assert(suf.subrange(1, suf.len() as int) =~= tab.subrange(j as int, m as int));
                assert(suf[0] == (cap, dec));
            }
            j = l;
        }
        proof {
            assert(tab.subrange(0, m as int) =~= tab);
            let suf = g.subrange(k as int, n as int);
            assert(suf.subrange(1, suf.len() as int) =~= g.subrange(i as int, n as int));
            assert(suf[0] == g[k as int]);
        }
        i = k;
    }
    assert(g.subrange(0, n as int) =~= g);
}


/// A domain's own decision for a capability overrides the policy's; where
/// the domain has none, the policy's decision (or its default) applies.
pub proof fn law_domain_override_wins(p: PermissionPolicy, domain: Seq<char>, c: Capability)
    ensures
        table_get(tables_view(p.domain_overrides@), domain, c) matches Some(d) ==> p.spec_decision_for_domain(domain, c) == d,
        table_get(tables_view(p.domain_overrides@), domain, c) is None ==> p.spec_decision_for_domain(domain, c) == p.spec_decision_for(c),
{
}

} // verus!
