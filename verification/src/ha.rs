//! Several data sources behind one: weighted round-robin among the healthy
//! ones, and the health states a periodic check moves them through.
use vstd::prelude::*;
use crate::base::error::DruidError;
use crate::text::{chars_of, same_text, string_of};

verus! {

/// The health of one data source.
#[derive(Debug, Clone, Copy, PartialEq, Eq, Structural)]
pub enum NodeStatus {
    Active,
    Down,
    Testing,
}

/// One registered data source: its name, health and weight.
struct HaNode {
    name: String,
    status: NodeStatus,
    weight: usize,
}

/// A registered data source as the contracts see it.
pub struct NodeView {
    pub name: Seq<char>,
    pub status: NodeStatus,
    pub weight: usize,
}

/// The sum of the weights of the active nodes among the first `k`.
pub open spec fn active_weight(nodes: Seq<NodeView>, k: int) -> nat
    decreases k,
{
    if k <= 0 || k > nodes.len() {
        0
    } else {
        active_weight(nodes, k - 1) + if nodes[k - 1].status == NodeStatus::Active {
            nodes[k - 1].weight as nat
        } else {
            0
        }
    }
}

/// Whether some node is active.
pub open spec fn has_active(nodes: Seq<NodeView>) -> bool {
    exists|i: int| 0 <= i < nodes.len() && #[trigger] nodes[i].status == NodeStatus::Active
}

/// The number of active nodes among the first `k`.
pub open spec fn active_nodes(nodes: Seq<NodeView>, k: int) -> nat
    decreases k,
{
    if k <= 0 || k > nodes.len() {
        0
    } else {
        active_nodes(nodes, k - 1) + if nodes[k - 1].status == NodeStatus::Active { 1nat } else { 0nat }
    }
}

/// Node `j` is the one the turn `turn` falls on: it is active and the turn
/// lies within its share of the active weights, in registration order.
pub open spec fn chosen(nodes: Seq<NodeView>, turn: nat, j: int) -> bool {
    &&& 0 <= j < nodes.len()
    &&& nodes[j].status == NodeStatus::Active
    &&& active_weight(nodes, j) <= turn < active_weight(nodes, j + 1)
}

/// The node at `i` is the first named `name`.
pub open spec fn first_named(nodes: Seq<NodeView>, name: Seq<char>, i: int) -> bool {
    &&& 0 <= i < nodes.len()
    &&& nodes[i].name == name
    &&& forall|j: int| 0 <= j < i ==> nodes[j].name != name
}

/// The health a node has after a check: an active node that cannot lend a
/// connection goes down; a down node that can comes back; a node under test
/// is left alone.
pub open spec fn status_after(s: NodeStatus, connected: bool) -> NodeStatus {
    match s {
        NodeStatus::Active => if connected { NodeStatus::Active } else { NodeStatus::Down },
        NodeStatus::Down => if connected { NodeStatus::Active } else { NodeStatus::Down },
        NodeStatus::Testing => NodeStatus::Testing,
    }
}

/// [`status_after`], computed.
pub fn next_status(s: NodeStatus, connected: bool) -> (r: NodeStatus)
    ensures
        r == status_after(s, connected),
{
    match s {
        NodeStatus::Active => if connected { NodeStatus::Active } else { NodeStatus::Down },
        NodeStatus::Down => if connected { NodeStatus::Active } else { NodeStatus::Down },
        NodeStatus::Testing => NodeStatus::Testing,
    }
}

/// The registered data sources, in order, and the round-robin counter.
pub struct HaNodes {
    nodes: Vec<HaNode>,
    round_robin: usize,
}

impl View for HaNodes {
    type V = Seq<NodeView>;

    closed spec fn view(&self) -> Seq<NodeView> {
        self.nodes@.map_values(|n: HaNode| NodeView { name: n.name@, status: n.status, weight: n.weight })
    }
}

impl HaNodes {
    /// How many selections were made (wrapping at `usize::MAX`).
    pub closed spec fn turns(&self) -> usize {
        self.round_robin
    }

    pub fn new() -> (r: Self)
        ensures
            r@.len() == 0,
            r.turns() == 0,
    {
        HaNodes { nodes: Vec::new(), round_robin: 0 }
    }

    /// Registers an active data source with a weight.
    pub fn add_node(&mut self, name: &str, weight: usize)
        ensures
            final(self)@ == old(self)@.push(NodeView { name: name@, status: NodeStatus::Active, weight }),
            final(self).turns() == old(self).turns(),
    {
        let ghost before = self@;
        self.nodes.push(HaNode { name: string_of(&chars_of(name)), status: NodeStatus::Active, weight });
        assert(self@ =~= before.push(NodeView { name: name@, status: NodeStatus::Active, weight }));
    }

    pub fn node_count(&self) -> (r: usize)
        ensures
            r == self@.len(),
    {
        self.nodes.len()
    }

    /// The number of active data sources.
    pub fn active_count(&self) -> (r: usize)
        ensures
            r == active_nodes(self@, self@.len() as int),
    {
        let mut n: usize = 0;
        let mut i: usize = 0;
        while i < self.nodes.len()
            invariant
                i <= self.nodes@.len(),
                self@.len() == self.nodes@.len(),
                n == active_nodes(self@, i as int),
                n <= i,
            decreases self.nodes@.len() - i,
        {
            if self.nodes[i].status == NodeStatus::Active {
                n = n + 1;
            }
            i = i + 1;
        }
        n
    }

    /// The names, in order.
    pub fn node_names(&self) -> (r: Vec<String>)
        ensures
            r@.len() == self@.len(),
            forall|i: int| 0 <= i < r@.len() ==> #[trigger] r@[i]@ == self@[i].name,
    {
        let mut out: Vec<String> = Vec::new();
        let mut i: usize = 0;
        while i < self.nodes.len()
            invariant
                i <= self.nodes@.len(),
                self@.len() == self.nodes@.len(),
                out@.len() == i,
                forall|k: int| 0 <= k < i ==> #[trigger] out@[k]@ == self@[k].name,
            decreases self.nodes@.len() - i,
        {
            out.push(string_of(&chars_of(self.nodes[i].name.as_str())));
            i = i + 1;
        }
        out
    }

    /// The index of the first node named `name`, if any.
    fn find(&self, name: &str) -> (r: Option<usize>)
        ensures
            match r {
                Some(i) => first_named(self@, name@, i as int),
                None => forall|j: int| 0 <= j < self@.len() ==> self@[j].name != name@,
            },
    {
        let mut i: usize = 0;
        while i < self.nodes.len()
            invariant
                i <= self.nodes@.len(),
                self@.len() == self.nodes@.len(),
                forall|j: int| 0 <= j < i ==> self@[j].name != name@,
            decreases self.nodes@.len() - i,
        {
            if same_text(self.nodes[i].name.as_str(), name) {
                return Some(i);
            }
            i = i + 1;
        }
        None
    }

    /// Sets the health of the first node named `name`; nothing happens when
    /// there is none.
    pub fn set_status(&mut self, name: &str, status: NodeStatus)
        ensures
            final(self).turns() == old(self).turns(),
            (forall|j: int| 0 <= j < old(self)@.len() ==> old(self)@[j].name != name@) ==> final(self)@ == old(self)@,
            forall|i: int| #[trigger] first_named(old(self)@, name@, i) ==>
                final(self)@ == old(self)@.update(i, NodeView { status, ..old(self)@[i] }),
    {
        match self.find(name) {
            Some(i) => {
                let ghost before = self@;
                let node = self.nodes.remove(i);
                self.nodes.insert(i, HaNode { name: node.name, status, weight: node.weight });
                assert(self@ =~= before.update(i as int, NodeView { status, ..before[i as int] }));
            },
            None => {},
        }
    }

    /// Marks the first node named `name` down.
    pub fn mark_down(&mut self, name: &str)
        ensures
            final(self).turns() == old(self).turns(),
            (forall|j: int| 0 <= j < old(self)@.len() ==> old(self)@[j].name != name@) ==> final(self)@ == old(self)@,
            forall|i: int| #[trigger] first_named(old(self)@, name@, i) ==>
                final(self)@ == old(self)@.update(i, NodeView { status: NodeStatus::Down, ..old(self)@[i] }),
    {
        self.set_status(name, NodeStatus::Down);
    }

    /// Marks the first node named `name` active again.
    pub fn mark_up(&mut self, name: &str)
        ensures
            final(self).turns() == old(self).turns(),
            (forall|j: int| 0 <= j < old(self)@.len() ==> old(self)@[j].name != name@) ==> final(self)@ == old(self)@,
            forall|i: int| #[trigger] first_named(old(self)@, name@, i) ==>
                final(self)@ == old(self)@.update(i, NodeView { status: NodeStatus::Active, ..old(self)@[i] }),
    {
        self.set_status(name, NodeStatus::Active);
    }

    /// The health of the node at `i`.
    pub fn status_of(&self, i: usize) -> (r: NodeStatus)
        requires
            i < self@.len(),
        ensures
            r == self@[i as int].status,
    {
        self.nodes[i].status
    }

    /// Whether [`HaNodes::next_active`] may be called: `None` when the active
    /// weights do not add up within `usize`, else whether they add up to more
    /// than zero or no node is active.
    pub fn selection_ready(&self) -> (r: Option<bool>)
        ensures
            r is None <==> active_weight(self@, self@.len() as int) > usize::MAX,
            r == Some(true) <==> (active_weight(self@, self@.len() as int) <= usize::MAX
                && (has_active(self@) ==> active_weight(self@, self@.len() as int) > 0)),
    {
        let mut total: usize = 0;
        let mut any = false;
        let mut i: usize = 0;
        while i < self.nodes.len()
            invariant
                i <= self.nodes@.len(),
                self@.len() == self.nodes@.len(),
                total == active_weight(self@, i as int),
                any == (exists|j: int| 0 <= j < i && #[trigger] self@[j].status == NodeStatus::Active),
            decreases self.nodes@.len() - i,
        {
            assert(self@[i as int].status == self.nodes@[i as int].status);
            assert(self@[i as int].weight == self.nodes@[i as int].weight);
            if self.nodes[i].status == NodeStatus::Active {
                match total.checked_add(self.nodes[i].weight) {
                    Some(t) => {
                        total = t;
                    },
                    None => {
                        proof { lemma_active_weight_mono(self@, i as int + 1, self@.len() as int); }
                        return None;
                    },
                }
                any = true;
            }
            i = i + 1;
        }
        Some(total > 0 || !any)
    }

    /// The sum of the active weights.
    fn total_active_weight(&self) -> (r: usize)
        requires
            active_weight(self@, self@.len() as int) <= usize::MAX,
        ensures
            r == active_weight(self@, self@.len() as int),
    {
        let mut total: usize = 0;
        let mut i: usize = 0;
        while i < self.nodes.len()
            invariant
                i <= self.nodes@.len(),
                self@.len() == self.nodes@.len(),
                total == active_weight(self@, i as int),
                active_weight(self@, self@.len() as int) <= usize::MAX,
            decreases self.nodes@.len() - i,
        {
            proof { lemma_active_weight_mono(self@, i as int + 1, self@.len() as int); }
            if self.nodes[i].status == NodeStatus::Active {
                total = total + self.nodes[i].weight;
            }
            i = i + 1;
        }
        total
    }

    /// The next data source by weighted round-robin among the active ones:
    /// the counter, taken modulo the sum of the active weights, falls in one
    /// node's share. Fails when no node is active.
    pub fn next_active(&mut self) -> (r: Result<usize, DruidError>)
        requires
            active_weight(old(self)@, old(self)@.len() as int) <= usize::MAX,
            has_active(old(self)@) ==> active_weight(old(self)@, old(self)@.len() as int) > 0,
        ensures
            final(self)@ == old(self)@,
            !has_active(old(self)@) ==> (r matches Err(DruidError::Pool(m)) && m@ == "no active datasource available"@
                && final(self).turns() == old(self).turns()),
            has_active(old(self)@) ==> (r matches Ok(j) && chosen(
                old(self)@,
                (old(self).turns() as nat % active_weight(old(self)@, old(self)@.len() as int)) as nat,
                j as int,
            ) && final(self).turns() == old(self).turns().wrapping_add(1)),
    {
        let total = self.total_active_weight();
        if total == 0 {
            proof { reveal_strlit("no active datasource available"); }
            return Err(DruidError::Pool(string_of(&chars_of("no active datasource available"))));
        }
        let idx = self.round_robin % total;
        self.round_robin = self.round_robin.wrapping_add(1);
        let mut cumulative: usize = 0;
        let mut i: usize = 0;
        while i < self.nodes.len()
            invariant
                i <= self.nodes@.len(),
                self@.len() == self.nodes@.len(),
                self@ == old(self)@,
                cumulative == active_weight(self@, i as int),
                idx < total,
                total == active_weight(self@, self@.len() as int),
                idx >= cumulative,
                idx == old(self).round_robin % total,
                self.round_robin == old(self).round_robin.wrapping_add(1),
            decreases self.nodes@.len() - i,
        {
            proof { lemma_active_weight_mono(self@, i as int + 1, self@.len() as int); }
            assert(self@[i as int].status == self.nodes@[i as int].status);
            assert(self@[i as int].weight == self.nodes@[i as int].weight);
            if self.nodes[i].status == NodeStatus::Active {
                cumulative = cumulative + self.nodes[i].weight;
                assert(cumulative == active_weight(self@, i as int + 1));
                if idx < cumulative {
                    proof { lemma_active_means_has(self@, i as int); }
                    return Ok(i);
                }
            }
            i = i + 1;
        }
        proof { assert(false); }
        Ok(0)
    }
}

/// Each turn falls on at most one node.
pub proof fn lemma_chosen_unique(nodes: Seq<NodeView>, turn: nat, j1: int, j2: int)
    requires
        chosen(nodes, turn, j1),
        chosen(nodes, turn, j2),
    ensures
        j1 == j2,
{
    if j1 < j2 {
        lemma_active_weight_mono(nodes, j1 + 1, j2);
    } else if j2 < j1 {
        lemma_active_weight_mono(nodes, j2 + 1, j1);
    }
}

/// Every active node with a positive weight has a turn below the total
/// active weight, so a full round of turns reaches it.
pub proof fn lemma_every_weighted_node_has_turn(nodes: Seq<NodeView>, j: int)
    requires
        0 <= j < nodes.len(),
        nodes[j].status == NodeStatus::Active,
        nodes[j].weight > 0,
    ensures
        chosen(nodes, active_weight(nodes, j), j),
        active_weight(nodes, j) < active_weight(nodes, nodes.len() as int),
{
    lemma_active_weight_mono(nodes, j + 1, nodes.len() as int);
}

/// How many of the `n` turns from `t0` fall on node `j`, turns being taken
/// modulo `w` (turns counted without wrapping).
pub open spec fn turns_on(nodes: Seq<NodeView>, j: int, t0: int, n: nat, w: int) -> nat
    decreases n,
{
    if n == 0 {
        0
    } else {
        turns_on(nodes, j, t0, (n - 1) as nat, w) + if chosen(nodes, ((t0 + n - 1) % w) as nat, j) {
            1nat
        } else {
            0nat
        }
    }
}

/// How many of the `n` numbers from `lo` lie in `[a, b)`.
spec fn count_in(lo: int, n: nat, a: int, b: int) -> nat
    decreases n,
{
    if n == 0 {
        0
    } else {
        count_in(lo, (n - 1) as nat, a, b) + if a <= lo + n - 1 < b { 1nat } else { 0nat }
    }
}

proof fn lemma_count_in(lo: int, n: nat, a: int, b: int)
    requires
        a <= b,
    ensures
        count_in(lo, n, a, b) == if lo + n <= a || b <= lo {
            0
        } else {
            (if lo + n < b { lo + n } else { b }) - (if lo > a { lo } else { a })
        },
    decreases n,
{
    if n > 0 {
        lemma_count_in(lo, (n - 1) as nat, a, b);
    }
}

/// The turn `t0 + i` modulo `w`, seen from the remainder `s` of `t0`.
proof fn lemma_turn_mod(t0: int, i: int, w: int, s: int)
    requires
        w > 0,
        t0 >= 0,
        i >= 0,
        s == t0 % w,
        s + i < 2 * w,
    ensures
        (t0 + i) % w == if s + i < w { s + i } else { s + i - w },
{
    let q = t0 / w;
    vstd::arithmetic::div_mod::lemma_fundamental_div_mod(t0, w);
    assert(t0 + i == w * q + (s + i));
    vstd::arithmetic::div_mod::lemma_mod_multiples_vanish(q, s + i, w);
    if s + i < w {
        vstd::arithmetic::div_mod::lemma_small_mod((s + i) as nat, w as nat);
    } else {
        vstd::arithmetic::div_mod::lemma_mod_multiples_vanish(1, s + i - w, w);
        vstd::arithmetic::div_mod::lemma_small_mod((s + i - w) as nat, w as nat);
    }
}

/// For an active node, the turns that fall on it are those within its
/// share, counted in two runs: from the remainder of `t0` up to `w`, then
/// from 0.
proof fn lemma_turns_on_split(nodes: Seq<NodeView>, j: int, t0: int, n: nat, w: int)
    requires
        0 <= j < nodes.len(),
        nodes[j].status == NodeStatus::Active,
        w > 0,
        t0 >= 0,
        n <= w,
    ensures
        turns_on(nodes, j, t0, n, w) == if n <= w - t0 % w {
            count_in(t0 % w, n, active_weight(nodes, j) as int, active_weight(nodes, j + 1) as int)
        } else {
            count_in(t0 % w, (w - t0 % w) as nat, active_weight(nodes, j) as int, active_weight(nodes, j + 1) as int)
                + count_in(0, (n - (w - t0 % w)) as nat, active_weight(nodes, j) as int, active_weight(nodes, j + 1) as int)
        },
    decreases n,
{
    let s = t0 % w;
    let a = active_weight(nodes, j) as int;
    let b = active_weight(nodes, j + 1) as int;
    if n > 0 {
        lemma_turns_on_split(nodes, j, t0, (n - 1) as nat, w);
        lemma_turn_mod(t0, n - 1, w, s);
        let r = (t0 + n - 1) % w;
        assert(chosen(nodes, r as nat, j) <==> a <= r < b);
    }
}

/// Over `w` consecutive turns, `w` being the sum of the active weights, an
/// active node is chosen exactly as many times as its weight.
pub proof fn lemma_round_robin_fair(nodes: Seq<NodeView>, j: int, t0: nat)
    requires
        0 <= j < nodes.len(),
        nodes[j].status == NodeStatus::Active,
        active_weight(nodes, nodes.len() as int) > 0,
    ensures
        turns_on(nodes, j, t0 as int, active_weight(nodes, nodes.len() as int), active_weight(nodes, nodes.len() as int) as int)
            == nodes[j].weight,
{
    let w = active_weight(nodes, nodes.len() as int) as int;
    let s = (t0 as int) % w;
    let a = active_weight(nodes, j) as int;
    let b = active_weight(nodes, j + 1) as int;
    lemma_active_weight_mono(nodes, j + 1, nodes.len() as int);
    assert(b == a + nodes[j].weight);
    lemma_turns_on_split(nodes, j, t0 as int, w as nat, w);
    lemma_count_in(s, (w - s) as nat, a, b);
    lemma_count_in(0, s as nat, a, b);
}

/// Active weights only grow with the number of nodes counted.
proof fn lemma_active_weight_mono(nodes: Seq<NodeView>, a: int, b: int)
    requires
        0 <= a <= b <= nodes.len(),
    ensures
        active_weight(nodes, a) <= active_weight(nodes, b),
    decreases b - a,
{
    if a < b {
        lemma_active_weight_mono(nodes, a, b - 1);
    }
}

/// An active node means some node is active.
proof fn lemma_active_means_has(nodes: Seq<NodeView>, i: int)
    requires
        0 <= i < nodes.len(),
        nodes[i].status == NodeStatus::Active,
    ensures
        has_active(nodes),
{
}

} // verus!
