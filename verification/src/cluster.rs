//! The nodes of a cluster of hosts that share arrays, and the metadata that
//! a node publishes to the others.

use vstd::prelude::*;
use crate::text::{join_path, join_paths, to_chars, str_eq};

verus! {

/// Where the cluster's state is kept, unless told otherwise.
pub open spec fn default_cluster_dir() -> Seq<char> {
    "/var/lib/rmdadm/cluster"@
}

/// A node of the cluster.
#[derive(Debug, Clone)]
pub struct NodeInfo {
    pub id: String,
    /// Its socket address, as `ip:port`.
    pub address: String,
    pub is_active: bool,
}

/// What a node publishes: its host name, when, and its `/proc/mdstat`.
#[derive(Debug, Clone)]
pub struct ClusterMetadata {
    pub node_id: String,
    pub generated_at: String,
    pub mdstat: String,
}

/// The known nodes, and the directory of the cluster's state.
#[derive(Debug)]
pub struct ClusterManager {
    pub nodes: Vec<NodeInfo>,
    pub state_dir: String,
}

/// The node of `id` in a list of nodes: the last one with that id.
pub open spec fn find_node(v: Seq<NodeInfo>, id: Seq<char>) -> Option<NodeInfo>
    decreases v.len(),
{
    if v.len() == 0 {
        None
    } else if v.last().id@ == id {
        Some(v.last())
    } else {
        find_node(v.drop_last(), id)
    }
}

/// The nodes of a list, by id.
pub open spec fn node_map(v: Seq<NodeInfo>) -> Map<Seq<char>, NodeInfo> {
    Map::new(|id: Seq<char>| find_node(v, id) is Some, |id: Seq<char>| find_node(v, id).unwrap())
}

/// Whether every id occurs once in a list.
pub open spec fn ids_unique(v: Seq<NodeInfo>) -> bool {
    forall|i: int, j: int| 0 <= i < j < v.len() ==> #[trigger] v[i].id@ != #[trigger] v[j].id@
}

/// Whether `a` comes before `b` in the order of `str::cmp`: character by
/// character, a prefix first.
pub open spec fn lex_lt(a: Seq<char>, b: Seq<char>) -> bool
    decreases a.len(),
{
    if a.len() == 0 {
        b.len() > 0
    } else if b.len() == 0 {
        false
    } else if a[0] != b[0] {
        a[0] < b[0]
    } else {
        lex_lt(a.drop_first(), b.drop_first())
    }
}

/// Of two different texts, one comes before the other, and never both.
pub proof fn lemma_lex_total(a: Seq<char>, b: Seq<char>)
    ensures
        a != b ==> lex_lt(a, b) || lex_lt(b, a),
        !(lex_lt(a, b) && lex_lt(b, a)),
        !lex_lt(a, a),
    decreases a.len(),
{
    if a.len() > 0 && b.len() > 0 && a[0] == b[0] {
        lemma_lex_total(a.drop_first(), b.drop_first());
        if a.drop_first() == b.drop_first() {
            assert(a =~= seq![a[0]] + a.drop_first());
            assert(b =~= seq![b[0]] + b.drop_first());
        }
    }
    if a.len() > 0 {
        lemma_lex_total(a.drop_first(), a.drop_first());
    }
    if a.len() == 0 && b.len() == 0 {
        assert(a =~= b);
    }
}

/// Coming before is transitive.
pub proof fn lemma_lex_trans(a: Seq<char>, b: Seq<char>, c: Seq<char>)
    requires
        lex_lt(a, b),
        lex_lt(b, c),
    ensures
        lex_lt(a, c),
    decreases a.len(),
{
    if a.len() > 0 && b.len() > 0 && c.len() > 0 && a[0] == b[0] && b[0] == c[0] {
        lemma_lex_trans(a.drop_first(), b.drop_first(), c.drop_first());
    }
}

/// Whether `a` comes before `b` in the order of `str::cmp`.
pub fn str_lt(a: &str, b: &str) -> (r: bool)
    ensures
        r == lex_lt(a@, b@),
{
    let x = to_chars(a);
    let y = to_chars(b);
    let mut i: usize = 0;
    assert(x@.subrange(0, x@.len() as int) =~= x@);
    assert(y@.subrange(0, y@.len() as int) =~= y@);
    while i < x.len() && i < y.len() && x[i] == y[i]
        invariant
            i <= x@.len(),
            i <= y@.len(),
            x@ == a@,
            y@ == b@,
            lex_lt(a@, b@) == lex_lt(x@.subrange(i as int, x@.len() as int), y@.subrange(i as int, y@.len() as int)),
        decreases x@.len() - i,
    {
        assert(x@.subrange(i as int, x@.len() as int).drop_first() =~= x@.subrange(i + 1, x@.len() as int));
        assert(y@.subrange(i as int, y@.len() as int).drop_first() =~= y@.subrange(i + 1, y@.len() as int));
        i = i + 1;
    }
    proof {
        assert(x@.subrange(0, x@.len() as int) =~= x@);
        assert(y@.subrange(0, y@.len() as int) =~= y@);
    }
    if i == x.len() {
        i < y.len()
    } else if i == y.len() {
        false
    } else {
        x[i] < y[i]
    }
}

/// A copy of a node.
fn copy_node(n: &NodeInfo) -> (r: NodeInfo)
    ensures
        r == *n,
{
    NodeInfo { id: n.id.clone(), address: n.address.clone(), is_active: n.is_active }
}

/// With ids once each, the node found for the id at a place is the node there.
proof fn lemma_find_at(v: Seq<NodeInfo>, i: int)
    requires
        ids_unique(v),
        0 <= i < v.len(),
    ensures
        find_node(v, v[i].id@) == Some(v[i]),
    decreases v.len(),
{
    if i < v.len() - 1 {
        assert(v.drop_last()[i] == v[i]);
        assert(v.last() == v[v.len() - 1]);
        lemma_find_at(v.drop_last(), i);
    }
}

/// An id at no place of a list has no node.
proof fn lemma_find_absent(v: Seq<NodeInfo>, id: Seq<char>)
    requires
        forall|i: int| 0 <= i < v.len() ==> #[trigger] v[i].id@ != id,
    ensures
        find_node(v, id) is None,
    decreases v.len(),
{
    if v.len() > 0 {
        assert(v[v.len() - 1].id@ != id);
        assert forall|i: int| 0 <= i < v.drop_last().len() implies #[trigger] v.drop_last()[i].id@ != id by {
            assert(v.drop_last()[i] == v[i]);
        }
        lemma_find_absent(v.drop_last(), id);
    }
}

/// A node found in a list is at some place of it.
proof fn lemma_find_some(v: Seq<NodeInfo>, id: Seq<char>)
    requires
        find_node(v, id) is Some,
    ensures
        exists|i: int| 0 <= i < v.len() && v[i].id@ == id && #[trigger] v[i] == find_node(v, id).unwrap(),
    decreases v.len(),
{
    if v.last().id@ != id {
        lemma_find_some(v.drop_last(), id);
        let i = choose|i: int| 0 <= i < v.drop_last().len() && v.drop_last()[i].id@ == id
            && #[trigger] v.drop_last()[i] == find_node(v.drop_last(), id).unwrap();
        assert(v[i] == v.drop_last()[i]);
    } else {
        assert(v[v.len() - 1] == v.last());
    }
}

/// Whether a list of nodes is in increasing order of id.
pub open spec fn sorted_by_id(v: Seq<NodeInfo>) -> bool {
    forall|i: int, j: int| 0 <= i < j < v.len() ==> lex_lt(#[trigger] v[i].id@, #[trigger] v[j].id@)
}

impl ClusterManager {
    /// The known nodes, by id.
    pub open spec fn node_view(&self) -> Map<Seq<char>, NodeInfo> {
        node_map(self.nodes@)
    }

    /// Every node is known once.
    pub open spec fn wf(&self) -> bool {
        ids_unique(self.nodes@)
    }

    /// The cluster of the default directory, with the nodes that were saved.
    pub fn new(saved: Vec<NodeInfo>) -> (c: ClusterManager)
        ensures
            c.wf(),
            c.state_dir@ == default_cluster_dir(),
            c.node_view() == node_map(saved@),
    {
        Self::with_state_dir(String::from_str("/var/lib/rmdadm/cluster"), saved)
    }

    /// The cluster of `state_dir`, with the nodes that were saved there.
    pub fn with_state_dir(state_dir: String, saved: Vec<NodeInfo>) -> (c: ClusterManager)
        ensures
            c.wf(),
            c.state_dir == state_dir,
            c.node_view() == node_map(saved@),
    {
        let mut c = ClusterManager { nodes: Vec::new(), state_dir };
        assert(c.node_view() =~= node_map(saved@.subrange(0, 0)));
        let mut i: usize = 0;
        while i < saved.len()
            invariant
                i <= saved@.len(),
                c.wf(),
                c.state_dir == state_dir,
                c.node_view() == node_map(saved@.subrange(0, i as int)),
            decreases saved@.len() - i,
        {
            let n = copy_node(&saved[i]);
            c.join_cluster(n);
            assert(saved@.subrange(0, i + 1).drop_last() =~= saved@.subrange(0, i as int));
            assert(node_map(saved@.subrange(0, i + 1)) =~= node_map(saved@.subrange(0, i as int)).insert(saved@[i as int].id@, saved@[i as int]));
            i = i + 1;
        }
        assert(saved@.subrange(0, saved@.len() as int) =~= saved@);
        c
    }

    /// Index of the node of `id`.
    fn position(&self, id: &str) -> (r: Option<usize>)
        requires
            self.wf(),
        ensures
            match r {
                Some(i) => i < self.nodes@.len() && self.nodes@[i as int].id@ == id@,
                None => forall|i: int| 0 <= i < self.nodes@.len() ==> #[trigger] self.nodes@[i].id@ != id@,
            },
    {
        let mut i: usize = 0;
        while i < self.nodes.len()
            invariant
                i <= self.nodes@.len(),
                forall|k: int| 0 <= k < i ==> #[trigger] self.nodes@[k].id@ != id@,
            decreases self.nodes@.len() - i,
        {
            if str_eq(self.nodes[i].id.as_str(), id) {
                return Some(i);
            }
            i = i + 1;
        }
        None
    }

    /// Adds `node` to the cluster, in place of a node of the same id.
    pub fn join_cluster(&mut self, node: NodeInfo)
        requires
            old(self).wf(),
        ensures
            final(self).wf(),
            final(self).state_dir == old(self).state_dir,
            final(self).node_view() == old(self).node_view().insert(node.id@, node),
    {
        let ghost before = self.nodes@;
        let ghost id = node.id@;
        match self.position(node.id.as_str()) {
            Some(i) => {
                self.nodes.set(i, node);
                proof {
                    assert forall|x: Seq<char>| #[trigger] find_node(self.nodes@, x) == (if x == id { Some(self.nodes@[i as int]) } else { find_node(before, x) }) by {
                        if x == id {
                            lemma_find_at(self.nodes@, i as int);
                        } else {
                            if find_node(before, x) is Some {
                                lemma_find_some(before, x);
                                let j = choose|j: int| 0 <= j < before.len() && before[j].id@ == x && #[trigger] before[j] == find_node(before, x).unwrap();
                                assert(self.nodes@[j] == before[j]);
                                lemma_find_at(self.nodes@, j);
                            } else {
                                assert forall|k: int| 0 <= k < self.nodes@.len() implies #[trigger] self.nodes@[k].id@ != x by {
                                    if k != i {
                                        assert(self.nodes@[k] == before[k]);
                                        if before[k].id@ == x {
                                            lemma_find_at(before, k);
                                        }
                                    }
                                }
                                lemma_find_absent(self.nodes@, x);
                            }
                        }
                    }
                    assert(self.node_view() =~= old(self).node_view().insert(id, node));
                }
            },
            None => {
                self.nodes.push(node);
                proof {
                    assert(self.nodes@.drop_last() =~= before);
                    assert(self.node_view() =~= old(self).node_view().insert(id, node));
                }
            },
        }
    }

    /// Removes the node of `node_id` from the cluster.
    pub fn leave_cluster(&mut self, node_id: &str)
        requires
            old(self).wf(),
        ensures
            final(self).wf(),
            final(self).state_dir == old(self).state_dir,
            final(self).node_view() == old(self).node_view().remove(node_id@),
    {
        let ghost before = self.nodes@;
        match self.position(node_id) {
            Some(i) => {
                self.nodes.remove(i);
                proof {
                    assert forall|x: Seq<char>| #[trigger] find_node(self.nodes@, x) == (if x == node_id@ { None } else { find_node(before, x) }) by {
                        assert forall|k: int| 0 <= k < self.nodes@.len() implies #[trigger] self.nodes@[k] == (if k < i { before[k] } else { before[k + 1] }) by {}
                        if x == node_id@ {
                            assert forall|k: int| 0 <= k < self.nodes@.len() implies #[trigger] self.nodes@[k].id@ != x by {
                                if k < i { assert(self.nodes@[k] == before[k]); } else { assert(self.nodes@[k] == before[k + 1]); }
                            }
                            lemma_find_absent(self.nodes@, x);
                        } else if find_node(before, x) is Some {
                            lemma_find_some(before, x);
                            let j = choose|j: int| 0 <= j < before.len() && before[j].id@ == x && #[trigger] before[j] == find_node(before, x).unwrap();
                            let k = if j < i { j } else { j - 1 };
                            assert(self.nodes@[k] == before[j]);
                            lemma_find_at(self.nodes@, k);
                        } else {
                            assert forall|k: int| 0 <= k < self.nodes@.len() implies #[trigger] self.nodes@[k].id@ != x by {
                                let m = if k < i { k } else { k + 1 };
                                assert(self.nodes@[k] == before[m]);
                                if before[m].id@ == x {
                                    lemma_find_at(before, m);
                                }
                            }
                            lemma_find_absent(self.nodes@, x);
                        }
                    }
                    assert(self.node_view() =~= old(self).node_view().remove(node_id@));
                }
            },
            None => {
                proof {
                    lemma_find_absent(before, node_id@);
                    assert(self.node_view() =~= old(self).node_view().remove(node_id@));
                }
            },
        }
    }

    /// The known nodes, in increasing order of id.
    pub fn list_nodes(&self) -> (r: Vec<NodeInfo>)
        requires
            self.wf(),
        ensures
            sorted_by_id(r@),
            ids_unique(r@),
            node_map(r@) == self.node_view(),
    {
        let mut out: Vec<NodeInfo> = Vec::new();
        let mut i: usize = 0;
        while i < self.nodes.len()
            invariant
                self.wf(),
                i <= self.nodes@.len(),
                sorted_by_id(out@),
                ids_unique(out@),
                node_map(out@) == node_map(self.nodes@.subrange(0, i as int)),
                forall|k: int| 0 <= k < out@.len() ==> exists|m: int| 0 <= m < i && #[trigger] out@[k] == self.nodes@[m],
            decreases self.nodes@.len() - i,
        {
            let n = copy_node(&self.nodes[i]);
            let mut p: usize = 0;
            while p < out.len() && !str_lt(n.id.as_str(), out[p].id.as_str())
                invariant
                    p <= out@.len(),
                    forall|k: int| 0 <= k < p ==> !lex_lt(n.id@, #[trigger] out@[k].id@),
                decreases out@.len() - p,
            {
                p = p + 1;
            }
            let ghost before = out@;
            proof {
                assert(self.nodes@[i as int] == n);
                assert forall|k: int| 0 <= k < before.len() implies #[trigger] before[k].id@ != n.id@ by {
                    let m = choose|m: int| 0 <= m < i && #[trigger] before[k] == self.nodes@[m];
                }
                assert forall|k: int| 0 <= k < p implies lex_lt(#[trigger] before[k].id@, n.id@) by {
                    lemma_lex_total(before[k].id@, n.id@);
                }
                assert forall|k: int| p <= k < before.len() implies lex_lt(n.id@, #[trigger] before[k].id@) by {
                    if k > p {
                        lemma_lex_trans(n.id@, before[p as int].id@, before[k].id@);
                    }
                }
            }
            out.insert(p, n);
            proof {
                let after = out@;
                assert forall|k: int| 0 <= k < after.len() implies #[trigger] after[k] == (if k < p { before[k] } else if k == p { n } else { before[k - 1] }) by {}
                assert forall|a: int, b: int| 0 <= a < b < after.len() implies lex_lt(#[trigger] after[a].id@, #[trigger] after[b].id@) by {
                    if a < p && b < p {
                    } else if a < p && b == p {
                    } else if a < p {
                        assert(after[b] == before[b - 1]);
                    } else if a == p {
                        assert(after[b] == before[b - 1]);
                    } else {
                        assert(after[a] == before[a - 1]);
                        assert(after[b] == before[b - 1]);
                    }
                }
                assert forall|a: int, b: int| 0 <= a < b < after.len() implies #[trigger] after[a].id@ != #[trigger] after[b].id@ by {
                    lemma_lex_total(after[a].id@, after[b].id@);
                }
                assert forall|k: int| 0 <= k < after.len() implies exists|m: int| 0 <= m < i + 1 && #[trigger] after[k] == self.nodes@[m] by {
                    if k < p {
                        let m = choose|m: int| 0 <= m < i && #[trigger] before[k] == self.nodes@[m];
                        assert(after[k] == self.nodes@[m]);
                    } else if k == p {
                        assert(after[k] == self.nodes@[i as int]);
                    } else {
                        let m = choose|m: int| 0 <= m < i && #[trigger] before[k - 1] == self.nodes@[m];
                        assert(after[k] == self.nodes@[m]);
                    }
                }
                assert forall|x: Seq<char>| #[trigger] find_node(after, x) == (if x == n.id@ { Some(n) } else { find_node(before, x) }) by {
                    if x == n.id@ {
                        lemma_find_at(after, p as int);
                    } else if find_node(before, x) is Some {
                        lemma_find_some(before, x);
                        let j = choose|j: int| 0 <= j < before.len() && before[j].id@ == x && #[trigger] before[j] == find_node(before, x).unwrap();
                        let k = if j < p { j } else { j + 1 };
                        assert(after[k] == before[j]);
                        lemma_find_at(after, k);
                    } else {
                        assert forall|k: int| 0 <= k < after.len() implies #[trigger] after[k].id@ != x by {
                            if k < p {
                                if before[k].id@ == x { lemma_find_at(before, k); }
                            } else if k > p {
                                if before[k - 1].id@ == x { lemma_find_at(before, k - 1); }
                            }
                        }
                        lemma_find_absent(after, x);
                    }
                }
                let pre = self.nodes@.subrange(0, i as int);
                let pre1 = self.nodes@.subrange(0, i + 1);
                assert(pre1.drop_last() =~= pre);
                assert(pre1.last() == n);
                assert forall|x: Seq<char>| #[trigger] find_node(pre1, x) == (if x == n.id@ { Some(n) } else { find_node(pre, x) }) by {}
                assert(node_map(before) == node_map(pre));
                assert forall|x: Seq<char>| #[trigger] find_node(before, x) == find_node(pre, x) by {
                    assert(node_map(before).contains_key(x) == node_map(pre).contains_key(x));
                    if find_node(before, x) is Some {
                        assert(node_map(before)[x] == node_map(pre)[x]);
                    }
                }
                assert(node_map(after) =~= node_map(pre1));
            }
            i = i + 1;
        }
        assert(self.nodes@.subrange(0, self.nodes@.len() as int) =~= self.nodes@);
        out
    }

    /// The file that holds the known nodes.
    pub fn nodes_path(&self) -> (r: String)
        ensures
            r@ == join_path(self.state_dir@, "nodes.json"@),
    {
        join_paths(self.state_dir.as_str(), "nodes.json")
    }

    /// The file that holds the metadata last published.
    pub fn metadata_path(&self) -> (r: String)
        ensures
            r@ == join_path(self.state_dir@, "metadata.json"@),
    {
        join_paths(self.state_dir.as_str(), "metadata.json")
    }

    /// The metadata this node publishes, from its host name (`unknown` when
    /// it could not be read), the time, and its `/proc/mdstat` (empty when it
    /// could not be read).
    pub fn sync_metadata(&self, hostname: Option<String>, generated_at: String, mdstat: Option<String>) -> (m: ClusterMetadata)
        ensures
            m.node_id@ == match hostname { Some(h) => h@, None => "unknown"@ },
            m.generated_at == generated_at,
            m.mdstat@ == match mdstat { Some(s) => s@, None => Seq::<char>::empty() },
    {
        ClusterMetadata {
            node_id: match hostname {
                Some(h) => h,
                None => String::from_str("unknown"),
            },
            generated_at,
            mdstat: match mdstat {
                Some(s) => s,
                None => String::new(),
            },
        }
    }
}

/// What a cluster lists and saves, a cluster loaded from it knows again: a
/// cluster built from the list of another knows the same nodes by the same ids.
pub proof fn lemma_reload_keeps_nodes(c: ClusterManager, listed: Seq<NodeInfo>, reloaded: ClusterManager)
    requires
        c.wf(),
        node_map(listed) == c.node_view(),
        reloaded.node_view() == node_map(listed),
    ensures
        reloaded.node_view() == c.node_view(),
{
}

} // verus!
