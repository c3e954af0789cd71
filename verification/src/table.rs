//! The index of the old tree's nodes, by identity.

use std::collections::HashMap;
use vstd::prelude::*;
use crate::node::{Category, Node};
use crate::span::DUMMY_NODE_ID;

verus! {

broadcast use vstd::std_specs::hash::group_hash_axioms;

/// A table from node identities to nodes of one category.
pub struct NodeTable<'s, T> {
    nodes: HashMap<u32, &'s T>,
}

impl<'s, T> View for NodeTable<'s, T> {
    type V = Map<u32, &'s T>;

    closed spec fn view(&self) -> Map<u32, &'s T> {
        self.nodes@
    }
}

impl<'s, T> NodeTable<'s, T> {
    /// An empty table.
    pub fn new() -> (t: NodeTable<'s, T>)
        ensures
            t@ == Map::<u32, &'s T>::empty(),
    {
        NodeTable { nodes: HashMap::new() }
    }

    /// Whether the table holds a node under `id`.
    pub fn contains(&self, id: u32) -> (b: bool)
        ensures
            b == self@.contains_key(id),
    {
        self.nodes.contains_key(&id)
    }

    /// Enters `node` under `id`. The reserved identity is never entered; any other
    /// must be new to the table.
    pub fn insert(&mut self, id: u32, node: &'s T)
        requires
            id != DUMMY_NODE_ID ==> !old(self)@.contains_key(id),
        ensures
            id == DUMMY_NODE_ID ==> final(self)@ == old(self)@,
            id != DUMMY_NODE_ID ==> final(self)@ == old(self)@.insert(id, node),
    {
        if id == DUMMY_NODE_ID {
            return;
        }
        self.nodes.insert(id, node);
    }

    /// The node entered under `id`.
    pub fn get(&self, id: u32) -> (r: Option<&'s T>)
        ensures
            match r {
                Some(n) => self@.contains_key(id) && self@[id] == n,
                None => !self@.contains_key(id),
            },
    {
        match self.nodes.get(&id) {
            Some(n) => Some(*n),
            None => None,
        }
    }
}

/// Some node of `nodes` is entered in an index under `id`, in the table of
/// `category`.
pub open spec fn keyed_in(nodes: Seq<&Node>, category: Category, id: u32) -> bool {
    exists|k: int|
        0 <= k < nodes.len() && (#[trigger] nodes[k]).indexed() && nodes[k].category == category
            && nodes[k].id == id
}

/// No two nodes of `nodes` that an index holds in one table share an identity.
pub open spec fn distinct_ids(nodes: Seq<&Node>) -> bool {
    forall|j: int, k: int|
        0 <= j < k < nodes.len() && (#[trigger] nodes[j]).indexed() && (#[trigger] nodes[k]).indexed()
            && nodes[j].category == nodes[k].category ==> nodes[j].id != nodes[k].id
}

/// The index of an old tree: one table for each category.
pub struct OldNodes<'s> {
    pub exprs: NodeTable<'s, Node>,
    pub pats: NodeTable<'s, Node>,
    pub tys: NodeTable<'s, Node>,
    pub stmts: NodeTable<'s, Node>,
    pub items: NodeTable<'s, Node>,
}

impl<'s> OldNodes<'s> {
    /// The table of one category, as a map.
    pub open spec fn table(self, category: Category) -> Map<u32, &'s Node> {
        match category {
            Category::Expr => self.exprs@,
            Category::Pat => self.pats@,
            Category::Ty => self.tys@,
            Category::Stmt => self.stmts@,
            Category::Item => self.items@,
        }
    }

    /// The index holds nothing.
    pub open spec fn is_empty(self) -> bool {
        forall|c: Category| #[trigger] self.table(c) == Map::<u32, &'s Node>::empty()
    }

    /// An empty index.
    pub fn new() -> (m: OldNodes<'s>)
        ensures
            m.is_empty(),
    {
        OldNodes {
            exprs: NodeTable::new(),
            pats: NodeTable::new(),
            tys: NodeTable::new(),
            stmts: NodeTable::new(),
            items: NodeTable::new(),
        }
    }

    /// The spans of every node of the index nest as its tree does.
    pub open spec fn well_nested(self) -> bool {
        forall|c: Category, id: u32| #[trigger]
            self.table(c).contains_key(id) ==> self.table(c)[id].well_nested()
    }

    /// The index holds exactly the nodes of `nodes` that have an identity and are
    /// no parentheses, each in the table of its category under its identity.
    pub open spec fn indexes(self, nodes: Seq<&'s Node>) -> bool {
        &&& forall|c: Category, id: u32| #[trigger]
            self.table(c).contains_key(id) <==> keyed_in(nodes, c, id)
        &&& forall|k: int|
            0 <= k < nodes.len() && (#[trigger] nodes[k]).indexed() ==> self.table(
                nodes[k].category,
            )[nodes[k].id] == nodes[k]
    }

    /// Indexes every node of the tree `root`, unless two of its nodes would have
    /// to share an entry.
    pub fn try_index(root: &'s Node) -> (r: Option<OldNodes<'s>>)
        ensures
            r.is_some() == distinct_ids(root.preorder()),
            match r {
                Some(m) => m.indexes(root.preorder()),
                None => true,
            },
    {
        let mut nodes: Vec<&'s Node> = Vec::new();
        root.collect(&mut nodes);
        assert(nodes@ =~= root.preorder());
        let mut m = OldNodes::new();
        let n: usize = nodes.len();
        let mut i: usize = 0;
        while i < n
            invariant
                i <= n,
                n == nodes@.len(),
                nodes@ == root.preorder(),
                distinct_ids(nodes@.take(i as int)),
                m.indexes(nodes@.take(i as int)),
            decreases n - i,
        {
            let node = nodes[i];
            let ghost before = m;
            let ghost done = nodes@.take(i as int);
            let ghost next = nodes@.take(i + 1);
            assert(next.len() == i + 1 && next[i as int] == node);
            assert(forall|k: int| 0 <= k < i ==> next[k] == done[k]);
            if node.is_indexed() {
                if m.contains(node.category, node.id) {
                    proof {
                        let k = choose|k: int|
                            0 <= k < done.len() && (#[trigger] done[k]).indexed() && done[k].category
                                == node.category && done[k].id == node.id;
                        assert(nodes@[k] == done[k]);
                        assert(nodes@[k].indexed() && nodes@[i as int].indexed());
                        assert(!distinct_ids(nodes@));
                    }
                    return None;
                }
                m.insert(node);
            }
            proof {
                assert forall|c: Category, id: u32| #[trigger]
                    m.table(c).contains_key(id) <==> keyed_in(next, c, id) by {
                    if keyed_in(done, c, id) {
                        let k = choose|k: int|
                            0 <= k < done.len() && (#[trigger] done[k]).indexed() && done[k].category
                                == c && done[k].id == id;
                        assert(next[k].indexed() && next[k].category == c && next[k].id == id);
                    }
                    if node.indexed() && node.category == c && node.id == id {
                        assert(next[i as int].indexed());
                    }
                    if keyed_in(next, c, id) {
                        let k = choose|k: int|
                            0 <= k < next.len() && (#[trigger] next[k]).indexed() && next[k].category
                                == c && next[k].id == id;
                        if k < i {
                            assert(done[k].indexed() && done[k].category == c && done[k].id == id);
                        }
                    }
                    assert(before.table(c).contains_key(id) <==> keyed_in(done, c, id));
                }
                assert forall|j: int, k: int|
                    0 <= j < k < next.len() && (#[trigger] next[j]).indexed() && (#[trigger] next[k]).indexed()
                        && next[j].category == next[k].category implies next[j].id != next[k].id by {
                    if k < i {
                        assert(done[j].indexed() && done[k].indexed());
                    } else if next[j].id == next[k].id {
                        assert(done[j].indexed());
                        assert(keyed_in(done, node.category, node.id));
                    }
                }
                assert forall|k: int| 0 <= k < next.len() && (#[trigger] next[k]).indexed() implies m.table(
                    next[k].category,
                )[next[k].id] == next[k] by {
                    if k < i {
                        assert(done[k].indexed());
                        assert(next[i as int] == node);
                    }
                }
            }
            i += 1;
        }
        assert(nodes@.take(n as int) =~= nodes@);
        Some(m)
    }

    /// Indexes every node of the tree `root`.
    pub fn index(root: &'s Node) -> (m: OldNodes<'s>)
        requires
            distinct_ids(root.preorder()),
        ensures
            m.indexes(root.preorder()),
    {
        match OldNodes::try_index(root) {
            Some(m) => m,
            None => OldNodes::new(),
        }
    }

    /// Whether a node of `category` is entered under `id`.
    pub fn contains(&self, category: Category, id: u32) -> (b: bool)
        ensures
            b == self.table(category).contains_key(id),
    {
        match category {
            Category::Expr => self.exprs.contains(id),
            Category::Pat => self.pats.contains(id),
            Category::Ty => self.tys.contains(id),
            Category::Stmt => self.stmts.contains(id),
            Category::Item => self.items.contains(id),
        }
    }

    /// The node of `category` entered under `id`.
    pub fn get(&self, category: Category, id: u32) -> (r: Option<&'s Node>)
        ensures
            match r {
                Some(n) => self.table(category).contains_key(id) && self.table(category)[id] == n,
                None => !self.table(category).contains_key(id),
            },
    {
        match category {
            Category::Expr => self.exprs.get(id),
            Category::Pat => self.pats.get(id),
            Category::Ty => self.tys.get(id),
            Category::Stmt => self.stmts.get(id),
            Category::Item => self.items.get(id),
        }
    }

    /// Enters `node` in the table of its category, as `NodeTable::insert` does.
    pub fn insert(&mut self, node: &'s Node)
        requires
            node.id != DUMMY_NODE_ID ==> !old(self).table(node.category).contains_key(node.id),
        ensures
            forall|c: Category|
                c != node.category ==> #[trigger] final(self).table(c) == old(self).table(c),
            node.id == DUMMY_NODE_ID ==> final(self).table(node.category) == old(self).table(
                node.category,
            ),
            node.id != DUMMY_NODE_ID ==> final(self).table(node.category) == old(self).table(
                node.category,
            ).insert(node.id, node),
    {
        match node.category {
            Category::Expr => self.exprs.insert(node.id, node),
            Category::Pat => self.pats.insert(node.id, node),
            Category::Ty => self.tys.insert(node.id, node),
            Category::Stmt => self.stmts.insert(node.id, node),
            Category::Item => self.items.insert(node.id, node),
        }
    }
}

} // verus!
