//! The arena behind a family of contexts.
//!
//! Every context of a family is a node of one [`Tree`], addressed by its index.
//! A node holds a link to its parent (always at a smaller index), whether it
//! has been completed, and the waiters registered on it that still wait to be
//! notified.
use vstd::prelude::*;

verus! {

/// What one node of a [`Tree`] holds, as a mathematical value.
pub ghost struct NodeState<W> {
    pub parent: Option<nat>,
    pub completed: bool,
    pub waiters: Seq<W>,
}

/// A node of the arena; see [`NodeState`] for its meaning.
struct Node<W> {
    parent: Option<usize>,
    completed: bool,
    waiters: Option<Vec<W>>,
}

/// The waiters held by an optional list, as a sequence.
pub open spec fn waiters_of<W>(ws: Option<Vec<W>>) -> Seq<W> {
    match ws {
        Some(v) => v@,
        None => Seq::empty(),
    }
}

impl<W> View for Node<W> {
    type V = NodeState<W>;

    closed spec fn view(&self) -> NodeState<W> {
        NodeState {
            parent: match self.parent {
                Some(p) => Some(p as nat),
                None => None,
            },
            completed: self.completed,
            waiters: waiters_of(self.waiters),
        }
    }
}

/// An arena of cancellation contexts linked to their parents by index.
///
/// Nodes are only ever added, so an index stays valid for the arena's life.
pub struct Tree<W> {
    nodes: Vec<Node<W>>,
}

impl<W> View for Tree<W> {
    type V = Seq<NodeState<W>>;

    closed spec fn view(&self) -> Seq<NodeState<W>> {
        states(self.nodes@)
    }
}

/// The states of a sequence of nodes.
closed spec fn states<W>(nodes: Seq<Node<W>>) -> Seq<NodeState<W>> {
    nodes.map_values(|n: Node<W>| n@)
}

/// Every parent link points to an earlier node, and a completed node holds no
/// waiters.
pub open spec fn well_formed<W>(s: Seq<NodeState<W>>) -> bool {
    forall|i: int|
        0 <= i < s.len() ==> {
            &&& (#[trigger] s[i]).parent matches Some(p) ==> p < i
            &&& s[i].completed ==> s[i].waiters.len() == 0
        }
}

/// Node `i` has been completed, or one of its ancestors has.
pub open spec fn resolved<W>(s: Seq<NodeState<W>>, i: int) -> bool
    decreases i,
{
    if 0 <= i < s.len() {
        s[i].completed || match s[i].parent {
            Some(p) => p < i && resolved(s, p as int),
            None => false,
        }
    } else {
        false
    }
}

/// Node `j` is node `i` or one of its ancestors.
pub open spec fn on_chain<W>(s: Seq<NodeState<W>>, i: int, j: int) -> bool
    decreases i,
{
    if 0 <= i < s.len() {
        i == j || match s[i].parent {
            Some(p) => p < i && on_chain(s, p as int, j),
            None => false,
        }
    } else {
        false
    }
}

/// A fresh node: not completed, with no waiters.
pub open spec fn fresh<W>(parent: Option<nat>) -> NodeState<W> {
    NodeState { parent, completed: false, waiters: Seq::empty() }
}

/// The family after node `i` is completed: its flag is set and its waiters are
/// handed out.
pub open spec fn completed_at<W>(s: Seq<NodeState<W>>, i: int) -> Seq<NodeState<W>> {
    s.update(i, NodeState { completed: true, waiters: Seq::empty(), ..s[i] })
}

/// After a pending poll of node `i` with waiter `w`: `w` is registered on `i`,
/// a clone of it on each ancestor of `i`, and nothing else has changed.
pub open spec fn registered<W: Clone>(
    s: Seq<NodeState<W>>,
    t: Seq<NodeState<W>>,
    i: int,
    w: W,
) -> bool {
    &&& t.len() == s.len()
    &&& t[i].waiters == s[i].waiters.push(w)
    &&& forall|j: int|
        0 <= j < s.len() ==> {
            &&& (#[trigger] t[j]).parent == s[j].parent
            &&& t[j].completed == s[j].completed
            &&& !on_chain(s, i, j) ==> t[j].waiters == s[j].waiters
            &&& on_chain(s, i, j) && j != i ==> {
                &&& t[j].waiters.len() == s[j].waiters.len() + 1
                &&& t[j].waiters.drop_last() == s[j].waiters
                &&& cloned(w, t[j].waiters.last())
            }
        }
}

/// Whether a node is resolved depends only on the nodes up to it: growing the
/// family keeps it.
pub(crate) proof fn lemma_prefix<W>(s: Seq<NodeState<W>>, t: Seq<NodeState<W>>, i: int)
    requires
        s.len() <= t.len(),
        forall|k: int| 0 <= k < s.len() ==> t[k] == s[k],
        0 <= i < s.len(),
    ensures
        resolved(t, i) == resolved(s, i),
    decreases i,
{
    if let Some(p) = s[i].parent {
        if p < i {
            lemma_prefix(s, t, p as int);
        }
    }
}

/// A node on the chain of `i` lies at `i` or before it.
pub(crate) proof fn lemma_chain_below<W>(s: Seq<NodeState<W>>, i: int, j: int)
    requires
        on_chain(s, i, j),
    ensures
        0 <= j <= i < s.len(),
    decreases i,
{
    if i != j {
        lemma_chain_below(s, s[i].parent.unwrap() as int, j);
    }
}

/// A chain continues along the chain of any of its nodes.
proof fn lemma_chain_trans<W>(s: Seq<NodeState<W>>, i: int, c: int, d: int)
    requires
        on_chain(s, i, c),
        on_chain(s, c, d),
    ensures
        on_chain(s, i, d),
    decreases i,
{
    if i != c {
        lemma_chain_trans(s, s[i].parent.unwrap() as int, c, d);
    }
}

/// No node on the chain of an unresolved node has been completed.
proof fn lemma_chain_unresolved<W>(s: Seq<NodeState<W>>, i: int, c: int)
    requires
        on_chain(s, i, c),
        !resolved(s, i),
    ensures
        !s[c].completed,
        !resolved(s, c),
    decreases i,
{
    if i != c {
        lemma_chain_unresolved(s, s[i].parent.unwrap() as int, c);
    }
}

/// The chain of a node is a single line: of two nodes on it, the lower lies on
/// the chain of the higher.
proof fn lemma_chain_line<W>(s: Seq<NodeState<W>>, i: int, c: int, j: int)
    requires
        on_chain(s, i, c),
        on_chain(s, i, j),
        j < c,
    ensures
        on_chain(s, c, j),
    decreases i,
{
    lemma_chain_below(s, i, c);
    if i != c {
        lemma_chain_line(s, s[i].parent.unwrap() as int, c, j);
    }
}

impl<W> Node<W> {
    /// Appends a waiter to this node.
    fn push_waiter(&mut self, w: W)
        ensures
            final(self)@ == (NodeState { waiters: old(self)@.waiters.push(w), ..old(self)@ }),
    {
        match self.waiters.take() {
            Some(mut v) => {
                v.push(w);
                self.waiters = Some(v);
            },
            None => {
                let mut v = Vec::new();
                v.push(w);
                self.waiters = Some(v);
                assert(v@ =~= Seq::<W>::empty().push(w));
            },
        }
    }
}

impl<W> Tree<W> {
    /// The arena is well formed.
    pub open spec fn wf(&self) -> bool {
        well_formed(self@)
    }

    /// An arena with no nodes.
    pub fn new() -> (t: Self)
        ensures
            t.wf(),
            t@ == Seq::<NodeState<W>>::empty(),
    {
        let t = Tree { nodes: Vec::new() };
        assert(t@ =~= Seq::<NodeState<W>>::empty());
        t
    }

    /// The number of nodes.
    pub fn len(&self) -> (n: usize)
        ensures
            n == self@.len(),
        no_unwind
    {
        self.nodes.len()
    }

    /// Adds a root node and returns its index.
    pub fn add_root(&mut self) -> (i: usize)
        requires
            old(self).wf(),
        ensures
            final(self).wf(),
            i == old(self)@.len(),
            final(self)@ == old(self)@.push(fresh(None)),
            !resolved(final(self)@, i as int),
    {
        let i = self.nodes.len();
        self.nodes.push(Node { parent: None, completed: false, waiters: None });
        assert(self@ =~= old(self)@.push(fresh(None)));
        i
    }

    /// Adds a child of node `p` and returns its index. The child starts
    /// uncompleted; it counts as resolved exactly when `p` does.
    pub fn add_child(&mut self, p: usize) -> (i: usize)
        requires
            old(self).wf(),
            p < old(self)@.len(),
        ensures
            final(self).wf(),
            i == old(self)@.len(),
            final(self)@ == old(self)@.push(fresh(Some(p as nat))),
            resolved(final(self)@, i as int) == resolved(old(self)@, p as int),
    {
        let i = self.nodes.len();
        self.nodes.push(Node { parent: Some(p), completed: false, waiters: None });
        assert(self@ =~= old(self)@.push(fresh(Some(p as nat))));
        proof {
            lemma_prefix(old(self)@, self@, p as int);
        }
        i
    }

    /// Whether node `i` or one of its ancestors has been completed.
    pub fn is_resolved(&self, i: usize) -> (r: bool)
        requires
            self.wf(),
            i < self@.len(),
        ensures
            r == resolved(self@, i as int),
    {
        let mut cur = i;
        loop
            invariant
                self.wf(),
                cur < self@.len(),
                resolved(self@, i as int) == resolved(self@, cur as int),
            decreases cur,
        {
            let node = &self.nodes[cur];
            assert(node@ == self@[cur as int]);
            if node.completed {
                return true;
            }
            match node.parent {
                Some(p) => {
                    cur = p;
                },
                None => {
                    return false;
                },
            }
        }
    }

    /// Polls node `i` on behalf of waiter `w`. Reports whether the node is
    /// resolved; if it is not, `w` is registered on the node and a clone of it
    /// on every ancestor, so that completing any of them reaches `w`.
    pub fn poll(&mut self, i: usize, w: W) -> (ready: bool)
        where
            W: Clone,
        requires
            old(self).wf(),
            i < old(self)@.len(),
        ensures
            final(self).wf(),
            ready == resolved(old(self)@, i as int),
            ready ==> final(self)@ == old(self)@,
            !ready ==> registered(old(self)@, final(self)@, i as int, w),
    {
        if self.is_resolved(i) {
            return true;
        }
        let ghost s = self@;
        let mut cur = self.nodes[i].parent;
        proof {
            assert(self.nodes@[i as int]@ == s[i as int]);
            if let Some(p) = s[i as int].parent {
                assert(on_chain(s, p as int, p as int));
                assert(on_chain(s, i as int, p as int));
            }
            assert forall|j: int| on_chain(s, i as int, j) && j != i implies (cur matches Some(c) && j <= c) by {
                lemma_chain_below(s, s[i as int].parent.unwrap() as int, j);
            }
        }
        loop
            invariant
                self.wf(),
                !resolved(s, i as int),
                i < s.len(),
                self@.len() == s.len(),
                self@[i as int] == s[i as int],
                cur matches Some(c) ==> c < i && on_chain(s, i as int, c as int),
                forall|j: int|
                    0 <= j < s.len() ==> {
                        &&& (#[trigger] self@[j]).parent == s[j].parent
                        &&& self@[j].completed == s[j].completed
                        &&& !on_chain(s, i as int, j) ==> self@[j].waiters == s[j].waiters
                        &&& on_chain(s, i as int, j) && j != i && (cur matches Some(c) && j <= c) ==> self@[j].waiters == s[j].waiters
                        &&& on_chain(s, i as int, j) && j != i && !(cur matches Some(c) && j <= c) ==> {
                            &&& self@[j].waiters.len() == s[j].waiters.len() + 1
                            &&& self@[j].waiters.drop_last() == s[j].waiters
                            &&& cloned(w, self@[j].waiters.last())
                        }
                    },
            ensures
                cur is None,
                forall|j: int|
                    0 <= j < s.len() ==> {
                        &&& (#[trigger] self@[j]).parent == s[j].parent
                        &&& self@[j].completed == s[j].completed
                        &&& !on_chain(s, i as int, j) ==> self@[j].waiters == s[j].waiters
                        &&& on_chain(s, i as int, j) && j != i ==> {
                            &&& self@[j].waiters.len() == s[j].waiters.len() + 1
                            &&& self@[j].waiters.drop_last() == s[j].waiters
                            &&& cloned(w, self@[j].waiters.last())
                        }
                    },
            decreases
                match cur {
                    Some(c) => c + 1,
                    None => 0,
                },
        {
            match cur {
                Some(c) => {
                    let x = w.clone();
                    let ghost before = self@;
                    proof {
                        lemma_chain_unresolved(s, i as int, c as int);
                    }
                    self.nodes[c].push_waiter(x);
                    assert(self@ =~= before.update(c as int, NodeState { waiters: before[c as int].waiters.push(x), ..before[c as int] }));
                    cur = self.nodes[c].parent;
                    proof {
                        assert(self.nodes@[c as int]@ == self@[c as int]);
                        if let Some(d) = s[c as int].parent {
                            assert(on_chain(s, d as int, d as int));
                            assert(on_chain(s, c as int, d as int));
                            lemma_chain_trans(s, i as int, c as int, d as int);
                        }
                        assert forall|j: int| on_chain(s, i as int, j) && j != i && j < c implies (cur matches Some(d) && j <= d) by {
                            lemma_chain_line(s, i as int, c as int, j);
                            lemma_chain_below(s, s[c as int].parent.unwrap() as int, j);
                        }
                    }
                },
                None => {
                    break;
                },
            }
        }
        let ghost before = self@;
        assert(on_chain(s, i as int, i as int));
        self.nodes[i].push_waiter(w);
        assert(self@ =~= before.update(i as int, NodeState { waiters: before[i as int].waiters.push(w), ..before[i as int] }));
        assert(self@[i as int].waiters == s[i as int].waiters.push(w));
        assert forall|j: int| 0 <= j < s.len() && j != i implies self@[j] == before[j] by {}
        false
    }

    /// Completes node `i` and hands out the waiters registered on it.
    pub fn complete(&mut self, i: usize) -> (out: Option<Vec<W>>)
        requires
            old(self).wf(),
            i < old(self)@.len(),
        ensures
            final(self).wf(),
            final(self)@ == completed_at(old(self)@, i as int),
            waiters_of(out) == old(self)@[i as int].waiters,
        no_unwind
    {
        let mut out: Option<Vec<W>> = None;
        let node = &mut self.nodes[i];
        node.completed = true;
        core::mem::swap(&mut node.waiters, &mut out);
        assert(self@ =~= completed_at(old(self)@, i as int));
        out
    }
}

} // verus!
