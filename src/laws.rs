//! Laws of cancellation, stated over the states that [`Tree`]'s operations
//! are specified by: [`fresh`] nodes for `add_root` and `add_child`,
//! [`registered`] for a pending `poll`, [`completed_at`] for `complete`.
//!
//! [`Tree`]: crate::tree::Tree
use vstd::prelude::*;

use crate::tree::{
    completed_at, fresh, lemma_chain_below, lemma_prefix, on_chain, registered, resolved,
    well_formed, NodeState,
};

verus! {

/// Two families with the same links and flags resolve the same nodes and have
/// the same chains.
proof fn lemma_same_shape<W>(s: Seq<NodeState<W>>, t: Seq<NodeState<W>>, j: int, c: int)
    requires
        t.len() == s.len(),
        forall|k: int|
            0 <= k < s.len() ==> (#[trigger] t[k]).parent == s[k].parent && t[k].completed
                == s[k].completed,
    ensures
        resolved(t, j) == resolved(s, j),
        on_chain(t, j, c) == on_chain(s, j, c),
    decreases j,
{
    if 0 <= j < s.len() {
        if let Some(p) = s[j].parent {
            if p < j {
                lemma_same_shape(s, t, p as int, c);
            }
        }
    }
}

/// After node `c` is completed, a node is resolved when it was before or when
/// `c` lies on its chain.
proof fn lemma_completed_at<W>(s: Seq<NodeState<W>>, c: int, j: int)
    requires
        0 <= c < s.len(),
    ensures
        resolved(completed_at(s, c), j) == (resolved(s, j) || on_chain(s, j, c)),
    decreases j,
{
    if 0 <= j < s.len() {
        if let Some(p) = s[j].parent {
            if p < j {
                lemma_completed_at(s, c, p as int);
            }
        }
    }
}

/// A node on no completed chain is pending: before any completion reaches
/// it, polling a context reports it not ready.
pub proof fn law_pending_until_completed<W>(s: Seq<NodeState<W>>, i: int)
    requires
        well_formed(s),
        0 <= i < s.len(),
        forall|j: int| on_chain(s, i, j) ==> !(#[trigger] s[j]).completed,
    ensures
        !resolved(s, i),
    decreases i,
{
    assert(on_chain(s, i, i));
    if let Some(p) = s[i].parent {
        assert forall|j: int| on_chain(s, p as int, j) implies !(#[trigger] s[j]).completed by {
            assert(on_chain(s, i, j));
        }
        law_pending_until_completed(s, p as int);
    }
}

/// A new root context is pending.
pub proof fn law_new_root_pending<W>(s: Seq<NodeState<W>>)
    requires
        well_formed(s),
    ensures
        !resolved(s.push(fresh::<W>(None)), s.len() as int),
{
}

/// Once a context is completed, polling it reports it ready.
pub proof fn law_ready_after_complete<W>(s: Seq<NodeState<W>>, i: int)
    requires
        0 <= i < s.len(),
    ensures
        resolved(completed_at(s, i), i),
{
}

/// Completion is latched: no operation makes a resolved node pending again.
pub proof fn law_resolution_is_kept<W: Clone>(
    s: Seq<NodeState<W>>,
    t: Seq<NodeState<W>>,
    i: int,
    c: int,
    w: W,
    parent: Option<nat>,
)
    requires
        0 <= i < s.len(),
        0 <= c < s.len(),
        resolved(s, i),
    ensures
        resolved(completed_at(s, c), i),
        resolved(s.push(fresh::<W>(parent)), i),
        registered(s, t, c, w) ==> resolved(t, i),
{
    lemma_completed_at(s, c, i);
    lemma_prefix(s, s.push(fresh::<W>(parent)), i);
    if registered(s, t, c, w) {
        lemma_same_shape(s, t, i, i);
    }
}

/// No lost wakeup: a waiter registered by a pending poll is among the waiters
/// that completing the node hands out, and the node is then ready.
pub proof fn law_pending_waiter_is_woken<W: Clone>(
    s: Seq<NodeState<W>>,
    t: Seq<NodeState<W>>,
    i: int,
    w: W,
)
    requires
        well_formed(s),
        0 <= i < s.len(),
        registered(s, t, i, w),
    ensures
        t[i].waiters.contains(w),
        resolved(completed_at(t, i), i),
{
    assert(t[i].waiters.last() == w);
}

/// Completion flows down: completing an ancestor `a` of a node `c` that a
/// pending poll registered `w` on hands out a clone of `w`, and makes `c`
/// ready.
pub proof fn law_parent_completion_reaches_child<W: Clone>(
    s: Seq<NodeState<W>>,
    t: Seq<NodeState<W>>,
    c: int,
    a: int,
    w: W,
)
    requires
        well_formed(s),
        0 <= c < s.len(),
        on_chain(s, c, a),
        !resolved(s, c),
        registered(s, t, c, w),
    ensures
        exists|k: int| 0 <= k < t[a].waiters.len() && cloned(w, #[trigger] t[a].waiters[k]),
        resolved(completed_at(t, a), c),
{
    lemma_chain_below(s, c, a);
    assert(cloned(w, t[a].waiters[t[a].waiters.len() - 1]));
    lemma_same_shape(s, t, c, a);
    lemma_completed_at(t, a, c);
}

/// Completion does not flow up: completing a child leaves its parent, and
/// every other node not derived from the child, as it was.
pub proof fn law_child_completion_stays_below<W>(s: Seq<NodeState<W>>, c: int, j: int)
    requires
        well_formed(s),
        0 <= c < s.len(),
        0 <= j < s.len(),
        !on_chain(s, j, c),
    ensures
        resolved(completed_at(s, c), j) == resolved(s, j),
{
    lemma_completed_at(s, c, j);
}

/// Completing a child never resolves its parent.
pub proof fn law_parent_not_resolved_by_child<W>(s: Seq<NodeState<W>>, c: int, p: nat)
    requires
        well_formed(s),
        0 <= c < s.len(),
        s[c].parent == Some(p),
        !resolved(s, p as int),
    ensures
        !resolved(completed_at(s, c), p as int),
{
    if on_chain(s, p as int, c) {
        lemma_chain_below(s, p as int, c);
    }
    lemma_completed_at(s, c, p as int);
}

/// Completing twice is completing once: the second completion changes
/// nothing and hands out no waiters.
pub proof fn law_complete_idempotent<W>(s: Seq<NodeState<W>>, i: int)
    requires
        0 <= i < s.len(),
    ensures
        completed_at(completed_at(s, i), i) == completed_at(s, i),
        completed_at(s, i)[i].waiters.len() == 0,
{
    assert(completed_at(completed_at(s, i), i) =~= completed_at(s, i));
}

} // verus!
