//! Awaitable cancellation handles.
use core::ops::DerefMut;
use std::pin::Pin;
use std::sync::{Arc, Mutex, MutexGuard};
use std::task::{Poll, Waker};
use vstd::prelude::*;

use crate::tree::{completed_at, fresh, registered, resolved, waiters_of, NodeState, Tree};

verus! {

/// The shared state of a family of contexts: its arena, always well formed.
///
/// Every id handed out is an index of the arena, which only grows. Only a
/// panic in the middle of an update (a waker whose clone panics) can leave the
/// arena without a node that a context names; such an id reads as completed,
/// so that the contexts of a broken family resolve as cancelled ones do.
struct Family {
    tree: Tree<Waker>,
}

impl Family {
    #[verifier::type_invariant]
    spec fn inv(&self) -> bool {
        self.tree.wf()
    }

    /// A family holding one root, at index 0.
    fn new() -> (r: (Family, usize))
        ensures
            r.0.tree@ == seq![fresh::<Waker>(None)],
            r.1 == 0,
    {
        let mut tree = Tree::new();
        let root = tree.add_root();
        assert(tree@ =~= seq![fresh::<Waker>(None)]);
        (Family { tree }, root)
    }

    /// Adds a child of node `id` and returns its index. For an id that the
    /// arena does not hold, the new node is a completed root.
    fn add_child(&mut self, id: usize) -> (child: usize)
        ensures
            child == old(self).tree@.len(),
            id < old(self).tree@.len() ==> final(self).tree@ == old(self).tree@.push(
                fresh(Some(id as nat)),
            ),
            id >= old(self).tree@.len() ==> final(self).tree@ == old(self).tree@.push(
                NodeState { parent: None, completed: true, waiters: Seq::empty() },
            ),
    {
        proof {
            use_type_invariant(&*self);
        }
        let mut tree = Tree::new();
        core::mem::swap(&mut self.tree, &mut tree);
        let child = if id < tree.len() {
            tree.add_child(id)
        } else {
            let root = tree.add_root();
            tree.complete(root);
            assert(tree@ =~= old(self).tree@.push(
                NodeState { parent: None, completed: true, waiters: Seq::empty() },
            ));
            root
        };
        self.tree = tree;
        child
    }

    /// Polls node `id` on behalf of `waker`; see [`Tree::poll`]. An id that
    /// the arena does not hold reads as ready.
    fn poll(&mut self, id: usize, waker: Waker) -> (r: Poll<()>)
        ensures
            id >= old(self).tree@.len() ==> r is Ready && final(self).tree@ == old(self).tree@,
            id < old(self).tree@.len() ==> {
                &&& r is Ready == resolved(old(self).tree@, id as int)
                &&& r is Ready ==> final(self).tree@ == old(self).tree@
                &&& r is Pending ==> registered(
                    old(self).tree@,
                    final(self).tree@,
                    id as int,
                    waker,
                )
            },
    {
        proof {
            use_type_invariant(&*self);
        }
        let mut tree = Tree::new();
        core::mem::swap(&mut self.tree, &mut tree);
        let ready = if id < tree.len() {
            tree.poll(id, waker)
        } else {
            true
        };
        self.tree = tree;
        if ready {
            Poll::Ready(())
        } else {
            Poll::Pending
        }
    }

    /// Completes node `id` and hands out its waiters; see [`Tree::complete`].
    /// An id that the arena does not hold changes nothing.
    fn complete(&mut self, id: usize) -> (out: Option<Vec<Waker>>)
        ensures
            id >= old(self).tree@.len() ==> out is None && final(self).tree@ == old(self).tree@,
            id < old(self).tree@.len() ==> {
                &&& final(self).tree@ == completed_at(old(self).tree@, id as int)
                &&& waiters_of(out) == old(self).tree@[id as int].waiters
            },
        no_unwind
    {
        proof {
            use_type_invariant(&*self);
        }
        if id < self.tree.len() {
            self.tree.complete(id)
        } else {
            None
        }
    }
}

/// Takes the lock of a family. A poisoned lock is taken all the same: whatever
/// a panic interrupted, the arena inside is well formed.
fn lock(m: &Mutex<Family>) -> MutexGuard<'_, Family> {
    match m.lock() {
        Ok(held) => held,
        Err(poisoned) => poisoned.into_inner(),
    }
}

/// Wakes every waker of the list.
fn wake_all(ws: &Vec<Waker>) {
    let mut k: usize = 0;
    while k < ws.len()
        invariant
            k <= ws@.len(),
        decreases ws@.len() - k,
    {
        ws[k].wake_by_ref();
        k = k + 1;
    }
}

/// A future that can be completed from outside, as a means of cancellation.
///
/// It resolves once [`Context::complete`] is called on it or on a clone, or
/// once a context it was derived from completes. Clones refer to the same
/// logical context.
#[derive(Clone)]
pub struct Context {
    shared: Arc<Mutex<Family>>,
    id: usize,
}

impl Context {
    /// The index of this context in its family's arena.
    pub closed spec fn node(&self) -> nat {
        self.id as nat
    }

    /// Completes this context and the contexts derived from it, and wakes the
    /// tasks waiting on it. Completing twice has the effect of completing once.
    pub fn complete(&self) {
        let drained = {
            let mut held = lock(&self.shared);
            let family = held.deref_mut();
            family.complete(self.id)
        };
        if let Some(ws) = drained {
            wake_all(&ws);
        }
    }

    /// Derives a child context. Completing this context completes the child;
    /// completing the child leaves this context alone.
    ///
    /// The child is a new node of this family's arena, and the arena keeps
    /// its nodes until the last handle of the family is dropped: a long-lived
    /// root that derives many short-lived children grows with each of them.
    /// Freeing a node when its last handle goes would take a destructor on
    /// `Context`, which would have to lock the family without unwinding.
    pub fn child(&self) -> Context {
        let id = {
            let mut held = lock(&self.shared);
            let family = held.deref_mut();
            family.add_child(self.id)
        };
        let mut c = self.clone();
        c.id = id;
        c
    }
}

impl Default for Context {
    /// A new root context, not completed.
    fn default() -> (c: Context)
        ensures
            c.node() == 0,
    {
        let (family, root) = Family::new();
        Context { shared: Arc::new(Mutex::new(family)), id: root }
    }
}

impl std::future::Future for Context {
    type Output = ();

    fn poll(self: Pin<&mut Self>, cx: &mut std::task::Context<'_>) -> Poll<()> {
        let this = self.into_ref().get_ref();
        let waker = cx.waker().clone();
        let mut held = lock(&this.shared);
        let family = held.deref_mut();
        family.poll(this.id, waker)
    }
}

} // verus!
