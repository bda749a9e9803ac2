use async_ctx::Context;
use std::future::Future;
use std::pin::Pin;
use std::sync::atomic::{AtomicUsize, Ordering};
use std::sync::Arc;
use std::task::{Poll, Wake, Waker};
use std::time::Duration;
use tokio::time::timeout;

const JIFFY: Duration = Duration::from_millis(10);

fn run<F: Future>(f: F) -> F::Output {
    tokio::runtime::Builder::new_current_thread()
        .enable_time()
        .build()
        .unwrap()
        .block_on(f)
}

#[test]
fn is_pending_if_not_completed() {
    run(async {
        let ctx = Context::default();
        let fut = timeout(JIFFY, ctx);

        fut.await.unwrap_err();
    })
}

#[test]
fn is_ready_if_completed() {
    run(async {
        let ctx = Context::default();
        let fut = timeout(JIFFY, ctx.clone());
        ctx.complete();

        fut.await.unwrap();
    })
}

#[test]
fn parent_completion_propagates_to_child() {
    run(async {
        let ctx = Context::default();
        let chd = timeout(JIFFY, ctx.child());
        let par = timeout(JIFFY, ctx.clone());
        ctx.complete();

        par.await.unwrap();
        chd.await.unwrap();
    })
}

#[test]
fn child_completion_doesnt_propagate_to_parent() {
    run(async {
        let ctx = Context::default();
        let chd = ctx.child();
        let par = timeout(JIFFY, ctx);
        let fst = timeout(JIFFY, chd.clone());
        chd.complete();

        fst.await.unwrap();
        par.await.unwrap_err();
    })
}

struct Counter(AtomicUsize);

impl Wake for Counter {
    fn wake(self: Arc<Self>) {
        self.0.fetch_add(1, Ordering::SeqCst);
    }
}

fn counter() -> (Arc<Counter>, Waker) {
    let c = Arc::new(Counter(AtomicUsize::new(0)));
    let w = Waker::from(c.clone());
    (c, w)
}

fn poll_once(ctx: &mut Context, waker: &Waker) -> bool {
    let mut cx = std::task::Context::from_waker(waker);
    Pin::new(ctx).poll(&mut cx).is_ready()
}

fn wakes(c: &Arc<Counter>) -> usize {
    c.0.load(Ordering::SeqCst)
}

#[test]
fn pending_await_is_woken_by_complete() {
    let (c, w) = counter();
    let mut ctx = Context::default();
    assert!(!poll_once(&mut ctx, &w));
    assert_eq!(wakes(&c), 0);
    ctx.complete();
    assert_eq!(wakes(&c), 1);
    assert!(poll_once(&mut ctx, &w));
}

#[test]
fn completed_context_stays_ready() {
    let (c, w) = counter();
    let mut ctx = Context::default();
    ctx.complete();
    assert!(poll_once(&mut ctx, &w));
    assert!(poll_once(&mut ctx, &w));
    let mut other = ctx.clone();
    assert!(poll_once(&mut other, &w));
    assert_eq!(wakes(&c), 0);
}

#[test]
fn complete_twice_wakes_once() {
    let (c, w) = counter();
    let mut ctx = Context::default();
    assert!(!poll_once(&mut ctx, &w));
    ctx.complete();
    ctx.complete();
    assert_eq!(wakes(&c), 1);
    assert!(poll_once(&mut ctx, &w));
}

#[test]
fn every_pending_waiter_is_woken() {
    let (c1, w1) = counter();
    let (c2, w2) = counter();
    let mut a = Context::default();
    let mut b = a.clone();
    assert!(!poll_once(&mut a, &w1));
    assert!(!poll_once(&mut b, &w2));
    b.complete();
    assert_eq!(wakes(&c1), 1);
    assert_eq!(wakes(&c2), 1);
}

#[test]
fn parent_completion_wakes_grandchild() {
    let (c, w) = counter();
    let root = Context::default();
    let mut grandchild = root.child().child();
    assert!(!poll_once(&mut grandchild, &w));
    root.complete();
    assert_eq!(wakes(&c), 1);
    assert!(poll_once(&mut grandchild, &w));
}

#[test]
fn child_of_completed_parent_is_ready() {
    let (_c, w) = counter();
    let root = Context::default();
    root.complete();
    let mut child = root.child();
    assert!(poll_once(&mut child, &w));
}

#[test]
fn child_completion_leaves_parent_and_sibling_pending() {
    let (c, w) = counter();
    let mut root = Context::default();
    let mut left = root.child();
    let right = root.child();
    assert!(!poll_once(&mut root, &w));
    assert!(!poll_once(&mut left, &w));
    right.complete();
    assert_eq!(wakes(&c), 0);
    assert!(!poll_once(&mut root, &w));
    assert!(!poll_once(&mut left, &w));
}

#[test]
fn separate_roots_are_independent() {
    let (_c, w) = counter();
    let a = Context::default();
    let mut b = Context::default();
    a.complete();
    assert!(!poll_once(&mut b, &w));
}
