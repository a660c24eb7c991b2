use std::sync::atomic::{AtomicBool, Ordering};
use std::sync::Arc;
use vstd::prelude::*;

verus! {

/// The handle that ends a stream from outside.
pub struct Interrupter {
    interrupted: Arc<AtomicBool>,
}

/// A stream that can be ended from outside.
pub struct Interrutible<S> {
    inner: S,
    interrupted: Arc<AtomicBool>,
}

/// `Arc::clone` gives a second handle on the same flag.
#[verifier::external_body]
fn share(flag: &Arc<AtomicBool>) -> Arc<AtomicBool> {
    Arc::clone(flag)
}

/// Pairs a stream with a handle that ends it.
pub fn interruptible<S>(s: S) -> (r: (Interrutible<S>, Interrupter))
    ensures
        r.0.inner() == s,
{
    let flag = Arc::new(AtomicBool::new(false));
    (Interrutible { inner: s, interrupted: share(&flag) }, Interrupter { interrupted: flag })
}

impl Interrupter {
    /// Ends the stream: it yields nothing from now on.
    pub fn interrupt(&self) {
        self.interrupted.store(true, Ordering::Release)
    }
}

impl<S> Interrutible<S> {
    /// The stream.
    pub closed spec fn inner(&self) -> S {
        self.inner
    }

    /// Gives the stream back.
    pub fn into_inner(self) -> (s: S)
        ensures
            s == self.inner(),
    {
        self.inner
    }

    /// Tells whether the stream has been ended; it is to be asked before
    /// each item.
    pub fn interrupted(&self) -> bool {
        self.interrupted.load(Ordering::Acquire)
    }
}

} // verus!
