//! Cleanup handlers. Each run of a handler calls its closure and is stamped
//! with the reading of a shutdown clock, which the run advances by one, so
//! that the order of the runs can be read off the stamps.
use vstd::prelude::*;

verus! {

/// What is known of a cleanup handler.
pub ghost struct HandlerView {
    /// The clock reading at the handler's latest run; none before its first.
    pub stamp: Option<nat>,
    /// Whether the handler's closure, as it stands, may be called.
    pub ready: bool,
    /// Whether a call of the handler's closure, as it stands, returns: known
    /// once the closure has been called.
    pub call_returns: bool,
}

/// The view of a handler of the closure `f` that has not run yet.
pub open spec fn unrun_view<F: FnMut() + Send + 'static>(f: F) -> HandlerView {
    HandlerView { stamp: None, ready: call_requires(f, ()), call_returns: call_ensures(f, (), ()) }
}

/// Something to run at shutdown.
pub trait CleanupHandler: Send {
    spec fn handler_view(&self) -> HandlerView;

    /// Calls the handler's closure once, at the time that `clock` reads.
    fn run(&mut self, clock: &mut Ghost<nat>)
        requires
            old(self).handler_view().ready,
        ensures
            old(self).handler_view().call_returns,
            final(self).handler_view().stamp == Some(old(clock)@),
            final(clock)@ == old(clock)@ + 1,
    ;
}

/// Calls a closure supplied by the user of `Quitter`.
fn call_handler<F: FnMut() + Send>(f: &mut F)
    requires
        call_requires(*old(f), ()),
    ensures
        call_ensures(*old(f), (), ()),
{
    f()
}

/// A closure used as a cleanup handler.
pub struct Handler<F: FnMut() + Send + 'static> {
    f: F,
    stamp: Ghost<Option<nat>>,
}

impl<F: FnMut() + Send + 'static> CleanupHandler for Handler<F> {
    closed spec fn handler_view(&self) -> HandlerView {
        HandlerView {
            stamp: self.stamp@,
            ready: call_requires(self.f, ()),
            call_returns: call_ensures(self.f, (), ()),
        }
    }

    fn run(&mut self, clock: &mut Ghost<nat>) {
        call_handler(&mut self.f);
        self.stamp = Ghost(Some(clock@));
        *clock = Ghost(clock@ + 1);
    }
}

impl<F: FnMut() + Send + 'static> Handler<F> {
    /// The closure that the handler runs.
    pub closed spec fn closure(&self) -> F {
        self.f
    }

    /// The handler that runs the closure `f`, not run yet.
    pub fn new(f: F) -> (r: Handler<F>)
        ensures
            r.closure() == f,
            r.handler_view() == unrun_view(f),
    {
        Handler { f, stamp: Ghost(None) }
    }
}

} // verus!
