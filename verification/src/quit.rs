//! Orderly shutdown: cleanup handlers run before the process exits.
use vstd::prelude::*;
use crate::quit::handler::{CleanupHandler, Handler, HandlerView, unrun_view};

pub mod handler;

verus! {

/// The registered cleanup handlers, the most recently registered first.
pub struct HandlerNode {
    handler: Box<dyn CleanupHandler>,
    earlier: Option<Box<HandlerNode>>,
}

/// The views of the handlers of a list, in the order in which they were
/// registered.
pub closed spec fn list_views(list: Option<Box<HandlerNode>>) -> Seq<HandlerView>
    decreases list,
{
    match list {
        Some(node) => list_views(node.earlier).push(node.handler.handler_view()),
        None => Seq::empty(),
    }
}

/// Runs the handlers of a list once each, in the order in which they were
/// registered, advancing the clock by one for each.
fn run_handlers(list: &mut Option<Box<HandlerNode>>, clock: &mut Ghost<nat>)
    requires
        forall|i: int| 0 <= i < list_views(*old(list)).len() ==> #[trigger] list_views(*old(list))[i].ready,
    ensures
        list_views(*final(list)).len() == list_views(*old(list)).len(),
        forall|i: int|
            0 <= i < list_views(*old(list)).len() ==> #[trigger] list_views(*old(list))[i].call_returns,
        forall|i: int|
            0 <= i < list_views(*old(list)).len() ==> #[trigger] list_views(*final(list))[i].stamp
                == Some((old(clock)@ + i) as nat),
        final(clock)@ == old(clock)@ + list_views(*old(list)).len(),
    decreases *old(list),
{
    match list {
        Some(node) => {
            let ghost before = list_views(Some(*node));
            let ghost earlier_before = list_views(node.earlier);
            let ghost handler_before = node.handler.handler_view();
            assert(before == earlier_before.push(handler_before));
            assert forall|i: int| 0 <= i < earlier_before.len() implies #[trigger] earlier_before[i].ready by {
                assert(before[i] == earlier_before[i]);
            }
            assert(before[earlier_before.len() as int] == handler_before);
            run_handlers(&mut node.earlier, clock);
            node.handler.run(clock);
            let ghost after = list_views(Some(*node));
            assert(after == list_views(node.earlier).push(node.handler.handler_view()));
            assert forall|i: int| 0 <= i < before.len() implies #[trigger] before[i].call_returns
                && after[i].stamp == Some((old(clock)@ + i) as nat) by {
                if i < earlier_before.len() {
                    assert(before[i] == earlier_before[i]);
                    assert(after[i] == list_views(node.earlier)[i]);
                }
            }
        },
        None => {},
    }
}

/// Registers cleanup handlers and runs them, then exits.
pub struct Quitter {
    handlers: Option<Box<HandlerNode>>,
    exit: Box<dyn CleanupHandler>,
    clock: Ghost<nat>,
}

impl Quitter {
    /// The registered cleanup handlers, in the order of registration.
    pub closed spec fn handlers(&self) -> Seq<HandlerView> {
        list_views(self.handlers)
    }

    /// The handler that exits.
    pub closed spec fn exit_handler(&self) -> HandlerView {
        self.exit.handler_view()
    }

    /// The shutdown clock: the number of handler runs so far.
    pub closed spec fn clock(&self) -> nat {
        self.clock@
    }

    /// Whether every closure that `quit` calls may be called.
    pub open spec fn ready(&self) -> bool {
        &&& forall|i: int| 0 <= i < self.handlers().len() ==> #[trigger] self.handlers()[i].ready
        &&& self.exit_handler().ready
    }

    /// A quitter with no cleanup handlers that calls `exit` to exit.
    pub fn new_internal<F: FnMut() + Send + 'static>(exit: F) -> (r: Quitter)
        ensures
            r.handlers() == Seq::<HandlerView>::empty(),
            r.exit_handler() == unrun_view(exit),
            r.clock() == 0,
    {
        let handler = Handler::new(exit);
        Quitter { handlers: None, exit: Box::new(handler), clock: Ghost(0) }
    }

    /// Registers the closure `handler` to be called at shutdown, after those
    /// registered before. Nothing is called.
    pub fn register_cleanup<F: FnMut() + Send + 'static>(&mut self, handler: F)
        ensures
            final(self).handlers() == old(self).handlers().push(unrun_view(handler)),
            final(self).exit_handler() == old(self).exit_handler(),
            final(self).clock() == old(self).clock(),
    {
        let new_handler = Handler::new(handler);
        let mut earlier: Option<Box<HandlerNode>> = None;
        std::mem::swap(&mut earlier, &mut self.handlers);
        self.handlers = Some(Box::new(HandlerNode { handler: Box::new(new_handler), earlier }));
    }

    /// Calls every registered closure once, in the order of registration,
    /// then the exit closure: handler `i` runs at the old clock reading plus
    /// `i`, the exit after all of them, and each of those closures, as it
    /// stood, was called and returned.
    pub fn quit(&mut self)
        requires
            old(self).ready(),
        ensures
            final(self).handlers().len() == old(self).handlers().len(),
            forall|i: int|
                0 <= i < old(self).handlers().len() ==> #[trigger] old(self).handlers()[i].call_returns,
            forall|i: int|
                0 <= i < old(self).handlers().len() ==> #[trigger] final(self).handlers()[i].stamp
                    == Some((old(self).clock() + i) as nat),
            old(self).exit_handler().call_returns,
            final(self).exit_handler().stamp == Some(old(self).clock() + old(self).handlers().len()),
            final(self).clock() == old(self).clock() + old(self).handlers().len() + 1,
    {
        run_handlers(&mut self.handlers, &mut self.clock);
        self.exit.run(&mut self.clock);
    }
}

} // verus!
