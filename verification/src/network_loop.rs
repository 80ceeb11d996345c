//! The frame loop: the handlers that run before and after each frame, around
//! the server's own updates.
use crate::network_connection::copy_ids;
use crate::network_server::{interpolation_updates, views, ActionView, NetworkServer, ServerAction};
use vstd::prelude::*;

verus! {

/// The handlers of the frame loop, by id, in the order they were added.
pub struct NetworkLoopStatic {
    pub on_early_update: Vec<u64>,
    pub on_late_update: Vec<u64>,
}

impl NetworkLoopStatic {
    pub fn new() -> (r: Self)
        ensures
            r.on_early_update@ == Seq::<u64>::empty(),
            r.on_late_update@ == Seq::<u64>::empty(),
    {
        NetworkLoopStatic { on_early_update: Vec::new(), on_late_update: Vec::new() }
    }

    /// Adds a handler that runs at the start of each frame.
    pub fn append_early_update_handler(&mut self, handler: u64)
        ensures
            final(self).on_early_update@ == old(self).on_early_update@.push(handler),
            final(self).on_late_update@ == old(self).on_late_update@,
    {
        self.on_early_update.push(handler);
    }

    /// Adds a handler that runs at the end of each frame.
    pub fn append_late_update_handler(&mut self, handler: u64)
        ensures
            final(self).on_late_update@ == old(self).on_late_update@.push(handler),
            final(self).on_early_update@ == old(self).on_early_update@,
    {
        self.on_late_update.push(handler);
    }
}

/// The frame loop over its handlers.
pub struct NetworkLoop {
    pub handlers: NetworkLoopStatic,
}

impl NetworkLoop {
    pub fn new() -> (r: Self)
        ensures
            r.handlers.on_early_update@ == Seq::<u64>::empty(),
            r.handlers.on_late_update@ == Seq::<u64>::empty(),
    {
        NetworkLoop { handlers: NetworkLoopStatic::new() }
    }

    /// The start of a frame: the server's early update, then the early
    /// handlers, which are returned in the order they run.
    pub fn network_early_update(&self, server: &NetworkServer, out: &mut Vec<ServerAction>) -> (r: Vec<u64>)
        ensures
            views(final(out)@) == views(old(out)@).push(ActionView::TransportEarlyUpdate)
                + interpolation_updates(server.connections@),
            r@ == self.handlers.on_early_update@,
    {
        server.network_early_update(out);
        copy_ids(&self.handlers.on_early_update)
    }

    /// The end of a frame: the late handlers, returned in the order they
    /// run, go first; the server's late update comes after them.
    pub fn network_late_update(&self) -> (r: Vec<u64>)
        ensures
            r@ == self.handlers.on_late_update@,
    {
        copy_ids(&self.handlers.on_late_update)
    }
}

} // verus!
