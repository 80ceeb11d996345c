//! A pool of writers to reuse, so that sending does not allocate a buffer
//! each time.
use crate::network_writer::NetworkWriter;
use vstd::prelude::*;

verus! {

/// How many fresh items a pool starts with.
pub const POOL_CAPACITY: usize = 1000;

/// Writers waiting to be reused; the last one returned is handed out first.
pub struct NetworkWriterPool {
    writers: Vec<NetworkWriter>,
}

impl View for NetworkWriterPool {
    type V = nat;

    /// The number of writers waiting.
    closed spec fn view(&self) -> nat {
        self.writers@.len()
    }
}

impl NetworkWriterPool {
    /// A pool holding `initial_capacity` fresh writers.
    pub fn with_capacity(initial_capacity: usize) -> (r: Self)
        ensures
            r@ == initial_capacity,
    {
        let mut writers: Vec<NetworkWriter> = Vec::new();
        let mut i: usize = 0;
        while i < initial_capacity
            invariant
                i <= initial_capacity,
                writers@.len() == i,
            decreases initial_capacity - i,
        {
            writers.push(NetworkWriter::new());
            i = i + 1;
        }
        NetworkWriterPool { writers }
    }

    /// A pool holding `POOL_CAPACITY` fresh writers.
    pub fn new() -> (r: Self)
        ensures
            r@ == POOL_CAPACITY,
    {
        Self::with_capacity(POOL_CAPACITY)
    }

    /// The number of writers waiting.
    pub fn count(&self) -> (r: usize)
        ensures
            r == self@,
    {
        self.writers.len()
    }

    /// A writer with nothing written: a waiting one when there is one, else
    /// a new one.
    pub fn get(&mut self) -> (r: NetworkWriter)
        ensures
            r.wf(),
            r@ == Seq::<u8>::empty(),
            r.pos() == 0,
            final(self)@ == if old(self)@ > 0 {
                (old(self)@ - 1) as nat
            } else {
                0
            },
    {
        match self.writers.pop() {
            Some(mut writer) => {
                writer.reset();
                writer
            },
            None => NetworkWriter::new(),
        }
    }

    /// Takes a writer back, emptied, for reuse.
    pub fn return_(&mut self, writer: NetworkWriter)
        ensures
            final(self)@ == old(self)@ + 1,
    {
        let mut writer = writer;
        writer.reset();
        self.writers.push(writer);
    }

    /// Lends `func` a writer with nothing written, then takes it back:
    /// `func` runs once, on a writer at position 0 with no bytes written.
    pub fn get_by_closure<F: FnOnce(&mut NetworkWriter)>(&mut self, func: F)
        requires
            forall|w: &mut NetworkWriter| call_requires(func, (w,)),
        ensures
            exists|w: &mut NetworkWriter|
                #[trigger] call_ensures(func, (w,), ()) && (*w).wf() && (*w)@ == Seq::<u8>::empty()
                    && (*w).pos() == 0,
            final(self)@ == if old(self)@ > 0 {
                old(self)@
            } else {
                1
            },
    {
        let mut writer = self.get();
        func(&mut writer);
        self.return_(writer);
    }
}

} // verus!
