//! A pool of readers to reuse, so that receiving does not allocate a reader
//! each time.
use crate::network_reader::NetworkReader;
use crate::network_writer_pool::POOL_CAPACITY;
use vstd::prelude::*;

verus! {

/// Readers waiting to be reused; the last one returned is handed out first.
pub struct NetworkReaderPool {
    readers: Vec<NetworkReader>,
}

impl View for NetworkReaderPool {
    type V = nat;

    /// The number of readers waiting.
    closed spec fn view(&self) -> nat {
        self.readers@.len()
    }
}

impl NetworkReaderPool {
    /// A pool holding `initial_capacity` readers over nothing.
    pub fn with_capacity(initial_capacity: usize) -> (r: Self)
        ensures
            r@ == initial_capacity,
    {
        let mut readers: Vec<NetworkReader> = Vec::new();
        let mut i: usize = 0;
        while i < initial_capacity
            invariant
                i <= initial_capacity,
                readers@.len() == i,
            decreases initial_capacity - i,
        {
            readers.push(NetworkReader::new(Vec::new()));
            i = i + 1;
        }
        NetworkReaderPool { readers }
    }

    /// A pool holding `POOL_CAPACITY` readers over nothing.
    pub fn new() -> (r: Self)
        ensures
            r@ == POOL_CAPACITY,
    {
        Self::with_capacity(POOL_CAPACITY)
    }

    /// The number of readers waiting.
    pub fn count(&self) -> (r: usize)
        ensures
            r == self@,
    {
        self.readers.len()
    }

    /// A reader at its start: a waiting one when there is one, else a new
    /// one over nothing.
    pub fn get(&mut self) -> (r: NetworkReader)
        ensures
            r.wf(),
            r.pos() == 0,
            old(self)@ == 0 ==> r.data() == Seq::<u8>::empty(),
            final(self)@ == if old(self)@ > 0 {
                (old(self)@ - 1) as nat
            } else {
                0
            },
    {
        match self.readers.pop() {
            Some(mut reader) => {
                reader.reset();
                reader
            },
            None => NetworkReader::new(Vec::new()),
        }
    }

    /// A reader at the start of a copy of `segment`.
    pub fn get_with_slice(&mut self, segment: &[u8]) -> (r: NetworkReader)
        ensures
            r.wf(),
            r.pos() == 0,
            r.data() == segment@,
            final(self)@ == if old(self)@ > 0 {
                (old(self)@ - 1) as nat
            } else {
                0
            },
    {
        let mut reader = self.get();
        reader.set_slice(segment);
        reader
    }

    /// Takes a reader back, at its start, for reuse.
    pub fn return_(&mut self, reader: NetworkReader)
        ensures
            final(self)@ == old(self)@ + 1,
    {
        let mut reader = reader;
        reader.reset();
        self.readers.push(reader);
    }

    /// Lends `func` a reader at its start, then takes it back: `func` runs
    /// once, on a reader at position 0.
    pub fn get_return<F: FnOnce(&mut NetworkReader)>(&mut self, func: F)
        requires
            forall|r: &mut NetworkReader| call_requires(func, (r,)),
        ensures
            exists|r: &mut NetworkReader|
                #[trigger] call_ensures(func, (r,), ()) && (*r).wf() && (*r).pos() == 0,
            final(self)@ == if old(self)@ > 0 {
                old(self)@
            } else {
                1
            },
    {
        let mut reader = self.get();
        func(&mut reader);
        self.return_(reader);
    }

    /// Lends `func` a reader at the start of a copy of `segment`, then takes
    /// it back: `func` runs once, on a reader at position 0 over the bytes
    /// of `segment`.
    pub fn get_with_slice_return<F: FnOnce(&mut NetworkReader)>(&mut self, segment: &[u8], func: F)
        requires
            forall|r: &mut NetworkReader| call_requires(func, (r,)),
        ensures
            exists|r: &mut NetworkReader|
                #[trigger] call_ensures(func, (r,), ()) && (*r).wf() && (*r).pos() == 0 && (*r).data()
                    == segment@,
            final(self)@ == if old(self)@ > 0 {
                old(self)@
            } else {
                1
            },
    {
        let mut reader = self.get_with_slice(segment);
        func(&mut reader);
        self.return_(reader);
    }
}

} // verus!
