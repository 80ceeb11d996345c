//! The server's view of one client connection: who it is, whether it is
//! authenticated and ready, and which objects it owns and observes.
use vstd::prelude::*;

verus! {

/// The test for "is not `x`".
pub open spec fn differs_from<T>(x: T) -> spec_fn(T) -> bool {
    |y: T| y != x
}

/// `s` without any occurrence of `x`.
pub open spec fn without<T>(s: Seq<T>, x: T) -> Seq<T> {
    s.filter(differs_from(x))
}

/// Removing `x` keeps the other elements, and a sequence without
/// duplicates stays so.
pub proof fn lemma_without<T>(s: Seq<T>, x: T)
    ensures
        forall|y: T| #[trigger] without(s, x).contains(y) <==> (s.contains(y) && y != x),
        s.no_duplicates() ==> without(s, x).no_duplicates(),
        without(s, x).len() <= s.len(),
    decreases s.len(),
{
    if s.len() == 0 {
        reveal_with_fuel(Seq::filter, 1);
        assert(without(s, x) =~= Seq::<T>::empty());
    } else {
        let p = s.drop_last();
        let e = s.last();
        lemma_without(p, x);
        assert(p.push(e) =~= s);
        p.lemma_filter_push(e, differs_from(x));
        if s.no_duplicates() {
            assert(p.no_duplicates());
            assert(!p.contains(e)) by {
                if p.contains(e) {
                    let k = choose|k: int| 0 <= k < p.len() && p[k] == e;
                    assert(s[k] == s[s.len() - 1]);
                }
            }
            let w = without(p, x);
            assert(!w.contains(e));
            if e != x {
                let r = w.push(e);
                assert forall|i: int, j: int|
                    0 <= i < r.len() && 0 <= j < r.len() && i != j implies r[i] != r[j] by {
                    if i == w.len() {
                        assert(w[j] == r[j]);
                    } else if j == w.len() {
                        assert(w[i] == r[i]);
                    }
                }
            }
        }
        assert forall|y: T| #[trigger] without(s, x).contains(y) <==> (s.contains(y) && y != x) by {
            if s.contains(y) && y != x {
                let k = choose|k: int| 0 <= k < s.len() && s[k] == y;
                if k < p.len() {
                    assert(p[k] == y);
                }
            }
            if without(s, x).contains(y) {
                if !without(p, x).contains(y) {
                    assert(y == e);
                } else {
                    let k = choose|k: int| 0 <= k < p.len() && p[k] == y;
                    assert(s[k] == y);
                }
            }
        }
    }
}

/// Removing a value that does not occur changes nothing.
pub proof fn lemma_without_absent<T>(s: Seq<T>, x: T)
    requires
        !s.contains(x),
    ensures
        without(s, x) == s,
    decreases s.len(),
{
    if s.len() == 0 {
        reveal_with_fuel(Seq::filter, 1);
        assert(without(s, x) =~= s);
    } else {
        let p = s.drop_last();
        assert(!p.contains(x)) by {
            if p.contains(x) {
                let k = choose|k: int| 0 <= k < p.len() && p[k] == x;
                assert(s[k] == x);
            }
        }
        lemma_without_absent(p, x);
        assert(p.push(s.last()) =~= s);
        p.lemma_filter_push(s.last(), differs_from(x));
    }
}

/// Removes every occurrence of `x`, keeping the order of the rest.
pub fn remove_all_u32(v: &mut Vec<u32>, x: u32)
    ensures
        final(v)@ == without(old(v)@, x),
{
    let ghost orig = v@;
    let mut kept: Vec<u32> = Vec::new();
    let mut i: usize = 0;
    while i < v.len()
        invariant
            v@ == orig,
            i <= v.len(),
            kept@ == without(orig.subrange(0, i as int), x),
        decreases v.len() - i,
    {
        let y = v[i];
        proof {
            let s = orig.subrange(0, i as int);
            assert(orig.subrange(0, i + 1) =~= s.push(y));
            s.lemma_filter_push(y, differs_from(x));
        }
        if y != x {
            kept.push(y);
        }
        i = i + 1;
    }
    assert(orig.subrange(0, orig.len() as int) =~= orig);
    proof {
        reveal_with_fuel(Seq::filter, 1);
    }
    *v = kept;
}

/// Removes every occurrence of `x`, keeping the order of the rest.
pub fn remove_all_u64(v: &mut Vec<u64>, x: u64)
    ensures
        final(v)@ == without(old(v)@, x),
{
    let ghost orig = v@;
    let mut kept: Vec<u64> = Vec::new();
    let mut i: usize = 0;
    while i < v.len()
        invariant
            v@ == orig,
            i <= v.len(),
            kept@ == without(orig.subrange(0, i as int), x),
        decreases v.len() - i,
    {
        let y = v[i];
        proof {
            let s = orig.subrange(0, i as int);
            assert(orig.subrange(0, i + 1) =~= s.push(y));
            s.lemma_filter_push(y, differs_from(x));
        }
        if y != x {
            kept.push(y);
        }
        i = i + 1;
    }
    assert(orig.subrange(0, orig.len() as int) =~= orig);
    proof {
        reveal_with_fuel(Seq::filter, 1);
    }
    *v = kept;
}

/// A copy of the net ids.
pub fn copy_net_ids(v: &Vec<u32>) -> (r: Vec<u32>)
    ensures
        r@ == v@,
{
    vstd::slice::slice_to_vec(v.as_slice())
}

/// A copy of the ids.
pub fn copy_ids(v: &Vec<u64>) -> (r: Vec<u64>)
    ensures
        r@ == v@,
{
    vstd::slice::slice_to_vec(v.as_slice())
}

/// Whether `v` holds `x`.
pub fn contains_u64(v: &Vec<u64>, x: u64) -> (r: bool)
    ensures
        r == v@.contains(x),
{
    let mut i: usize = 0;
    while i < v.len()
        invariant
            i <= v.len(),
            forall|j: int| 0 <= j < i ==> v@[j] != x,
        decreases v.len() - i,
    {
        if v[i] == x {
            return true;
        }
        i = i + 1;
    }
    false
}

/// Whether `v` holds `x`.
pub fn contains_u32(v: &Vec<u32>, x: u32) -> (r: bool)
    ensures
        r == v@.contains(x),
{
    let mut i: usize = 0;
    while i < v.len()
        invariant
            i <= v.len(),
            forall|j: int| 0 <= j < i ==> v@[j] != x,
        decreases v.len() - i,
    {
        if v[i] == x {
            return true;
        }
        i = i + 1;
    }
    false
}

/// A client connection as the server tracks it.
#[derive(Debug, Clone, PartialEq, Eq)]
pub struct NetworkConnectionToClient {
    /// Unique id that the transport gave the connection.
    pub connection_id: u64,
    /// The client's address.
    pub address: String,
    /// The client has authenticated.
    pub is_authenticated: bool,
    /// The client has joined the world and receives its state.
    pub is_ready: bool,
    /// The connection's player object, by object id, if it has one.
    pub identity: Option<u64>,
    /// Object ids of the objects that the connection owns.
    pub owned: Vec<u64>,
    /// Object ids of the objects that the connection observes.
    pub observing: Vec<u64>,
}

impl NetworkConnectionToClient {
    pub fn new(connection_id: u64, address: String) -> (r: Self)
        ensures
            r.connection_id == connection_id,
            r.address@ == address@,
            !r.is_authenticated,
            !r.is_ready,
            r.identity is None,
            r.owned@ == Seq::<u64>::empty(),
            r.observing@ == Seq::<u64>::empty(),
    {
        NetworkConnectionToClient {
            connection_id,
            address,
            is_authenticated: false,
            is_ready: false,
            identity: None,
            owned: Vec::new(),
            observing: Vec::new(),
        }
    }

    /// Starts observing an object; one already observed is not added twice.
    pub fn add_to_observing(&mut self, object: u64)
        ensures
            final(self).observing@ == if old(self).observing@.contains(object) {
                old(self).observing@
            } else {
                old(self).observing@.push(object)
            },
            final(self).connection_id == old(self).connection_id,
            final(self).address@ == old(self).address@,
            final(self).is_ready == old(self).is_ready,
            final(self).is_authenticated == old(self).is_authenticated,
            final(self).identity == old(self).identity,
            final(self).owned@ == old(self).owned@,
    {
        if !contains_u64(&self.observing, object) {
            self.observing.push(object);
        }
    }

    /// Stops observing an object.
    pub fn remove_from_observing(&mut self, object: u64)
        ensures
            final(self).observing@ == without(old(self).observing@, object),
            final(self).connection_id == old(self).connection_id,
            final(self).address@ == old(self).address@,
            final(self).is_ready == old(self).is_ready,
            final(self).is_authenticated == old(self).is_authenticated,
            final(self).identity == old(self).identity,
            final(self).owned@ == old(self).owned@,
    {
        remove_all_u64(&mut self.observing, object);
    }

    /// Records an owned object; one already owned is not added twice.
    pub fn add_owned_object(&mut self, object: u64)
        ensures
            final(self).owned@ == if old(self).owned@.contains(object) {
                old(self).owned@
            } else {
                old(self).owned@.push(object)
            },
            final(self).connection_id == old(self).connection_id,
            final(self).address@ == old(self).address@,
            final(self).is_ready == old(self).is_ready,
            final(self).is_authenticated == old(self).is_authenticated,
            final(self).identity == old(self).identity,
            final(self).observing@ == old(self).observing@,
    {
        if !contains_u64(&self.owned, object) {
            self.owned.push(object);
        }
    }

    /// Forgets an owned object.
    pub fn remove_owned_object(&mut self, object: u64)
        ensures
            final(self).owned@ == without(old(self).owned@, object),
            final(self).connection_id == old(self).connection_id,
            final(self).address@ == old(self).address@,
            final(self).is_ready == old(self).is_ready,
            final(self).is_authenticated == old(self).is_authenticated,
            final(self).identity == old(self).identity,
            final(self).observing@ == old(self).observing@,
    {
        remove_all_u64(&mut self.owned, object);
    }

    /// The connection is no longer ready; the transport is then told to
    /// close it.
    pub fn disconnect(&mut self)
        ensures
            !final(self).is_ready,
            final(self).connection_id == old(self).connection_id,
            final(self).address@ == old(self).address@,
            final(self).is_authenticated == old(self).is_authenticated,
            final(self).identity == old(self).identity,
            final(self).owned@ == old(self).owned@,
            final(self).observing@ == old(self).observing@,
    {
        self.is_ready = false;
    }
}

} // verus!
