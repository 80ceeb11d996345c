//! A list whose changes are recorded, so that they can be sent as a delta,
//! and replayed on the other side.
use crate::blittable::Blittable;
use crate::network_behaviour::NetworkBehaviour;
use crate::message::{read_fixed, skip};
use crate::network_reader::NetworkReader;
use crate::network_writer::NetworkWriter;
use vstd::prelude::*;

verus! {

/// The kinds of change of a list.
#[derive(Debug, Clone, Copy, PartialEq, Eq, Structural)]
pub enum Operation {
    OpAdd,
    OpSet,
    OpInsert,
    OpRemoveAt,
    OpClear,
}

impl Operation {
    /// The operation's number on the wire.
    pub open spec fn spec_to_u8(self) -> u8 {
        match self {
            Operation::OpAdd => 0,
            Operation::OpSet => 1,
            Operation::OpInsert => 2,
            Operation::OpRemoveAt => 3,
            Operation::OpClear => 4,
        }
    }

    /// The operation with number `value`, if any.
    pub open spec fn spec_from_u8(value: u8) -> Option<Operation> {
        if value == 0 {
            Some(Operation::OpAdd)
        } else if value == 1 {
            Some(Operation::OpSet)
        } else if value == 2 {
            Some(Operation::OpInsert)
        } else if value == 3 {
            Some(Operation::OpRemoveAt)
        } else if value == 4 {
            Some(Operation::OpClear)
        } else {
            None
        }
    }

    pub fn to_u8(self) -> (r: u8)
        ensures
            r == self.spec_to_u8(),
    {
        match self {
            Operation::OpAdd => 0,
            Operation::OpSet => 1,
            Operation::OpInsert => 2,
            Operation::OpRemoveAt => 3,
            Operation::OpClear => 4,
        }
    }

    pub fn from_u8(value: u8) -> (r: Option<Operation>)
        ensures
            r == Self::spec_from_u8(value),
    {
        match value {
            0 => Some(Operation::OpAdd),
            1 => Some(Operation::OpSet),
            2 => Some(Operation::OpInsert),
            3 => Some(Operation::OpRemoveAt),
            4 => Some(Operation::OpClear),
            _ => None,
        }
    }

    /// Law: an operation's number names it again.
    pub proof fn lemma_roundtrip(self)
        ensures
            Self::spec_from_u8(self.spec_to_u8()) == Some(self),
    {
    }
}

/// A recorded change: for additions, insertions and sets the new value; for
/// removals and clears the zero value.
#[derive(Debug, Clone, Copy, PartialEq, Eq)]
pub struct Change<T> {
    pub operation: Operation,
    pub index: usize,
    pub value: T,
}

/// A change as the list's observers see it: for additions, insertions and
/// clears the callback that takes one value gets the new one, for sets and
/// removals the old one; the callback that takes both gets both.
#[derive(Debug, Clone, Copy, PartialEq, Eq)]
pub struct ListEvent<T> {
    pub operation: Operation,
    pub index: usize,
    pub old_value: T,
    pub new_value: T,
}

impl<T> ListEvent<T> {
    /// The value that the one-value callback gets.
    pub open spec fn spec_reported(self) -> T {
        match self.operation {
            Operation::OpSet | Operation::OpRemoveAt => self.old_value,
            _ => self.new_value,
        }
    }

    pub fn reported(&self) -> (r: &T)
        ensures
            *r == self.spec_reported(),
    {
        match self.operation {
            Operation::OpSet | Operation::OpRemoveAt => &self.old_value,
            _ => &self.new_value,
        }
    }
}

/// The images of the values, one after the other.
pub open spec fn values_bytes<T: Blittable>(vs: Seq<T>) -> Seq<u8>
    decreases vs.len(),
{
    if vs.len() == 0 {
        Seq::empty()
    } else {
        values_bytes(vs.drop_last()) + vs.last().spec_to_bytes()
    }
}

/// The bytes of a change: the operation's number, then the index for sets,
/// insertions and removals, then the value for additions, sets and
/// insertions.
pub open spec fn change_bytes<T: Blittable>(c: Change<T>) -> Seq<u8> {
    seq![c.operation.spec_to_u8()] + match c.operation {
        Operation::OpAdd => c.value.spec_to_bytes(),
        Operation::OpSet | Operation::OpInsert => (c.index as u32).spec_to_bytes()
            + c.value.spec_to_bytes(),
        Operation::OpRemoveAt => (c.index as u32).spec_to_bytes(),
        Operation::OpClear => Seq::empty(),
    }
}

/// The bytes of the changes, one after the other.
pub open spec fn changes_bytes<T: Blittable>(cs: Seq<Change<T>>) -> Seq<u8>
    decreases cs.len(),
{
    if cs.len() == 0 {
        Seq::empty()
    } else {
        changes_bytes(cs.drop_last()) + change_bytes(cs.last())
    }
}

/// The values that reading `n` of them from `s` gives, and the bytes read.
pub open spec fn read_values<T: Blittable>(s: Seq<u8>, n: nat) -> (Seq<T>, nat)
    decreases n,
{
    if n == 0 {
        (Seq::empty(), 0)
    } else {
        let (prev, k) = read_values::<T>(s, (n - 1) as nat);
        let (v, w) = read_fixed::<T>(skip(s, k));
        (prev.push(v), k + w)
    }
}

/// The state that a delta acts on.
pub struct DeltaState<T> {
    pub values: Seq<T>,
    pub ahead: nat,
    pub changes: Seq<Change<T>>,
    pub events: Seq<ListEvent<T>>,
    /// Some change was applied, which marks the list dirty.
    pub dirtied: bool,
}

/// One change of a delta, read from `s`, applied to `st`: the state after
/// it, the bytes read, and whether its index was in range (an applied set or
/// removal needs an index below the length, an insertion one up to it). An
/// unknown operation number is skipped. A change that the values received
/// already hold only counts down the changes ahead.
pub open spec fn apply_one<T: Blittable>(st: DeltaState<T>, s: Seq<u8>) -> (DeltaState<T>, nat, bool) {
    let (op, k0) = read_fixed::<u8>(s);
    match Operation::spec_from_u8(op) {
        None => (st, k0, true),
        Some(operation) => {
            let apply = st.ahead == 0;
            let rest = skip(s, k0);
            let zero = T::spec_zero();
            let counted = DeltaState { ahead: if apply { st.ahead } else { (st.ahead - 1) as nat }, ..st };
            match operation {
                Operation::OpAdd => {
                    let (nv, k1) = read_fixed::<T>(rest);
                    let index = st.values.len() as usize;
                    if apply {
                        (
                            DeltaState {
                                values: st.values.push(nv),
                                changes: st.changes.push(Change { operation, index, value: nv }),
                                events: st.events.push(
                                    ListEvent { operation, index, old_value: zero, new_value: nv },
                                ),
                                dirtied: true,
                                ..st
                            },
                            k0 + k1,
                            true,
                        )
                    } else {
                        (counted, k0 + k1, true)
                    }
                },
                Operation::OpSet | Operation::OpInsert => {
                    let (i, k1) = read_fixed::<u32>(rest);
                    let (nv, k2) = read_fixed::<T>(skip(rest, k1));
                    let index = i as usize;
                    if apply {
                        (
                            DeltaState {
                                values: if operation == Operation::OpSet {
                                    st.values.update(index as int, nv)
                                } else {
                                    st.values.insert(index as int, nv)
                                },
                                changes: st.changes.push(Change { operation, index, value: nv }),
                                events: st.events.push(
                                    ListEvent { operation, index, old_value: zero, new_value: nv },
                                ),
                                dirtied: true,
                                ..st
                            },
                            k0 + k1 + k2,
                            if operation == Operation::OpSet {
                                index < st.values.len()
                            } else {
                                index <= st.values.len()
                            },
                        )
                    } else {
                        (counted, k0 + k1 + k2, true)
                    }
                },
                Operation::OpRemoveAt => {
                    let (i, k1) = read_fixed::<u32>(rest);
                    let index = i as usize;
                    if apply {
                        (
                            DeltaState {
                                values: st.values.remove(index as int),
                                changes: st.changes.push(Change { operation, index, value: zero }),
                                events: st.events.push(
                                    ListEvent {
                                        operation,
                                        index,
                                        old_value: st.values[index as int],
                                        new_value: zero,
                                    },
                                ),
                                dirtied: true,
                                ..st
                            },
                            k0 + k1,
                            index < st.values.len(),
                        )
                    } else {
                        (counted, k0 + k1, true)
                    }
                },
                Operation::OpClear => {
                    if apply {
                        (
                            DeltaState {
                                values: Seq::empty(),
                                changes: st.changes.push(Change { operation, index: 0, value: zero }),
                                events: st.events.push(
                                    ListEvent { operation, index: 0, old_value: zero, new_value: zero },
                                ),
                                dirtied: true,
                                ..st
                            },
                            k0,
                            true,
                        )
                    } else {
                        (counted, k0, true)
                    }
                },
            }
        },
    }
}

/// The first `n` changes of a delta, read from `s`, applied to `st` in turn:
/// the state after them, the bytes read, and whether every index was in
/// range.
pub open spec fn apply_changes<T: Blittable>(st: DeltaState<T>, s: Seq<u8>, n: nat) -> (DeltaState<T>, nat, bool)
    decreases n,
{
    if n == 0 {
        (st, 0, true)
    } else {
        let (prev, k, ok) = apply_changes(st, s, (n - 1) as nat);
        let (next, w, ok1) = apply_one(prev, skip(s, k));
        (next, k + w, ok && ok1)
    }
}

/// What one change of a delta, read from `s`, does to a list of `len`
/// values with `ahead` changes ahead: the length after it, the changes ahead
/// after it, the bytes read, and whether its index was in range.
pub open spec fn shape_one<T: Blittable>(len: nat, ahead: nat, s: Seq<u8>) -> (nat, nat, nat, bool) {
    let (op, k0) = read_fixed::<u8>(s);
    match Operation::spec_from_u8(op) {
        None => (len, ahead, k0, true),
        Some(operation) => {
            let apply = ahead == 0;
            let na: nat = if apply { ahead } else { (ahead - 1) as nat };
            let rest = skip(s, k0);
            match operation {
                Operation::OpAdd => {
                    let k1 = read_fixed::<T>(rest).1;
                    (if apply { len + 1 } else { len }, na, k0 + k1, true)
                },
                Operation::OpSet | Operation::OpInsert => {
                    let (i, k1) = read_fixed::<u32>(rest);
                    let k2 = read_fixed::<T>(skip(rest, k1)).1;
                    let index = i as usize;
                    if apply {
                        if operation == Operation::OpSet {
                            (len, na, k0 + k1 + k2, index < len)
                        } else {
                            (len + 1, na, k0 + k1 + k2, index <= len)
                        }
                    } else {
                        (len, na, k0 + k1 + k2, true)
                    }
                },
                Operation::OpRemoveAt => {
                    let (i, k1) = read_fixed::<u32>(rest);
                    let index = i as usize;
                    if apply {
                        ((len - 1) as nat, na, k0 + k1, index < len)
                    } else {
                        (len, na, k0 + k1, true)
                    }
                },
                Operation::OpClear => (if apply { 0 } else { len }, na, k0, true),
            }
        },
    }
}

/// The first `n` changes of a delta, read from `s`, in terms of the length
/// and the changes ahead alone (see `shape_one`).
pub open spec fn shape_changes<T: Blittable>(len: nat, ahead: nat, s: Seq<u8>, n: nat) -> (nat, nat, nat, bool)
    decreases n,
{
    if n == 0 {
        (len, ahead, 0, true)
    } else {
        let (l, a, k, ok) = shape_changes::<T>(len, ahead, s, (n - 1) as nat);
        let (l2, a2, w, ok1) = shape_one::<T>(l, a, skip(s, k));
        (l2, a2, k + w, ok && ok1)
    }
}

proof fn lemma_apply_one_shape<T: Blittable>(st: DeltaState<T>, s: Seq<u8>)
    ensures
        ({
            let (st2, k, ok) = apply_one(st, s);
            let (l, a, k2, ok2) = shape_one::<T>(st.values.len(), st.ahead, s);
            &&& k == k2
            &&& ok == ok2
            &&& ok ==> st2.values.len() == l && st2.ahead == a
        }),
{
}

proof fn lemma_apply_changes_shape<T: Blittable>(st: DeltaState<T>, s: Seq<u8>, n: nat)
    ensures
        ({
            let (st2, k, ok) = apply_changes(st, s, n);
            let (l, a, k2, ok2) = shape_changes::<T>(st.values.len(), st.ahead, s, n);
            &&& k == k2
            &&& ok == ok2
            &&& ok ==> st2.values.len() == l && st2.ahead == a
        }),
    decreases n,
{
    if n > 0 {
        lemma_apply_changes_shape(st, s, (n - 1) as nat);
        let (prev, k, ok) = apply_changes(st, s, (n - 1) as nat);
        lemma_apply_one_shape(prev, skip(s, k));
    }
}

proof fn lemma_shape_fails_on<T: Blittable>(len: nat, ahead: nat, s: Seq<u8>, n: nat, m: nat)
    requires
        n <= m,
        !shape_changes::<T>(len, ahead, s, n).3,
    ensures
        !shape_changes::<T>(len, ahead, s, m).3,
    decreases m - n,
{
    if n < m {
        lemma_shape_fails_on::<T>(len, ahead, s, n, (m - 1) as nat);
    }
}

/// `owner` with the dirty bit of synchronised object `index` set when
/// `dirtied`.
pub open spec fn dirtied_owner(owner: NetworkBehaviour, index: u8, dirtied: bool) -> NetworkBehaviour {
    if dirtied {
        NetworkBehaviour {
            sync_object_dirty_bits: owner.sync_object_dirty_bits | (1u64 << index),
            ..owner
        }
    } else {
        owner
    }
}

proof fn lemma_or_idempotent(b: u64, m: u64)
    ensures
        (b | m) | m == b | m,
{
    assert((b | m) | m == b | m) by (bit_vector);
}

proof fn lemma_values_bytes_len<T: Blittable>(vs: Seq<T>)
    ensures
        values_bytes(vs).len() == vs.len() * T::byte_size(),
    decreases vs.len(),
{
    if vs.len() > 0 {
        lemma_values_bytes_len(vs.drop_last());
        T::lemma_image(vs.last());
        assert((vs.len() - 1) * T::byte_size() + T::byte_size() == vs.len() * T::byte_size()) by (nonlinear_arith);
    }
}

proof fn lemma_change_bytes_len<T: Blittable>(c: Change<T>)
    ensures
        change_bytes(c).len() <= 13,
{
    T::lemma_image(c.value);
    <u32 as Blittable>::lemma_image(c.index as u32);
}

proof fn lemma_changes_bytes_len<T: Blittable>(cs: Seq<Change<T>>)
    ensures
        changes_bytes(cs).len() <= 13 * cs.len(),
    decreases cs.len(),
{
    if cs.len() > 0 {
        lemma_changes_bytes_len(cs.drop_last());
        lemma_change_bytes_len(cs.last());
    }
}

proof fn lemma_read_values_len<T: Blittable>(s: Seq<u8>, n: nat)
    ensures
        read_values::<T>(s, n).1 <= s.len(),
        read_values::<T>(s, n).0.len() == n,
    decreases n,
{
    if n > 0 {
        lemma_read_values_len::<T>(s, (n - 1) as nat);
    }
}

proof fn lemma_apply_ok_prefix<T: Blittable>(st: DeltaState<T>, s: Seq<u8>, n: nat, m: nat)
    requires
        m <= n,
        apply_changes(st, s, n).2,
    ensures
        apply_changes(st, s, m).2,
    decreases n,
{
    if m < n {
        lemma_apply_ok_prefix(st, s, (n - 1) as nat, m);
    }
}

/// `values` after change `c`.
pub open spec fn replay_change<T>(values: Seq<T>, c: Change<T>) -> Seq<T> {
    match c.operation {
        Operation::OpAdd => values.push(c.value),
        Operation::OpSet => values.update(c.index as int, c.value),
        Operation::OpInsert => values.insert(c.index as int, c.value),
        Operation::OpRemoveAt => values.remove(c.index as int),
        Operation::OpClear => Seq::empty(),
    }
}

/// `values` after the changes `cs`, in order.
pub open spec fn replay<T>(values: Seq<T>, cs: Seq<Change<T>>) -> Seq<T>
    decreases cs.len(),
{
    if cs.len() == 0 {
        values
    } else {
        replay_change(replay(values, cs.drop_last()), cs.last())
    }
}

/// Change `c` can be made to `values`: its index fits the wire and, for a
/// set or a removal, names a value, for an insertion a place.
pub open spec fn change_fits<T>(values: Seq<T>, c: Change<T>) -> bool {
    &&& c.index <= u32::MAX
    &&& match c.operation {
        Operation::OpSet | Operation::OpRemoveAt => c.index < values.len(),
        Operation::OpInsert => c.index <= values.len(),
        _ => true,
    }
}

/// Each of the changes `cs` can be made, in order, from `values`.
pub open spec fn changes_fit<T>(values: Seq<T>, cs: Seq<Change<T>>) -> bool
    decreases cs.len(),
{
    cs.len() == 0 || (changes_fit(values, cs.drop_last()) && change_fits(
        replay(values, cs.drop_last()),
        cs.last(),
    ))
}

/// The changes that adding, or inserting, `values` one after the other
/// records when the first goes to index `start`.
pub open spec fn range_changes<T>(operation: Operation, start: int, values: Seq<T>) -> Seq<Change<T>> {
    Seq::new(values.len(), |i: int| Change { operation, index: (start + i) as usize, value: values[i] })
}

/// The events that adding, or inserting, `values` one after the other
/// reports when the first goes to index `start`.
pub open spec fn range_events<T: Blittable>(operation: Operation, start: int, values: Seq<T>) -> Seq<ListEvent<T>> {
    Seq::new(
        values.len(),
        |i: int| ListEvent { operation, index: (start + i) as usize, old_value: T::spec_zero(), new_value: values[i] },
    )
}

/// A synchronised list of values.
pub struct SyncList<T> {
    /// The list's index among its component's synchronised objects.
    index: u8,
    value: Vec<T>,
    changes: Vec<Change<T>>,
    change_ahead: usize,
    events: Vec<ListEvent<T>>,
}

impl<T: Blittable + Copy> View for SyncList<T> {
    type V = Seq<T>;

    /// The values.
    closed spec fn view(&self) -> Seq<T> {
        self.value@
    }
}

/// Whether two values are equal, by their images.
pub fn same_value<T: Blittable + Copy>(a: &T, b: &T) -> (r: bool)
    ensures
        r == (*a == *b),
{
    let x = a.to_le();
    let y = b.to_le();
    proof {
        T::lemma_image(*a);
        T::lemma_image(*b);
    }
    let mut i: usize = 0;
    while i < x.len()
        invariant
            x@ == a.spec_to_bytes(),
            y@ == b.spec_to_bytes(),
            x@.len() == y@.len(),
            i <= x@.len(),
            forall|k: int| 0 <= k < i ==> x@[k] == y@[k],
        decreases x.len() - i,
    {
        if x[i] != y[i] {
            return false;
        }
        i = i + 1;
    }
    assert(x@ =~= y@);
    true
}

impl<T: Blittable + Copy> SyncList<T> {
    /// The list's index among its component's synchronised objects.
    pub closed spec fn slot(&self) -> u8 {
        self.index
    }

    pub fn index(&self) -> (r: u8)
        ensures
            r == self.slot(),
    {
        self.index
    }

    pub fn set_index(&mut self, index: u8)
        ensures
            final(self).slot() == index,
            final(self)@ == old(self)@,
            final(self).changes() == old(self).changes(),
            final(self).change_ahead() == old(self).change_ahead(),
            final(self).events() == old(self).events(),
    {
        self.index = index;
    }

    /// The recorded changes, oldest first.
    pub closed spec fn changes(&self) -> Seq<Change<T>> {
        self.changes@
    }

    /// How many received changes are already part of the received values.
    pub closed spec fn change_ahead(&self) -> nat {
        self.change_ahead as nat
    }

    /// The changes not yet reported to the callbacks, oldest first.
    pub closed spec fn events(&self) -> Seq<ListEvent<T>> {
        self.events@
    }

    pub fn new() -> (r: Self)
        ensures
            r@ == Seq::<T>::empty(),
            r.changes() == Seq::<Change<T>>::empty(),
            r.change_ahead() == 0,
            r.events() == Seq::<ListEvent<T>>::empty(),
            r.slot() == 0,
    {
        SyncList { index: 0, value: Vec::new(), changes: Vec::new(), change_ahead: 0, events: Vec::new() }
    }

    pub fn new_with_value(value: Vec<T>) -> (r: Self)
        ensures
            r@ == value@,
            r.changes() == Seq::<Change<T>>::empty(),
            r.change_ahead() == 0,
            r.events() == Seq::<ListEvent<T>>::empty(),
            r.slot() == 0,
    {
        SyncList { index: 0, value, changes: Vec::new(), change_ahead: 0, events: Vec::new() }
    }

    pub fn count(&self) -> (r: usize)
        ensures
            r == self@.len(),
    {
        self.value.len()
    }

    /// The value at `i`.
    pub fn get(&self, i: usize) -> (r: T)
        requires
            i < self@.len(),
        ensures
            r == self@[i as int],
    {
        self.value[i]
    }

    pub fn clear_changes(&mut self)
        ensures
            final(self)@ == old(self)@,
            final(self).changes() == Seq::<Change<T>>::empty(),
            final(self).change_ahead() == old(self).change_ahead(),
            final(self).events() == old(self).events(),
            final(self).slot() == old(self).slot(),
            final(self).replays_from(final(self)@),
    {
        self.changes.clear();
    }

    /// Hands out the changes not yet reported, and forgets them.
    pub fn take_events(&mut self) -> (r: Vec<ListEvent<T>>)
        ensures
            r@ == old(self).events(),
            final(self).events() == Seq::<ListEvent<T>>::empty(),
            final(self)@ == old(self)@,
            final(self).changes() == old(self).changes(),
            final(self).change_ahead() == old(self).change_ahead(),
            final(self).slot() == old(self).slot(),
    {
        let mut events = Vec::new();
        std::mem::swap(&mut events, &mut self.events);
        events
    }

    /// Records a change: it joins the changes to send, marks the list dirty
    /// in its component, and is reported to the callbacks.
    fn add_operation(&mut self, operation: Operation, item_index: usize, ov: T, nv: T, owner: &mut NetworkBehaviour)
        requires
            old(self).slot() < 64,
        ensures
            final(self)@ == old(self)@,
            final(self).changes() == old(self).changes().push(
                Change { operation, index: item_index, value: nv },
            ),
            final(self).events() == old(self).events().push(
                ListEvent { operation, index: item_index, old_value: ov, new_value: nv },
            ),
            final(self).change_ahead() == old(self).change_ahead(),
            final(self).slot() == old(self).slot(),
            *final(owner) == (NetworkBehaviour {
                sync_object_dirty_bits: old(owner).sync_object_dirty_bits | (1u64 << old(self).slot()),
                ..*old(owner)
            }),
    {
        self.changes.push(Change { operation, index: item_index, value: nv });
        owner.set_sync_object_dirty(self.index);
        self.events.push(ListEvent { operation, index: item_index, old_value: ov, new_value: nv });
    }

    /// Appends a value.
    pub fn add(&mut self, value: T, owner: &mut NetworkBehaviour)
        requires
            old(self).slot() < 64,
        ensures
            final(self)@ == old(self)@.push(value),
            final(self).changes() == old(self).changes().push(
                Change { operation: Operation::OpAdd, index: old(self)@.len() as usize, value },
            ),
            final(self).events() == old(self).events().push(
                ListEvent {
                    operation: Operation::OpAdd,
                    index: old(self)@.len() as usize,
                    old_value: T::spec_zero(),
                    new_value: value,
                },
            ),
            final(self).change_ahead() == old(self).change_ahead(),
            final(self).slot() == old(self).slot(),
            *final(owner) == (NetworkBehaviour {
                sync_object_dirty_bits: old(owner).sync_object_dirty_bits | (1u64 << old(self).slot()),
                ..*old(owner)
            }),
            forall|base: Seq<T>| #[trigger] old(self).replays_from(base) && old(self)@.len() < u32::MAX
                ==> final(self).replays_from(base),
    {
        let n = self.value.len();
        self.add_operation(Operation::OpAdd, n, T::zero(), value, owner);
        self.value.push(value);
        proof {
            assert forall|base: Seq<T>| #[trigger] old(self).replays_from(base) && old(self)@.len() < u32::MAX
                implies self.replays_from(base) by {
                assert(self.changes().drop_last() =~= old(self).changes());
            }
        }
    }

    /// Inserts a value at `index`.
    pub fn insert(&mut self, index: usize, value: T, owner: &mut NetworkBehaviour)
        requires
            old(self).slot() < 64,
            index <= old(self)@.len(),
        ensures
            final(self)@ == old(self)@.insert(index as int, value),
            final(self).changes() == old(self).changes().push(
                Change { operation: Operation::OpInsert, index, value },
            ),
            final(self).events() == old(self).events().push(
                ListEvent {
                    operation: Operation::OpInsert,
                    index,
                    old_value: T::spec_zero(),
                    new_value: value,
                },
            ),
            final(self).change_ahead() == old(self).change_ahead(),
            final(self).slot() == old(self).slot(),
            *final(owner) == (NetworkBehaviour {
                sync_object_dirty_bits: old(owner).sync_object_dirty_bits | (1u64 << old(self).slot()),
                ..*old(owner)
            }),
            forall|base: Seq<T>| #[trigger] old(self).replays_from(base) && old(self)@.len() <= u32::MAX
                ==> final(self).replays_from(base),
    {
        self.add_operation(Operation::OpInsert, index, T::zero(), value, owner);
        self.value.insert(index, value);
        proof {
            assert forall|base: Seq<T>| #[trigger] old(self).replays_from(base) && old(self)@.len() <= u32::MAX
                implies self.replays_from(base) by {
                assert(self.changes().drop_last() =~= old(self).changes());
            }
        }
    }

    /// Appends the values one after the other.
    pub fn add_range(&mut self, values: Vec<T>, owner: &mut NetworkBehaviour)
        requires
            old(self).slot() < 64,
        ensures
            final(self)@ == old(self)@ + values@,
            final(self).changes() == old(self).changes() + range_changes(Operation::OpAdd, old(self)@.len() as int, values@),
            final(self).events() == old(self).events() + range_events(Operation::OpAdd, old(self)@.len() as int, values@),
            final(self).change_ahead() == old(self).change_ahead(),
            final(self).slot() == old(self).slot(),
            values@.len() > 0 ==> *final(owner) == (NetworkBehaviour {
                sync_object_dirty_bits: old(owner).sync_object_dirty_bits | (1u64 << old(self).slot()),
                ..*old(owner)
            }),
            values@.len() == 0 ==> *final(owner) == *old(owner),
            forall|base: Seq<T>| #[trigger] old(self).replays_from(base) && old(self)@.len() + values@.len() <= u32::MAX
                ==> final(self).replays_from(base),
    {
        let n = values.len();
        let mut i: usize = 0;
        while i < n
            invariant
                n == values@.len(),
                i <= n,
                self.slot() == old(self).slot(),
                self.slot() < 64,
                self@ == old(self)@ + values@.subrange(0, i as int),
                self.changes() == old(self).changes() + range_changes(Operation::OpAdd, old(self)@.len() as int, values@.subrange(0, i as int)),
                self.events() == old(self).events() + range_events(Operation::OpAdd, old(self)@.len() as int, values@.subrange(0, i as int)),
                self.change_ahead() == old(self).change_ahead(),
                i > 0 ==> *owner == (NetworkBehaviour {
                    sync_object_dirty_bits: old(owner).sync_object_dirty_bits | (1u64 << old(self).slot()),
                    ..*old(owner)
                }),
                forall|base: Seq<T>| #[trigger] old(self).replays_from(base) && old(self)@.len() + values@.len() <= u32::MAX
                    ==> self.replays_from(base),
                i == 0 ==> *owner == *old(owner),
            decreases n - i,
        {
            let v = values[i];
            let ghost prev_bits = owner.sync_object_dirty_bits;
            self.add(v, owner);
            proof {
                if i > 0 {
                    lemma_or_idempotent(old(owner).sync_object_dirty_bits, 1u64 << old(self).slot());
                }
                let vs = values@.subrange(0, i as int);
                let vs1 = values@.subrange(0, i + 1);
                assert(vs1 =~= vs.push(v));
                assert(range_changes(Operation::OpAdd, old(self)@.len() as int, vs1) =~= range_changes(
                    Operation::OpAdd,
                    old(self)@.len() as int,
                    vs,
                ).push(Change { operation: Operation::OpAdd, index: (old(self)@.len() + i) as usize, value: v }));
                assert(range_events(Operation::OpAdd, old(self)@.len() as int, vs1) =~= range_events(
                    Operation::OpAdd,
                    old(self)@.len() as int,
                    vs,
                ).push(ListEvent { operation: Operation::OpAdd, index: (old(self)@.len() + i) as usize, old_value: T::spec_zero(), new_value: v }));
            }
            i = i + 1;
        }
        assert(values@.subrange(0, n as int) =~= values@);
    }

    /// Inserts the values one after the other, the first at `index`.
    pub fn insert_range(&mut self, index: usize, values: Vec<T>, owner: &mut NetworkBehaviour)
        requires
            old(self).slot() < 64,
            index <= old(self)@.len(),
        ensures
            final(self)@ == old(self)@.subrange(0, index as int) + values@ + old(self)@.subrange(index as int, old(self)@.len() as int),
            final(self).changes() == old(self).changes() + range_changes(Operation::OpInsert, index as int, values@),
            final(self).events() == old(self).events() + range_events(Operation::OpInsert, index as int, values@),
            final(self).change_ahead() == old(self).change_ahead(),
            final(self).slot() == old(self).slot(),
            values@.len() > 0 ==> *final(owner) == (NetworkBehaviour {
                sync_object_dirty_bits: old(owner).sync_object_dirty_bits | (1u64 << old(self).slot()),
                ..*old(owner)
            }),
            values@.len() == 0 ==> *final(owner) == *old(owner),
            forall|base: Seq<T>| #[trigger] old(self).replays_from(base) && old(self)@.len() + values@.len() <= u32::MAX
                ==> final(self).replays_from(base),
    {
        let ghost before = old(self)@;
        let n = values.len();
        let mut i: usize = 0;
        let mut at: usize = index;
        while i < n
            invariant
                n == values@.len(),
                i <= n,
                at == index + i,
                at <= self@.len(),
                before == old(self)@,
                index <= before.len(),
                self.slot() == old(self).slot(),
                self.slot() < 64,
                self@ == before.subrange(0, index as int) + values@.subrange(0, i as int) + before.subrange(index as int, before.len() as int),
                self.changes() == old(self).changes() + range_changes(Operation::OpInsert, index as int, values@.subrange(0, i as int)),
                self.events() == old(self).events() + range_events(Operation::OpInsert, index as int, values@.subrange(0, i as int)),
                self.change_ahead() == old(self).change_ahead(),
                i > 0 ==> *owner == (NetworkBehaviour {
                    sync_object_dirty_bits: old(owner).sync_object_dirty_bits | (1u64 << old(self).slot()),
                    ..*old(owner)
                }),
                forall|base: Seq<T>| #[trigger] old(self).replays_from(base) && old(self)@.len() + values@.len() <= u32::MAX
                    ==> self.replays_from(base),
                i == 0 ==> *owner == *old(owner),
            decreases n - i,
        {
            let v = values[i];
            let ghost cur = self@;
            self.insert(at, v, owner);
            proof {
                if i > 0 {
                    lemma_or_idempotent(old(owner).sync_object_dirty_bits, 1u64 << old(self).slot());
                }
                let vs = values@.subrange(0, i as int);
                let vs1 = values@.subrange(0, i + 1);
                assert(vs1 =~= vs.push(v));
                let a = before.subrange(0, index as int);
                let b = before.subrange(index as int, before.len() as int);
                let goal = a + vs1 + b;
                assert(cur == a + vs + b);
                assert(self@ == cur.insert(at as int, v));
                assert(self@.len() == goal.len());
                assert(a.len() == index);
                assert(vs1.len() == i + 1);
                assert(vs.len() == i);
                assert((a + vs1).len() == index + i + 1);
                assert forall|k: int| 0 <= k < goal.len() implies #[trigger] self@[k] == goal[k] by {
                    if k < index {
                        assert(self@[k] == cur[k]);
                        assert((a + vs1)[k] == a[k]);
                        assert((a + vs)[k] == a[k]);
                    } else if k < at {
                        assert(self@[k] == cur[k]);
                        assert((a + vs1)[k] == vs1[k - index]);
                        assert((a + vs)[k] == vs[k - index]);
                    } else if k == at {
                        assert((a + vs1)[k] == vs1[i as int]);
                    } else {
                        assert(self@[k] == cur[k - 1]);
                        assert(goal[k] == b[k - index - i - 1]);
                        assert(cur[k - 1] == b[k - 1 - index - i]);
                    }
                }
                assert(self@ =~= goal);
                assert(range_changes(Operation::OpInsert, index as int, vs1) =~= range_changes(
                    Operation::OpInsert,
                    index as int,
                    vs,
                ).push(Change { operation: Operation::OpInsert, index: at, value: v }));
                assert(range_events(Operation::OpInsert, index as int, vs1) =~= range_events(
                    Operation::OpInsert,
                    index as int,
                    vs,
                ).push(ListEvent { operation: Operation::OpInsert, index: at, old_value: T::spec_zero(), new_value: v }));
            }
            let len = self.count();
            assert(at < len);
            at = at + 1;
            i = i + 1;
        }
        assert(values@.subrange(0, n as int) =~= values@);
    }

    /// The index of the first value equal to `value`.
    pub fn index_of(&self, value: &T) -> (r: Option<usize>)
        ensures
            match r {
                Some(i) => i < self@.len() && self@[i as int] == *value && forall|k: int|
                    0 <= k < i ==> self@[k] != *value,
                None => !self@.contains(*value),
            },
    {
        let mut i: usize = 0;
        while i < self.value.len()
            invariant
                i <= self.value@.len(),
                forall|k: int| 0 <= k < i ==> self.value@[k] != *value,
            decreases self.value.len() - i,
        {
            if same_value(&self.value[i], value) {
                return Some(i);
            }
            i = i + 1;
        }
        None
    }

    /// Removes the value at `index`, if there is one.
    pub fn remove_at(&mut self, index: usize, owner: &mut NetworkBehaviour)
        requires
            old(self).slot() < 64,
        ensures
            index >= old(self)@.len() ==> *final(self) == *old(self) && *final(owner) == *old(owner),
            index < old(self)@.len() ==> {
                &&& final(self)@ == old(self)@.remove(index as int)
                &&& final(self).changes() == old(self).changes().push(
                    Change { operation: Operation::OpRemoveAt, index, value: T::spec_zero() },
                )
                &&& final(self).events() == old(self).events().push(
                    ListEvent {
                        operation: Operation::OpRemoveAt,
                        index,
                        old_value: old(self)@[index as int],
                        new_value: T::spec_zero(),
                    },
                )
                &&& final(self).change_ahead() == old(self).change_ahead()
                &&& final(self).slot() == old(self).slot()
                &&& *final(owner) == (NetworkBehaviour {
                    sync_object_dirty_bits: old(owner).sync_object_dirty_bits | (1u64
                        << old(self).slot()),
                    ..*old(owner)
                })
            },
            forall|base: Seq<T>| #[trigger] old(self).replays_from(base) && old(self)@.len() <= u32::MAX
                ==> final(self).replays_from(base),
    {
        if index < self.value.len() {
            let ov = self.value.remove(index);
            self.add_operation(Operation::OpRemoveAt, index, ov, T::zero(), owner);
        }
        proof {
            assert forall|base: Seq<T>| #[trigger] old(self).replays_from(base) && old(self)@.len() <= u32::MAX
                implies self.replays_from(base) by {
                if self.changes().len() > 0 && self.changes() != old(self).changes() {
                    assert(self.changes().drop_last() =~= old(self).changes());
                }
            }
        }
    }

    /// Removes the first value equal to `value`, if there is one.
    pub fn remove(&mut self, value: &T, owner: &mut NetworkBehaviour)
        requires
            old(self).slot() < 64,
        ensures
            !old(self)@.contains(*value) ==> *final(self) == *old(self) && *final(owner) == *old(owner),
            old(self)@.contains(*value) ==> exists|i: int|
                0 <= i < old(self)@.len() && old(self)@[i] == *value && (forall|k: int|
                    0 <= k < i ==> old(self)@[k] != *value) && final(self)@ == old(self)@.remove(i)
                    && final(self).changes() == old(self).changes().push(
                    Change {
                        operation: Operation::OpRemoveAt,
                        index: i as usize,
                        value: T::spec_zero(),
                    },
                ) && final(self).events() == old(self).events().push(
                    ListEvent {
                        operation: Operation::OpRemoveAt,
                        index: i as usize,
                        old_value: *value,
                        new_value: T::spec_zero(),
                    },
                ) && final(self).change_ahead() == old(self).change_ahead()
                    && final(self).slot() == old(self).slot() && *final(owner) == (NetworkBehaviour {
                    sync_object_dirty_bits: old(owner).sync_object_dirty_bits | (1u64
                        << old(self).slot()),
                    ..*old(owner)
                }),
            forall|base: Seq<T>| #[trigger] old(self).replays_from(base) && old(self)@.len() <= u32::MAX
                ==> final(self).replays_from(base),
    {
        match self.index_of(value) {
            Some(i) => {
                self.remove_at(i, owner);
                assert(old(self)@[i as int] == *value);
            },
            None => {},
        }
    }

    /// Removes every value.
    pub fn clear(&mut self, owner: &mut NetworkBehaviour)
        requires
            old(self).slot() < 64,
        ensures
            final(self)@ == Seq::<T>::empty(),
            final(self).changes() == old(self).changes().push(
                Change { operation: Operation::OpClear, index: 0, value: T::spec_zero() },
            ),
            final(self).events() == old(self).events().push(
                ListEvent {
                    operation: Operation::OpClear,
                    index: 0,
                    old_value: T::spec_zero(),
                    new_value: T::spec_zero(),
                },
            ),
            final(self).change_ahead() == old(self).change_ahead(),
            final(self).slot() == old(self).slot(),
            *final(owner) == (NetworkBehaviour {
                sync_object_dirty_bits: old(owner).sync_object_dirty_bits | (1u64 << old(self).slot()),
                ..*old(owner)
            }),
            forall|base: Seq<T>| #[trigger] old(self).replays_from(base) ==> final(self).replays_from(base),
    {
        self.add_operation(Operation::OpClear, 0, T::zero(), T::zero(), owner);
        self.value.clear();
        proof {
            assert forall|base: Seq<T>| #[trigger] old(self).replays_from(base) implies self.replays_from(base) by {
                if self.changes().len() > 0 && self.changes() != old(self).changes() {
                    assert(self.changes().drop_last() =~= old(self).changes());
                }
            }
        }
    }

    pub fn contains(&self, item: &T) -> (r: bool)
        ensures
            r == self@.contains(*item),
    {
        self.index_of(item).is_some()
    }

    /// The list's state as a delta acts on it.
    /// The list's values are `base` with its recorded changes made in order,
    /// each one in range.
    pub open spec fn replays_from(&self, base: Seq<T>) -> bool {
        &&& changes_fit(base, self.changes())
        &&& replay(base, self.changes()) == self@
    }

    pub open spec fn delta_state(&self, dirtied: bool) -> DeltaState<T> {
        DeltaState {
            values: self@,
            ahead: self.change_ahead(),
            changes: self.changes(),
            events: self.events(),
            dirtied,
        }
    }

    /// Writes the whole list: the number of values, the values, and the
    /// number of recorded changes, which the reader holds as ahead.
    pub fn on_serialize_all(&self, writer: &mut NetworkWriter)
        requires
            old(writer).wf(),
            old(writer).pos() + 8 + 8 * self@.len() <= usize::MAX,
        ensures
            final(writer).wf(),
            final(writer)@ == old(writer)@ + (self@.len() as u32).spec_to_bytes() + values_bytes(
                self@,
            ) + (self.changes().len() as u32).spec_to_bytes(),
    {
        proof {
            <u32 as Blittable>::lemma_image(self@.len() as u32);
        }
        writer.write_blittable::<u32>(self.value.len() as u32);
        let ghost start = writer@;
        proof {
            T::lemma_image(T::spec_zero());
        }
        let mut i: usize = 0;
        while i < self.value.len()
            invariant
                i <= self.value@.len(),
                writer.wf(),
                writer@ == start + values_bytes(self.value@.subrange(0, i as int)),
                start.len() == old(writer)@.len() + 4,
                old(writer)@.len() == old(writer).pos(),
                old(writer).pos() + 8 + 8 * self@.len() <= usize::MAX,
                1 <= T::byte_size() <= 8,
            decreases self.value.len() - i,
        {
            proof {
                lemma_values_bytes_len(self.value@.subrange(0, i as int));
                writer.lemma_view();
                assert(i * T::byte_size() <= i * 8) by (nonlinear_arith)
                    requires
                        T::byte_size() <= 8,
                ;
                T::lemma_image(self.value@[i as int]);
            }
            writer.write_blittable(self.value[i]);
            proof {
                let pre = self.value@.subrange(0, i as int);
                let post = self.value@.subrange(0, i as int + 1);
                assert(post.drop_last() =~= pre);
                assert(writer@ =~= start + values_bytes(post));
            }
            i = i + 1;
        }
        proof {
            assert(self.value@.subrange(0, self.value@.len() as int) =~= self.value@);
            lemma_values_bytes_len(self.value@);
            writer.lemma_view();
            assert(self@.len() * T::byte_size() <= self@.len() * 8) by (nonlinear_arith)
                requires
                    T::byte_size() <= 8,
            ;
            <u32 as Blittable>::lemma_image(self.changes@.len() as u32);
        }
        writer.write_blittable::<u32>(self.changes.len() as u32);
    }

    /// Writes the recorded changes: their number, then each change.
    pub fn on_serialize_delta(&self, writer: &mut NetworkWriter)
        requires
            old(writer).wf(),
            old(writer).pos() + 4 + 13 * self.changes().len() <= usize::MAX,
        ensures
            final(writer).wf(),
            final(writer)@ == old(writer)@ + (self.changes().len() as u32).spec_to_bytes()
                + changes_bytes(self.changes()),
    {
        proof {
            <u32 as Blittable>::lemma_image(self.changes@.len() as u32);
        }
        writer.write_blittable::<u32>(self.changes.len() as u32);
        let ghost start = writer@;
        let mut i: usize = 0;
        while i < self.changes.len()
            invariant
                i <= self.changes@.len(),
                writer.wf(),
                writer@ == start + changes_bytes(self.changes@.subrange(0, i as int)),
                start.len() == old(writer)@.len() + 4,
                old(writer)@.len() == old(writer).pos(),
                old(writer).pos() + 4 + 13 * self.changes@.len() <= usize::MAX,
            decreases self.changes.len() - i,
        {
            let c = self.changes[i];
            proof {
                lemma_changes_bytes_len(self.changes@.subrange(0, i as int));
                writer.lemma_view();
                T::lemma_image(c.value);
                <u32 as Blittable>::lemma_image(c.index as u32);
                <u8 as Blittable>::lemma_image(c.operation.spec_to_u8());
                crate::le_bytes::lemma_pow256_table();
                reveal_with_fuel(crate::le_bytes::le_bytes, 2);
                assert(c.operation.spec_to_u8().spec_to_bytes() =~= seq![c.operation.spec_to_u8()]);
            }
            writer.write_blittable::<u8>(c.operation.to_u8());
            match c.operation {
                Operation::OpAdd => {
                    writer.write_blittable(c.value);
                },
                Operation::OpSet | Operation::OpInsert => {
                    writer.write_blittable::<u32>(c.index as u32);
                    writer.write_blittable(c.value);
                },
                Operation::OpRemoveAt => {
                    writer.write_blittable::<u32>(c.index as u32);
                },
                Operation::OpClear => {},
            }
            proof {
                let pre = self.changes@.subrange(0, i as int);
                let post = self.changes@.subrange(0, i as int + 1);
                assert(post.drop_last() =~= pre);
                assert(writer@ =~= start + changes_bytes(post));
            }
            i = i + 1;
        }
        assert(self.changes@.subrange(0, self.changes@.len() as int) =~= self.changes@);
    }

    /// Reads a whole list written by `on_serialize_all`: the values replace
    /// the list's, the recorded changes are forgotten, and the number of
    /// changes that the values hold already is kept as ahead.
    pub fn on_deserialize_all(&mut self, reader: &mut NetworkReader)
        requires
            old(reader).wf(),
        ensures
            ({
                let s = old(reader).rest();
                let (count, k0) = read_fixed::<u32>(s);
                let (vs, k1) = read_values::<T>(skip(s, k0), count as nat);
                let (ahead, k2) = read_fixed::<u32>(skip(s, k0 + k1));
                &&& final(self)@ == vs
                &&& final(self).changes() == Seq::<Change<T>>::empty()
                &&& final(self).change_ahead() == ahead as usize as nat
                &&& NetworkReader::advanced(*old(reader), *final(reader), k0 + k1 + k2)
            }),
            final(self).events() == old(self).events(),
            final(self).slot() == old(self).slot(),
    {
        let ghost s = reader.rest();
        let count = reader.read_blittable::<u32>() as usize;
        let ghost k0 = read_fixed::<u32>(s).1;
        let ghost s1 = skip(s, k0);
        assert(reader.rest() =~= s1);
        self.value.clear();
        self.changes.clear();
        let mut i: usize = 0;
        while i < count
            invariant
                i <= count,
                reader.wf(),
                self.value@ == read_values::<T>(s1, i as nat).0,
                reader.rest() == skip(s1, read_values::<T>(s1, i as nat).1),
                reader.data() == old(reader).data(),
                reader.pos() == old(reader).pos() + k0 + read_values::<T>(s1, i as nat).1,
                self.changes@ == Seq::<Change<T>>::empty(),
                self.events@ == old(self).events@,
                self.index == old(self).index,
            decreases count - i,
        {
            let ghost before_rest = reader.rest();
            let v = reader.read_blittable::<T>();
            self.value.push(v);
            proof {
                let (prev, k) = read_values::<T>(s1, i as nat);
                let (vv, w) = read_fixed::<T>(skip(s1, k));
                lemma_read_values_len::<T>(s1, i as nat);
                assert(before_rest == skip(s1, k));
                assert(vv == v);
                assert(reader.rest() =~= before_rest.subrange(w as int, before_rest.len() as int));
                assert(skip(s1, k + w) =~= before_rest.subrange(w as int, before_rest.len() as int));
            }
            i = i + 1;
        }
        let ahead = reader.read_blittable::<u32>() as usize;
        proof {
            let (vs, k1) = read_values::<T>(s1, count as nat);
            assert(skip(s1, k1) =~= skip(s, k0 + k1));
        }
        self.change_ahead = ahead;
    }

    /// Reads and applies one change of a delta (see `apply_one`, from a
    /// state that was not dirtied); the component is marked dirty when the
    /// change applies.
    #[verifier::spinoff_prover]
    #[verifier::rlimit(40)]
    fn apply_one_change(&mut self, reader: &mut NetworkReader, owner: &mut NetworkBehaviour)
        requires
            old(reader).wf(),
            old(self).slot() < 64,
            apply_one(old(self).delta_state(false), old(reader).rest()).2,
        ensures
            ({
                let (st, n, ok) = apply_one(old(self).delta_state(false), old(reader).rest());
                &&& final(self).delta_state(st.dirtied) == st
                &&& NetworkReader::advanced(*old(reader), *final(reader), n)
                &&& *final(owner) == dirtied_owner(*old(owner), old(self).slot(), st.dirtied)
            }),
            final(self).slot() == old(self).slot(),
    {
        let ghost s = reader.rest();
        let op = reader.read_blittable::<u8>();
        let ghost k0 = read_fixed::<u8>(s).1;
        assert(reader.rest() =~= skip(s, k0));
        match Operation::from_u8(op) {
            None => {},
            Some(operation) => {
                let apply = self.change_ahead == 0;
                let ghost rest = skip(s, k0);
                match operation {
                    Operation::OpAdd => {
                        let nv = reader.read_blittable::<T>();
                        if apply {
                            let n = self.value.len();
                            self.add_operation(Operation::OpAdd, n, T::zero(), nv, owner);
                            self.value.push(nv);
                        }
                    },
                    Operation::OpSet => {
                        let index = reader.read_blittable::<u32>() as usize;
                        let ghost k1 = read_fixed::<u32>(rest).1;
                        assert(reader.rest() =~= skip(rest, k1));
                        let nv = reader.read_blittable::<T>();
                        if apply {
                            self.add_operation(Operation::OpSet, index, T::zero(), nv, owner);
                            self.value.set(index, nv);
                        }
                    },
                    Operation::OpInsert => {
                        let index = reader.read_blittable::<u32>() as usize;
                        let ghost k1 = read_fixed::<u32>(rest).1;
                        assert(reader.rest() =~= skip(rest, k1));
                        let nv = reader.read_blittable::<T>();
                        if apply {
                            self.add_operation(Operation::OpInsert, index, T::zero(), nv, owner);
                            self.value.insert(index, nv);
                        }
                    },
                    Operation::OpRemoveAt => {
                        let index = reader.read_blittable::<u32>() as usize;
                        if apply {
                            let ov = self.value.remove(index);
                            self.add_operation(Operation::OpRemoveAt, index, ov, T::zero(), owner);
                        }
                    },
                    Operation::OpClear => {
                        if apply {
                            self.add_operation(Operation::OpClear, 0, T::zero(), T::zero(), owner);
                            self.value.clear();
                        }
                    },
                }
                if !apply {
                    self.change_ahead = self.change_ahead - 1;
                }
            },
        }
    }

    /// One change of a delta, read from `r`, in terms of the length `len`
    /// and the changes ahead `ahead` (see `shape_one`).
    #[verifier::spinoff_prover]
    fn delta_step(r: &mut NetworkReader, len0: u128, ahead0: u128) -> (res: (u128, u128, bool))
        requires
            old(r).wf(),
            len0 < 0x1_0000_0000_0000_0000_0000_0000,
        ensures
            ({
                let sh = shape_one::<T>(len0 as nat, ahead0 as nat, old(r).rest());
                &&& final(r).wf()
                &&& final(r).rest() == skip(old(r).rest(), sh.2)
                &&& sh.2 <= old(r).rest().len()
                &&& res.2 == sh.3
                &&& res.2 ==> res.0 as nat == sh.0 && res.1 as nat == sh.1
                &&& res.0 <= len0 + 1
                &&& res.1 <= ahead0
            }),
    {
        let ghost t = r.rest();
        let mut len = len0;
        let mut ahead = ahead0;
        let op = r.read_blittable::<u8>();
        let ghost t1 = r.rest();
        assert(t1 =~= skip(t, read_fixed::<u8>(t).1));
        let apply = ahead == 0;
        let mut ok = true;
        match Operation::from_u8(op) {
            None => {},
            Some(operation) => {
                match operation {
                    Operation::OpAdd => {
                        let _ = r.read_blittable::<T>();
                        if apply {
                            len = len + 1;
                        }
                    },
                    Operation::OpSet => {
                        let i = r.read_blittable::<u32>();
                        let ghost t2 = r.rest();
                        assert(t2 =~= skip(t1, read_fixed::<u32>(t1).1));
                        let _ = r.read_blittable::<T>();
                        if apply {
                            ok = (i as u128) < len;
                        }
                    },
                    Operation::OpInsert => {
                        let i = r.read_blittable::<u32>();
                        let ghost t2 = r.rest();
                        assert(t2 =~= skip(t1, read_fixed::<u32>(t1).1));
                        let _ = r.read_blittable::<T>();
                        if apply {
                            ok = (i as u128) <= len;
                            len = len + 1;
                        }
                    },
                    Operation::OpRemoveAt => {
                        let i = r.read_blittable::<u32>();
                        if apply {
                            ok = (i as u128) < len;
                            if ok {
                                len = len - 1;
                            }
                        }
                    },
                    Operation::OpClear => {
                        if apply {
                            len = 0;
                        }
                    },
                }
                if !apply {
                    ahead = ahead - 1;
                }
            },
        }
        assert(r.rest() =~= skip(t, shape_one::<T>(len0 as nat, ahead0 as nat, t).2));
        (len, ahead, ok)
    }

    /// Whether every index of the delta that `reader` holds is in range for
    /// this list: the condition under which `on_deserialize_delta` may read
    /// it. The reader is left as it is.
    #[verifier::spinoff_prover]
    #[verifier::rlimit(50)]
    pub fn delta_applies(&self, reader: &NetworkReader) -> (r: bool)
        requires
            reader.wf(),
        ensures
            r == ({
                let (count, k0) = read_fixed::<u32>(reader.rest());
                apply_changes(self.delta_state(false), skip(reader.rest(), k0), count as nat).2
            }),
    {
        let mut r = NetworkReader::new(reader.to_vec());
        assert(r.rest() =~= reader.rest());
        let ghost s0 = reader.rest();
        let count = r.read_blittable::<u32>();
        let ghost k0 = read_fixed::<u32>(s0).1;
        let ghost s = skip(s0, k0);
        assert(r.rest() =~= s);
        let ghost len0 = self@.len();
        let ghost ahead0 = self.change_ahead();
        proof {
            lemma_apply_changes_shape(self.delta_state(false), s, count as nat);
        }
        let mut len: u128 = self.value.len() as u128;
        let mut ahead: u128 = self.change_ahead as u128;
        let ghost mut k: nat = 0;
        let mut j: u32 = 0;
        assert(skip(s, 0) =~= s);
        while j < count
            invariant
                j <= count,
                r.wf(),
                k <= s.len(),
                r.rest() == skip(s, k),
                shape_changes::<T>(len0, ahead0, s, j as nat) == (len as nat, ahead as nat, k, true),
                len <= len0 + j,
                len0 <= usize::MAX,
                ahead <= ahead0,
                ahead0 <= usize::MAX,
                count == read_fixed::<u32>(s0).0,
                s0 == reader.rest(),
                k0 == read_fixed::<u32>(s0).1,
                s == skip(s0, k0),
                shape_changes::<T>(len0, ahead0, s, count as nat).3 == apply_changes(
                    self.delta_state(false),
                    s,
                    count as nat,
                ).2,
                len0 == self.delta_state(false).values.len(),
                ahead0 == self.delta_state(false).ahead,
            decreases count - j,
        {
            let ghost t = r.rest();
            let ghost gl = len as nat;
            let ghost ga = ahead as nat;
            let (l2, a2, ok) = Self::delta_step(&mut r, len, ahead);
            len = l2;
            ahead = a2;
            let ghost sh = shape_one::<T>(gl, ga, t);
            proof {
                assert(r.rest() =~= skip(t, sh.2));
                assert(skip(t, sh.2) =~= skip(s, k + sh.2));
                assert(ok == sh.3);
                assert(ok ==> len as nat == sh.0 && ahead as nat == sh.1);
            }
            if !ok {
                proof {
                    assert(shape_changes::<T>(len0, ahead0, s, (j + 1) as nat).3 == sh.3);
                    lemma_shape_fails_on::<T>(len0, ahead0, s, (j + 1) as nat, count as nat);
                    assert(!apply_changes(self.delta_state(false), s, count as nat).2);
                    assert(s == skip(reader.rest(), read_fixed::<u32>(reader.rest()).1));
                }
                return false;
            }
            proof {
                k = k + sh.2;
            }
            j = j + 1;
        }
        true
    }

    /// Reads a delta written by `on_serialize_delta` and applies its changes
    /// in turn (see `apply_changes`); the component is marked dirty when some
    /// change applies. Every applied index must be in range.
    pub fn on_deserialize_delta(&mut self, reader: &mut NetworkReader, owner: &mut NetworkBehaviour)
        requires
            old(reader).wf(),
            old(self).slot() < 64,
            ({
                let (count, k0) = read_fixed::<u32>(old(reader).rest());
                apply_changes(old(self).delta_state(false), skip(old(reader).rest(), k0), count as nat).2
            }),
        ensures
            ({
                let (count, k0) = read_fixed::<u32>(old(reader).rest());
                let (st, n, ok) = apply_changes(
                    old(self).delta_state(false),
                    skip(old(reader).rest(), k0),
                    count as nat,
                );
                &&& final(self).delta_state(st.dirtied) == st
                &&& NetworkReader::advanced(*old(reader), *final(reader), k0 + n)
                &&& *final(owner) == dirtied_owner(*old(owner), old(self).slot(), st.dirtied)
            }),
            final(self).slot() == old(self).slot(),
    {
        let ghost s = reader.rest();
        let count = reader.read_blittable::<u32>();
        let ghost k0 = read_fixed::<u32>(s).1;
        let ghost s1 = skip(s, k0);
        let ghost init = self.delta_state(false);
        assert(reader.rest() =~= s1);
        let mut i: u32 = 0;
        while i < count
            invariant
                i <= count,
                count == read_fixed::<u32>(s).0,
                apply_changes(init, s1, count as nat).2,
                reader.wf(),
                self.index == old(self).index,
                self.index < 64,
                ({
                    let (st, n, ok) = apply_changes(init, s1, i as nat);
                    &&& self.delta_state(st.dirtied) == st
                    &&& reader.rest() == skip(s1, n)
                    &&& n <= s1.len()
                    &&& reader.data() == old(reader).data()
                    &&& reader.pos() == old(reader).pos() + k0 + n
                    &&& *owner == dirtied_owner(*old(owner), old(self).index, st.dirtied)
                }),
            decreases count - i,
        {
            proof {
                lemma_apply_ok_prefix(init, s1, count as nat, i as nat + 1);
            }
            let ghost before = self.delta_state(false);
            let ghost before_owner = *owner;
            let ghost (st_i, n_i, ok_i) = apply_changes(init, s1, i as nat);
            self.apply_one_change(reader, owner);
            proof {
                let (r, w, ok1) = apply_one(before, skip(s1, n_i));
                let (r2, w2, ok2) = apply_one(st_i, skip(s1, n_i));
                assert(r2 == DeltaState { dirtied: st_i.dirtied || r.dirtied, ..r });
                lemma_or_idempotent(old(owner).sync_object_dirty_bits, 1u64 << old(self).index);
                let br = skip(s1, n_i);
                assert(w <= br.len());
                assert(reader.rest() =~= br.subrange(w as int, br.len() as int));
                assert(skip(s1, n_i + w) =~= br.subrange(w as int, br.len() as int));
            }
            i = i + 1;
        }
    }

    /// Forgets the values, the changes and the changes ahead.
    pub fn reset(&mut self)
        ensures
            final(self)@ == Seq::<T>::empty(),
            final(self).changes() == Seq::<Change<T>>::empty(),
            final(self).change_ahead() == 0,
            final(self).events() == old(self).events(),
            final(self).slot() == old(self).slot(),
    {
        self.changes.clear();
        self.change_ahead = 0;
        self.value.clear();
    }
}

} // verus!
