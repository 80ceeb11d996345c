//! What a synchronised list sends is what the other side rebuilds: the
//! whole state, and the delta of recorded changes replayed on the values
//! they started from.
use crate::blittable::Blittable;
use crate::le_bytes::lemma_pow256_table;
use crate::message::{read_fixed, skip};
use crate::sync_list::{
    apply_changes, apply_one, change_bytes, change_fits, changes_bytes, changes_fit, read_values,
    replay, replay_change, values_bytes, Change, DeltaState, Operation,
};
use crate::wire_laws::lemma_blittable_roundtrip;
use vstd::prelude::*;

verus! {

proof fn lemma_byte_image(b: u8)
    ensures
        b.spec_to_bytes() == seq![b],
{
    lemma_pow256_table();
    reveal_with_fuel(crate::le_bytes::le_bytes, 2);
    assert(b.spec_to_bytes() =~= seq![b]);
}

/// One change, written and then read by a state with no change ahead, is
/// made to its values, and exactly its bytes are read.
proof fn lemma_apply_one_written<T: Blittable>(st: DeltaState<T>, c: Change<T>, rest: Seq<u8>)
    requires
        st.ahead == 0,
        change_fits(st.values, c),
    ensures
        ({
            let (next, w, ok) = apply_one(st, change_bytes(c) + rest);
            &&& next.values == replay_change(st.values, c)
            &&& next.ahead == 0
            &&& w == change_bytes(c).len()
            &&& ok
        }),
{
    let op = c.operation.spec_to_u8();
    lemma_byte_image(op);
    c.operation.lemma_roundtrip();
    let body = change_bytes(c).subrange(1, change_bytes(c).len() as int);
    let s = change_bytes(c) + rest;
    assert(change_bytes(c) =~= op.spec_to_bytes() + body);
    assert(s =~= op.spec_to_bytes() + (body + rest));
    lemma_blittable_roundtrip::<u8>(op, body + rest);
    <u8 as Blittable>::lemma_image(op);
    assert(read_fixed::<u8>(s) == (op, 1nat));
    let after = skip(s, 1);
    assert(after =~= body + rest);
    T::lemma_image(c.value);
    match c.operation {
        Operation::OpAdd => {
            assert(body =~= c.value.spec_to_bytes());
            lemma_blittable_roundtrip::<T>(c.value, rest);
            assert(read_fixed::<T>(after) == (c.value, T::byte_size()));
        },
        Operation::OpSet | Operation::OpInsert => {
            let i = c.index as u32;
            <u32 as Blittable>::lemma_image(i);
            assert(body =~= i.spec_to_bytes() + c.value.spec_to_bytes());
            assert(after =~= i.spec_to_bytes() + (c.value.spec_to_bytes() + rest));
            lemma_blittable_roundtrip::<u32>(i, c.value.spec_to_bytes() + rest);
            assert(read_fixed::<u32>(after) == (i, 4nat));
            assert(skip(after, 4) =~= c.value.spec_to_bytes() + rest);
            lemma_blittable_roundtrip::<T>(c.value, rest);
            assert(read_fixed::<T>(skip(after, 4)) == (c.value, T::byte_size()));
            assert(i as usize == c.index);
        },
        Operation::OpRemoveAt => {
            let i = c.index as u32;
            <u32 as Blittable>::lemma_image(i);
            assert(body =~= i.spec_to_bytes());
            lemma_blittable_roundtrip::<u32>(i, rest);
            assert(read_fixed::<u32>(after) == (i, 4nat));
            assert(i as usize == c.index);
        },
        Operation::OpClear => {
            assert(body.len() == 0);
        },
    }
}

/// The changes `cs`, written and then read by a state with no change ahead,
/// are made to its values in order, and exactly their bytes are read.
proof fn lemma_apply_changes_written<T: Blittable>(st: DeltaState<T>, cs: Seq<Change<T>>, rest: Seq<u8>)
    requires
        st.ahead == 0,
        changes_fit(st.values, cs),
    ensures
        ({
            let (next, n, ok) = apply_changes(st, changes_bytes(cs) + rest, cs.len());
            &&& next.values == replay(st.values, cs)
            &&& next.ahead == 0
            &&& n == changes_bytes(cs).len()
            &&& ok
        }),
    decreases cs.len(),
{
    if cs.len() > 0 {
        let dl = cs.drop_last();
        let c = cs.last();
        let s = changes_bytes(cs) + rest;
        let rest1 = change_bytes(c) + rest;
        assert(s =~= changes_bytes(dl) + rest1);
        lemma_apply_changes_written(st, dl, rest1);
        let (prev, k, ok) = apply_changes(st, s, (cs.len() - 1) as nat);
        assert(skip(s, k) =~= rest1);
        lemma_apply_one_written(prev, c, rest);
    }
}

/// Law: the delta that a list writes (the number of its recorded changes,
/// then the changes) brings a list that holds the values those changes
/// started from, and has no change ahead, to those values with the changes
/// made; every change is in range, and the delta is read to its end.
pub proof fn lemma_delta_roundtrip<T: Blittable>(receiver: DeltaState<T>, sent: Seq<Change<T>>, rest: Seq<u8>)
    requires
        receiver.ahead == 0,
        changes_fit(receiver.values, sent),
        sent.len() <= u32::MAX,
    ensures
        ({
            let s = (sent.len() as u32).spec_to_bytes() + changes_bytes(sent) + rest;
            let (count, k0) = read_fixed::<u32>(s);
            let (st, n, ok) = apply_changes(receiver, skip(s, k0), count as nat);
            &&& count == sent.len()
            &&& ok
            &&& st.values == replay(receiver.values, sent)
            &&& k0 + n == s.len() - rest.len()
        }),
{
    let count = sent.len() as u32;
    let s = count.spec_to_bytes() + changes_bytes(sent) + rest;
    <u32 as Blittable>::lemma_image(count);
    assert(s =~= count.spec_to_bytes() + (changes_bytes(sent) + rest));
    lemma_blittable_roundtrip::<u32>(count, changes_bytes(sent) + rest);
    assert(read_fixed::<u32>(s) == (count, 4nat));
    assert(skip(s, 4) =~= changes_bytes(sent) + rest);
    lemma_apply_changes_written(receiver, sent, rest);
}

/// The values `vs`, written one after the other, are read back.
proof fn lemma_read_values_written<T: Blittable>(vs: Seq<T>, rest: Seq<u8>)
    ensures
        read_values::<T>(values_bytes(vs) + rest, vs.len()) == (vs, values_bytes(vs).len()),
    decreases vs.len(),
{
    if vs.len() > 0 {
        let dl = vs.drop_last();
        let v = vs.last();
        let rest1 = v.spec_to_bytes() + rest;
        let s = values_bytes(vs) + rest;
        assert(s =~= values_bytes(dl) + rest1);
        lemma_read_values_written(dl, rest1);
        assert(skip(s, values_bytes(dl).len()) =~= rest1);
        T::lemma_image(v);
        lemma_blittable_roundtrip::<T>(v, rest);
        assert(dl.push(v) =~= vs);
    }
}

/// Law: the whole state that a list writes (the number of values, the
/// values, and the number of its recorded changes) is read back as the same
/// values and as many changes ahead, to its end.
pub proof fn lemma_full_state_roundtrip<T: Blittable>(vs: Seq<T>, pending: nat, rest: Seq<u8>)
    requires
        vs.len() <= u32::MAX,
        pending <= u32::MAX,
    ensures
        ({
            let s = (vs.len() as u32).spec_to_bytes() + values_bytes(vs) + (pending as u32).spec_to_bytes() + rest;
            let (count, k0) = read_fixed::<u32>(s);
            let (got, k1) = read_values::<T>(skip(s, k0), count as nat);
            let (ahead, k2) = read_fixed::<u32>(skip(s, k0 + k1));
            &&& got == vs
            &&& ahead == pending
            &&& k0 + k1 + k2 == s.len() - rest.len()
        }),
{
    let count = vs.len() as u32;
    let p = pending as u32;
    let tail = p.spec_to_bytes() + rest;
    let s = count.spec_to_bytes() + values_bytes(vs) + p.spec_to_bytes() + rest;
    <u32 as Blittable>::lemma_image(count);
    <u32 as Blittable>::lemma_image(p);
    assert(s =~= count.spec_to_bytes() + (values_bytes(vs) + tail));
    lemma_blittable_roundtrip::<u32>(count, values_bytes(vs) + tail);
    assert(read_fixed::<u32>(s) == (count, 4nat));
    assert(skip(s, 4) =~= values_bytes(vs) + tail);
    lemma_read_values_written(vs, tail);
    assert(skip(s, 4 + values_bytes(vs).len()) =~= tail);
    lemma_blittable_roundtrip::<u32>(p, rest);
}

} // verus!
