//! Batches: what goes over the transport. A batch starts with the bit
//! pattern of its send time, eight bytes little-endian; then come its
//! messages, each framed by its size in the variable-length encoding.
use crate::blittable::Blittable;
use crate::compress::{compressed_u64, decompressed_len, decompressed_u64, lemma_u64_roundtrip};
use crate::le_bytes::{le_bytes, le_value};
use crate::network_reader::NetworkReader;
use crate::network_writer::NetworkWriter;
use vstd::prelude::*;

verus! {

/// Bytes of the send time at the head of a batch.
pub const TIMESTAMP_SIZE: usize = 8;

/// The frame of one message: its size, then its bytes.
pub open spec fn framed(message: Seq<u8>) -> Seq<u8> {
    compressed_u64(message.len() as u64) + message
}

/// The frames of `messages`, one after the other.
pub open spec fn frames(messages: Seq<Seq<u8>>) -> Seq<u8>
    decreases messages.len(),
{
    if messages.len() == 0 {
        Seq::empty()
    } else {
        framed(messages[0]) + frames(messages.drop_first())
    }
}

/// The messages that the frames `s` hold, read from the front until the
/// bytes run out or a frame's size exceeds what is left.
pub open spec fn split_frames(s: Seq<u8>) -> Seq<Seq<u8>>
    decreases s.len(),
{
    if s.len() == 0 {
        Seq::empty()
    } else {
        let k = decompressed_len(s);
        let size = decompressed_u64(s);
        let after = s.subrange(k as int, s.len() as int);
        if size > after.len() {
            Seq::empty()
        } else {
            proof {
                lemma_decompressed_len_pos(s);
            }
            seq![after.subrange(0, size as int)] + split_frames(after.subrange(size as int, after.len() as int))
        }
    }
}

/// Decoding a size from bytes that are not empty consumes at least one of
/// them, and no more than there are.
pub proof fn lemma_decompressed_len_pos(s: Seq<u8>)
    requires
        s.len() > 0,
    ensures
        1 <= decompressed_len(s) <= s.len(),
{
}

/// The received bytes `data` are long enough to carry a send time.
pub open spec fn carries_time(data: Seq<u8>) -> bool {
    data.len() >= TIMESTAMP_SIZE
}

/// The messages that the received batch `data` holds: none when it is too
/// short to carry a send time.
pub open spec fn batch_messages(data: Seq<u8>) -> Seq<Seq<u8>> {
    if carries_time(data) {
        split_frames(data.subrange(8, data.len() as int))
    } else {
        Seq::empty()
    }
}

/// The byte views of `ms`.
pub open spec fn byte_views(ms: Seq<Vec<u8>>) -> Seq<Seq<u8>> {
    ms.map_values(|m: Vec<u8>| m@)
}

/// A batch of the one message `message`, sent at the time whose bit
/// pattern is `time_bits`.
pub fn batch(time_bits: u64, message: &[u8]) -> (r: Vec<u8>)
    requires
        message@.len() + 17 <= usize::MAX,
    ensures
        r@ == le_bytes(time_bits as nat, 8) + framed(message@),
{
    let mut writer = NetworkWriter::new();
    writer.write_blittable::<u64>(time_bits);
    writer.write_blittable_compress::<u64>(message.len() as u64);
    writer.write_slice(message, 0, message.len());
    let r = writer.to_vec();
    assert(message@.subrange(0, message@.len() as int) =~= message@);
    assert(r@ =~= le_bytes(time_bits as nat, 8) + framed(message@));
    r
}

/// What a received batch holds: whether it is long enough to carry a send
/// time, the bit pattern of that time, and its messages (see
/// `split_frames`); no time and no message for a batch that is too short.
pub fn unbatch(data: &[u8]) -> (r: (bool, u64, Vec<Vec<u8>>))
    ensures
        r.0 == (data@.len() >= TIMESTAMP_SIZE),
        r.0 ==> r.1 == le_value(data@.subrange(0, 8)) && byte_views(r.2@) == split_frames(
            data@.subrange(8, data@.len() as int),
        ),
        !r.0 ==> r.1 == 0 && r.2@.len() == 0,
{
    let mut messages: Vec<Vec<u8>> = Vec::new();
    if data.len() < TIMESTAMP_SIZE {
        return (false, 0, messages);
    }
    let mut reader = NetworkReader::new(vstd::slice::slice_to_vec(data));
    assert(reader.rest() =~= data@);
    let time_bits = reader.read_blittable::<u64>();
    proof {
        crate::le_bytes::lemma_le_value_bound(data@.subrange(0, 8));
        crate::le_bytes::lemma_pow256_table();
        assert(time_bits == le_value(data@.subrange(0, 8)));
    }
    let ghost s0 = reader.rest();
    assert(s0 =~= data@.subrange(8, data@.len() as int));
    assert(byte_views(messages@) + split_frames(s0) =~= split_frames(s0));
    loop
        invariant_except_break
            byte_views(messages@) + split_frames(reader.rest()) == split_frames(s0),
        invariant
            reader.wf(),
        ensures
            byte_views(messages@) == split_frames(s0),
        decreases reader.rest().len(),
    {
        if reader.remaining() == 0 {
            assert(byte_views(messages@) + split_frames(reader.rest()) =~= byte_views(messages@));
            break;
        }
        let ghost s = reader.rest();
        let size = reader.read_blittable_compress::<u64>();
        proof {
            lemma_decompressed_len_pos(s);
        }
        let remaining = reader.remaining();
        if size > remaining as u64 {
            assert(split_frames(s) == Seq::<Seq<u8>>::empty());
            assert(byte_views(messages@) + Seq::<Seq<u8>>::empty() =~= byte_views(messages@));
            break;
        }
        let ghost after = reader.rest();
        let message = vstd::slice::slice_to_vec(reader.read_slice(size as usize));
        proof {
            assert(after =~= s.subrange(decompressed_len(s) as int, s.len() as int));
            assert(reader.rest() =~= after.subrange(size as int, after.len() as int));
            assert(split_frames(s) == seq![after.subrange(0, size as int)] + split_frames(reader.rest()));
        }
        let ghost prev = messages@;
        messages.push(message);
        proof {
            assert(byte_views(messages@) =~= byte_views(prev).push(message@));
            assert(byte_views(messages@) + split_frames(reader.rest()) =~= byte_views(prev) + split_frames(s));
        }
    }
    (true, time_bits, messages)
}

/// Law: the frames of any messages split back into those messages.
pub proof fn lemma_frames_roundtrip(messages: Seq<Seq<u8>>)
    requires
        forall|i: int| 0 <= i < messages.len() ==> #[trigger] messages[i].len() <= u64::MAX,
    ensures
        split_frames(frames(messages)) == messages,
    decreases messages.len(),
{
    if messages.len() > 0 {
        let m = messages[0];
        let tail = messages.drop_first();
        assert forall|i: int| 0 <= i < tail.len() implies #[trigger] tail[i].len() <= u64::MAX by {
            assert(tail[i] == messages[i + 1]);
        }
        lemma_frames_roundtrip(tail);
        let rest = m + frames(tail);
        let s = frames(messages);
        assert(s =~= compressed_u64(m.len() as u64) + rest);
        lemma_u64_roundtrip(m.len() as u64, rest);
        let k = compressed_u64(m.len() as u64).len();
        assert(s.subrange(k as int, s.len() as int) =~= rest);
        assert(rest.subrange(0, m.len() as int) =~= m);
        assert(rest.subrange(m.len() as int, rest.len() as int) =~= frames(tail));
        assert(messages =~= seq![m] + tail);
    }
}

/// Law: unbatching a batch of one message gives back its send time and the
/// message.
pub proof fn lemma_batch_roundtrip(time_bits: u64, message: Seq<u8>)
    requires
        message.len() <= u64::MAX,
    ensures
        ({
            let b = le_bytes(time_bits as nat, 8) + framed(message);
            &&& b.len() >= TIMESTAMP_SIZE
            &&& le_value(b.subrange(0, 8)) == time_bits
            &&& split_frames(b.subrange(8, b.len() as int)) == seq![message]
        }),
{
    let b = le_bytes(time_bits as nat, 8) + framed(message);
    crate::le_bytes::lemma_le_bytes_len(time_bits as nat, 8);
    crate::le_bytes::lemma_pow256_table();
    crate::le_bytes::lemma_le_roundtrip(time_bits as nat, 8);
    assert(b.subrange(0, 8) =~= le_bytes(time_bits as nat, 8));
    assert(b.subrange(8, b.len() as int) =~= framed(message));
    let ms = seq![message];
    assert(frames(ms.drop_first()) == Seq::<u8>::empty());
    assert(frames(ms) =~= framed(message));
    lemma_frames_roundtrip(ms);
}

/// The frame of `message`: its size, then its bytes.
pub fn framed_bytes(message: &[u8]) -> (r: Vec<u8>)
    requires
        message@.len() + 9 <= usize::MAX,
    ensures
        r@ == framed(message@),
{
    let mut writer = NetworkWriter::new();
    writer.write_blittable_compress::<u64>(message.len() as u64);
    writer.write_slice(message, 0, message.len());
    assert(message@.subrange(0, message@.len() as int) =~= message@);
    writer.to_vec()
}

/// The messages of `batches`, batch after batch.
pub open spec fn concat_all(batches: Seq<Seq<Seq<u8>>>) -> Seq<Seq<u8>>
    decreases batches.len(),
{
    if batches.len() == 0 {
        Seq::empty()
    } else {
        concat_all(batches.drop_last()) + batches.last()
    }
}

/// Every message of `ms` has a size that a frame can hold.
pub open spec fn frameable(ms: Seq<Seq<u8>>) -> bool {
    forall|j: int| 0 <= j < ms.len() ==> #[trigger] ms[j].len() <= u64::MAX
}

/// A batch of the messages `ms`, sent at the time whose bit pattern is
/// `time_bits`.
pub open spec fn batch_of(time_bits: u64, ms: Seq<Seq<u8>>) -> Seq<u8> {
    le_bytes(time_bits as nat, 8) + frames(ms)
}

/// Law: framing one more message appends its frame.
pub proof fn lemma_frames_push(ms: Seq<Seq<u8>>, m: Seq<u8>)
    ensures
        frames(ms.push(m)) == frames(ms) + framed(m),
    decreases ms.len(),
{
    if ms.len() == 0 {
        assert(ms.push(m).drop_first() =~= Seq::<Seq<u8>>::empty());
        assert(ms.push(m)[0] == m);
        assert(frames(Seq::<Seq<u8>>::empty()) == Seq::<u8>::empty());
        assert(frames(ms) == Seq::<u8>::empty());
        assert(frames(ms.push(m)) == framed(m) + frames(ms.push(m).drop_first()));
        assert(frames(ms.push(m)) =~= frames(ms) + framed(m));
    } else {
        lemma_frames_push(ms.drop_first(), m);
        assert(ms.push(m).drop_first() =~= ms.drop_first().push(m));
        assert(frames(ms.push(m)) =~= frames(ms) + framed(m));
    }
}

/// The messages of several batches start with those of the first batch.
pub proof fn lemma_concat_all_first(xs: Seq<Seq<Seq<u8>>>)
    requires
        xs.len() > 0,
    ensures
        concat_all(xs) == xs[0] + concat_all(xs.drop_first()),
    decreases xs.len(),
{
    if xs.len() == 1 {
        assert(xs.drop_last() =~= Seq::<Seq<Seq<u8>>>::empty());
        assert(xs.drop_first() =~= Seq::<Seq<Seq<u8>>>::empty());
        assert(concat_all(xs.drop_last()) == Seq::<Seq<u8>>::empty());
        assert(concat_all(xs.drop_first()) == Seq::<Seq<u8>>::empty());
        assert(xs.last() == xs[0]);
        assert(concat_all(xs) =~= xs[0] + concat_all(xs.drop_first()));
    } else {
        lemma_concat_all_first(xs.drop_last());
        assert(xs.drop_last().drop_first() =~= xs.drop_first().drop_last());
        assert(xs.drop_first().last() == xs.last());
        assert(concat_all(xs) =~= xs[0] + concat_all(xs.drop_first()));
    }
}

/// Collects the messages sent on one channel of one connection into
/// batches of at most `threshold` bytes, unless a single message is larger:
/// finished batches wait in a queue, oldest first, and one batch is open.
pub struct Batcher {
    threshold: usize,
    batches: Vec<Vec<u8>>,
    batch: Option<Vec<u8>>,
    /// The messages and send time of each finished batch.
    queued_messages: Ghost<Seq<Seq<Seq<u8>>>>,
    queued_times: Ghost<Seq<u64>>,
    /// The messages and send time of the open batch.
    open_messages: Ghost<Seq<Seq<u8>>>,
    open_time: Ghost<u64>,
}

impl Batcher {
    /// The size above which a batch takes no further message.
    pub closed spec fn limit(&self) -> usize {
        self.threshold
    }

    pub fn threshold(&self) -> (r: usize)
        ensures
            r == self.limit(),
    {
        self.threshold
    }

    /// The finished batches, oldest first.
    pub closed spec fn queued(&self) -> Seq<Seq<u8>> {
        byte_views(self.batches@)
    }

    /// The open batch, if any.
    pub closed spec fn open_batch(&self) -> Option<Seq<u8>> {
        match self.batch {
            Some(b) => Some(b@),
            None => None,
        }
    }

    /// The length of the open batch; zero when there is none.
    pub open spec fn open_len(&self) -> nat {
        match self.open_batch() {
            Some(b) => b.len(),
            None => 0,
        }
    }

    /// The messages added and not yet taken out in a batch, in order.
    pub closed spec fn pending(&self) -> Seq<Seq<u8>> {
        concat_all(self.queued_messages@) + if self.batch is Some {
            self.open_messages@
        } else {
            Seq::empty()
        }
    }

    /// Each batch holds the frames of its messages behind its send time.
    pub closed spec fn wf(&self) -> bool {
        &&& self.queued_messages@.len() == self.batches@.len()
        &&& self.queued_times@.len() == self.batches@.len()
        &&& forall|i: int|
            0 <= i < self.batches@.len() ==> {
                &&& (#[trigger] self.batches@[i])@ == batch_of(self.queued_times@[i], self.queued_messages@[i])
                &&& frameable(self.queued_messages@[i])
            }
        &&& self.batch is Some ==> self.batch->0@ == batch_of(self.open_time@, self.open_messages@)
            && frameable(self.open_messages@)
    }

    /// The length of the open batch; zero when there is none.
    pub fn open_size(&self) -> (r: usize)
        ensures
            r == self.open_len(),
    {
        match &self.batch {
            Some(b) => b.len(),
            None => 0,
        }
    }

    pub fn new(threshold: usize) -> (r: Self)
        ensures
            r.wf(),
            r.limit() == threshold,
            r.queued() == Seq::<Seq<u8>>::empty(),
            r.open_batch() is None,
            r.pending() == Seq::<Seq<u8>>::empty(),
    {
        let r = Batcher {
            threshold,
            batches: Vec::new(),
            batch: None,
            queued_messages: Ghost(Seq::empty()),
            queued_times: Ghost(Seq::empty()),
            open_messages: Ghost(Seq::empty()),
            open_time: Ghost(0),
        };
        assert(r.queued() =~= Seq::<Seq<u8>>::empty());
        assert(r.pending() =~= Seq::<Seq<u8>>::empty());
        r
    }

    /// Adds a message sent at the time whose bit pattern is `time_bits`:
    /// when it does not fit in the open batch within the threshold, that
    /// batch is queued; a new batch starts with the send time; the message
    /// is framed into the open batch.
    #[verifier::spinoff_prover]
    #[verifier::rlimit(40)]
    pub fn add_message(&mut self, message: &[u8], time_bits: u64)
        requires
            old(self).wf(),
            old(self).open_len() + message@.len() + 17 <= usize::MAX,
        ensures
            final(self).wf(),
            final(self).limit() == old(self).limit(),
            final(self).pending() == old(self).pending().push(message@),
            ({
                let fr = framed(message@);
                match old(self).open_batch() {
                    Some(b) => if b.len() + fr.len() > old(self).limit() {
                        &&& final(self).queued() == old(self).queued().push(b)
                        &&& final(self).open_batch() == Some(le_bytes(time_bits as nat, 8) + fr)
                    } else {
                        &&& final(self).queued() == old(self).queued()
                        &&& final(self).open_batch() == Some(b + fr)
                    },
                    None => {
                        &&& final(self).queued() == old(self).queued()
                        &&& final(self).open_batch() == Some(le_bytes(time_bits as nat, 8) + fr)
                    },
                }
            }),
    {
        let mut frame = framed_bytes(message);
        proof {
            crate::compress::lemma_compressed_len(message@.len() as u64);
            assert(frame@.len() <= message@.len() + 9);
        }
        let fits = match &self.batch {
            Some(b) => b.len() + frame.len() <= self.threshold,
            None => false,
        };
        let ghost q0 = self.batches@;
        let ghost qm0 = self.queued_messages@;
        let ghost qt0 = self.queued_times@;
        if !fits {
            match self.batch.take() {
                Some(b) => {
                    self.batches.push(b);
                    proof {
                        self.queued_messages@ = qm0.push(self.open_messages@);
                        self.queued_times@ = qt0.push(self.open_time@);
                        assert(self.queued_messages@.drop_last() =~= qm0);
                    }
                    assert(byte_views(self.batches@) =~= byte_views(q0).push(b@));
                },
                None => {},
            }
            self.batch = Some(crate::le_bytes::encode_le(time_bits, 8));
            proof {
                self.open_messages@ = Seq::empty();
                self.open_time@ = time_bits;
                assert(frames(Seq::<Seq<u8>>::empty()) == Seq::<u8>::empty());
                assert(le_bytes(time_bits as nat, 8) =~= batch_of(time_bits, Seq::empty()));
            }
        }
        let ghost q1 = self.batches@;
        let ghost om1 = self.open_messages@;
        match self.batch.take() {
            Some(mut b) => {
                proof {
                    crate::le_bytes::lemma_le_bytes_len(time_bits as nat, 8);
                }
                b.append(&mut frame);
                self.batch = Some(b);
            },
            None => {},
        }
        proof {
            self.open_messages@ = om1.push(message@);
            lemma_frames_push(om1, message@);
            assert(self.batch->0@ =~= batch_of(self.open_time@, self.open_messages@));
            assert forall|j: int| 0 <= j < self.open_messages@.len() implies #[trigger] self.open_messages@[j].len()
                <= u64::MAX by {
                if j < om1.len() {
                    assert(self.open_messages@[j] == om1[j]);
                }
            }
            assert forall|i: int| 0 <= i < self.batches@.len() implies {
                &&& (#[trigger] self.batches@[i])@ == batch_of(self.queued_times@[i], self.queued_messages@[i])
                &&& frameable(self.queued_messages@[i])
            } by {
                if i < q0.len() {
                    assert(self.batches@[i] == q0[i]);
                    assert(self.queued_messages@[i] == qm0[i]);
                    assert(self.queued_times@[i] == qt0[i]);
                }
            }
            assert(self.pending() =~= old(self).pending().push(message@));
        }
        assert(self.batches@ == q1);
    }

    /// The oldest finished batch, taken from the queue; else the open
    /// batch, which is then closed; none when there is neither. A batch
    /// that comes out holds, behind its send time, the frames of the oldest
    /// pending messages, which are then no longer pending.
    #[verifier::spinoff_prover]
    #[verifier::rlimit(40)]
    pub fn get_batch(&mut self) -> (r: Option<Vec<u8>>)
        requires
            old(self).wf(),
        ensures
            final(self).wf(),
            final(self).limit() == old(self).limit(),
            old(self).queued().len() > 0 ==> r is Some && r->0@ == old(self).queued()[0]
                && final(self).queued() == old(self).queued().drop_first() && final(self).open_batch()
                == old(self).open_batch(),
            old(self).queued().len() == 0 ==> final(self).queued() == old(self).queued()
                && final(self).open_batch() is None && match old(self).open_batch() {
                Some(b) => r is Some && r->0@ == b,
                None => r is None,
            },
            r is None ==> final(self).pending() == old(self).pending() && old(self).pending().len() == 0,
            r is Some ==> r->0@.len() >= TIMESTAMP_SIZE && exists|ms: Seq<Seq<u8>>|
                #[trigger] split_frames(r->0@.subrange(8, r->0@.len() as int)) == ms && old(self).pending()
                    == ms + final(self).pending(),
    {
        if self.batches.len() > 0 {
            return Some(self.take_queued());
        }
        let ghost om = self.open_messages@;
        let ghost ot = self.open_time@;
        let r = self.batch.take();
        proof {
            assert(self.queued_messages@.len() == 0);
            assert(self.queued_messages@ =~= Seq::<Seq<Seq<u8>>>::empty());
            assert(self.pending() =~= Seq::<Seq<u8>>::empty());
            if r is Some {
                Self::lemma_batch_messages(r->0@, ot, om);
                assert(old(self).pending() =~= om + self.pending());
            } else {
                assert(old(self).pending() =~= Seq::<Seq<u8>>::empty());
            }
        }
        r
    }

    /// The oldest finished batch, taken from the queue.
    #[verifier::spinoff_prover]
    #[verifier::rlimit(40)]
    fn take_queued(&mut self) -> (b: Vec<u8>)
        requires
            old(self).wf(),
            old(self).queued().len() > 0,
        ensures
            final(self).wf(),
            final(self).limit() == old(self).limit(),
            b@ == old(self).queued()[0],
            final(self).queued() == old(self).queued().drop_first(),
            final(self).open_batch() == old(self).open_batch(),
            b@.len() >= TIMESTAMP_SIZE,
            split_frames(b@.subrange(8, b@.len() as int)) + final(self).pending() == old(self).pending(),
    {
        let ghost q0 = self.batches@;
        let ghost qm0 = self.queued_messages@;
        let ghost qt0 = self.queued_times@;
        let b = self.batches.remove(0);
        proof {
            self.queued_messages@ = qm0.drop_first();
            self.queued_times@ = qt0.drop_first();
            assert(byte_views(self.batches@) =~= byte_views(q0).drop_first());
            assert forall|i: int| 0 <= i < self.batches@.len() implies {
                &&& (#[trigger] self.batches@[i])@ == batch_of(self.queued_times@[i], self.queued_messages@[i])
                &&& frameable(self.queued_messages@[i])
            } by {
                assert(self.batches@[i] == q0[i + 1]);
            }
            assert(b == q0[0]);
            lemma_concat_all_first(qm0);
            Self::lemma_batch_messages(b@, qt0[0], qm0[0]);
            assert(old(self).pending() =~= qm0[0] + self.pending());
        }
        b
    }

    /// A batch of messages reads back, behind its send time, as those
    /// messages.
    proof fn lemma_batch_messages(b: Seq<u8>, time_bits: u64, ms: Seq<Seq<u8>>)
        requires
            b == batch_of(time_bits, ms),
            frameable(ms),
        ensures
            b.len() >= TIMESTAMP_SIZE,
            split_frames(b.subrange(8, b.len() as int)) == ms,
    {
        crate::le_bytes::lemma_le_bytes_len(time_bits as nat, 8);
        assert(b.subrange(8, b.len() as int) =~= frames(ms));
        lemma_frames_roundtrip(ms);
    }
}

} // verus!
