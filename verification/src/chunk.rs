use vstd::prelude::*;

verus! {

/// The number of chunks of at most `max` bytes in which a payload of `len`
/// bytes is handed out: `len / max` rounded up, where the payload does not
/// fit under `max`; zero, which stands for "one chunk holds it all", where it
/// does. With `max` zero nothing can be handed out, and the number is zero.
pub open spec fn total_chunks(len: nat, max: nat) -> nat {
    if max == 0 || len < max {
        0
    } else if len % max == 0 {
        len / max
    } else {
        len / max + 1
    }
}

/// The smaller of two numbers.
pub open spec fn at_most(a: nat, b: nat) -> int {
    if a <= b {
        a as int
    } else {
        b as int
    }
}

/// The bytes of chunk number `chunk`. A payload shorter than `max` is one
/// chunk, whatever the number asked for. Otherwise the chunk is the half-open
/// slice from `chunk * max` to `(chunk + 1) * max`, clipped to the payload.
pub open spec fn chunk_of(payload: Seq<u8>, chunk: nat, max: nat) -> Seq<u8> {
    if payload.len() < max {
        payload
    } else {
        payload.subrange(
            at_most(chunk * max, payload.len()),
            at_most((chunk + 1) * max, payload.len()),
        )
    }
}

/// The number that a chunk reports as its own: the number asked for, or zero
/// where one chunk holds the whole payload.
pub open spec fn chunk_index(len: nat, chunk: usize, max: nat) -> usize {
    if len < max {
        0
    } else {
        chunk
    }
}

/// The chunks numbered `from` up to but without `to`, one after the other.
pub open spec fn chunks_joined(payload: Seq<u8>, max: nat, from: nat, to: nat) -> Seq<u8>
    decreases to,
{
    if to <= from {
        Seq::<u8>::empty()
    } else {
        chunks_joined(payload, max, from, (to - 1) as nat) + chunk_of(
            payload,
            (to - 1) as nat,
            max,
        )
    }
}

/// What a reader gets who asks for chunk 0 and then for the chunks from 1 up
/// to the total that chunk 0 reported.
pub open spec fn reassembled(payload: Seq<u8>, max: nat) -> Seq<u8> {
    chunk_of(payload, 0, max) + chunks_joined(
        payload,
        max,
        1,
        total_chunks(payload.len(), max),
    )
}

proof fn lemma_prefix(payload: Seq<u8>, max: nat, k: nat)
    requires
        0 < max <= payload.len(),
        k >= 1,
    ensures
        chunk_of(payload, 0, max) + chunks_joined(payload, max, 1, k) == payload.subrange(
            0,
            at_most(k * max, payload.len()),
        ),
    decreases k,
{
    let len = payload.len();
    if k == 1 {
        assert(chunks_joined(payload, max, 1, 1) == Seq::<u8>::empty());
        assert(0 * max == 0 && 1 * max == max) by (nonlinear_arith);
        assert(chunk_of(payload, 0, max) + Seq::<u8>::empty() =~= payload.subrange(
            0,
            at_most(k * max, len),
        ));
    } else {
        let j = (k - 1) as nat;
        lemma_prefix(payload, max, j);
        assert(k * max == j * max + max && j * max >= 0) by (nonlinear_arith)
            requires
                k == j + 1,
                max > 0,
        ;
        let a = at_most(j * max, len);
        let b = at_most(k * max, len);
        assert(chunk_of(payload, j, max) == payload.subrange(a, b));
        assert(payload.subrange(0, a) + payload.subrange(a, b) =~= payload.subrange(0, b));
        assert(chunks_joined(payload, max, 1, k) == chunks_joined(payload, max, 1, j) + chunk_of(
            payload,
            j,
            max,
        ));
        assert(chunk_of(payload, 0, max) + (chunks_joined(payload, max, 1, j) + chunk_of(
            payload,
            j,
            max,
        )) =~= (chunk_of(payload, 0, max) + chunks_joined(payload, max, 1, j)) + chunk_of(
            payload,
            j,
            max,
        ));
    }
}

/// Chunk 0 followed by the chunks from 1 up to the total it reports give the
/// payload back, byte for byte, for every positive chunk size.
pub proof fn lemma_chunks_round_trip(payload: Seq<u8>, max: nat)
    requires
        max > 0,
    ensures
        reassembled(payload, max) == payload,
{
    let len = payload.len();
    let total = total_chunks(len, max);
    if len < max {
        assert(chunks_joined(payload, max, 1, 0) == Seq::<u8>::empty());
        assert(payload + Seq::<u8>::empty() =~= payload);
    } else {
        assert(total >= 1 && total * max >= len) by (nonlinear_arith)
            requires
                0 < max <= len,
                total == if len % max == 0 {
                    len / max
                } else {
                    len / max + 1
                },
        ;
        lemma_prefix(payload, max, total);
        assert(payload.subrange(0, len as int) =~= payload);
    }
}

/// One chunk of a serialized payload, with the number of the chunk and the
/// number of chunks in all: see [`chunk_of`], [`chunk_index`] and
/// [`total_chunks`]. Nothing is kept between calls.
pub fn get_chunked_data(payload: &Vec<u8>, chunk: usize, max_bytes_per_chunk: usize) -> (r: (
    Vec<u8>,
    (usize, usize),
))
    ensures
        r.0@ == chunk_of(payload@, chunk as nat, max_bytes_per_chunk as nat),
        r.1.0 == chunk_index(payload@.len(), chunk, max_bytes_per_chunk as nat),
        r.1.1 == total_chunks(payload@.len(), max_bytes_per_chunk as nat),
{
    let len = payload.len();
    let max = max_bytes_per_chunk;
    if len < max {
        let whole = payload.clone();
        return (whole, (0, 0));
    }
    let start: usize = match chunk.checked_mul(max) {
        Some(s) => if s < len {
            s
        } else {
            len
        },
        None => len,
    };
    let end: usize = if len - start <= max {
        len
    } else {
        start + max
    };
    proof {
        assert((chunk + 1) * max == chunk * max + max) by (nonlinear_arith);
        assert(chunk * max >= 0) by (nonlinear_arith);
    }
    let mut bytes: Vec<u8> = Vec::new();
    let mut i: usize = start;
    while i < end
        invariant
            start <= i <= end <= payload@.len(),
            bytes@ == payload@.subrange(start as int, i as int),
        decreases end - i,
    {
        bytes.push(payload[i]);
        i += 1;
    }
    let total: usize = if max == 0 {
        0
    } else if len % max == 0 {
        len / max
    } else {
        assert(len / max < len) by (nonlinear_arith)
            requires
                len > 0,
                max >= 2,
        ;
        len / max + 1
    };
    (bytes, (chunk, total))
}

/// The bytes of one node's answer while its chunks come in: what has come
/// so far, the number of the chunk to ask for next, and the total that
/// chunk 0 reported.
#[derive(Clone, Debug, PartialEq, Eq)]
pub struct Reassembly {
    bytes: Vec<u8>,
    next: usize,
    total: usize,
}

impl Reassembly {
    /// The bytes that have come so far.
    pub closed spec fn bytes(&self) -> Seq<u8> {
        self.bytes@
    }

    /// The number of the chunk to ask for next.
    pub closed spec fn next(&self) -> nat {
        self.next as nat
    }

    /// The number of chunks that chunk 0 reported.
    pub closed spec fn total(&self) -> nat {
        self.total as nat
    }

    /// Whether a chunk is still to come.
    pub open spec fn unfinished(&self) -> bool {
        self.next() < self.total()
    }

    /// Starts with the answer to the call for chunk 0.
    pub fn start(first: (Vec<u8>, (usize, usize))) -> (r: Reassembly)
        ensures
            r.bytes() == first.0@,
            r.next() == 1,
            r.total() == first.1.1,
    {
        Reassembly { bytes: first.0, next: 1, total: first.1.1 }
    }

    /// The number of the chunk to ask for next, or `None` when all have come.
    pub fn wanted(&self) -> (r: Option<usize>)
        ensures
            r == if self.unfinished() {
                Some(self.next() as usize)
            } else {
                None
            },
    {
        if self.next < self.total {
            Some(self.next)
        } else {
            None
        }
    }

    /// Takes in the bytes of the chunk that was asked for. When none was
    /// asked for, nothing changes.
    pub fn accept(&mut self, chunk: Vec<u8>)
        ensures
            final(self).total() == old(self).total(),
            old(self).unfinished() ==> final(self).bytes() == old(self).bytes() + chunk@
                && final(self).next() == old(self).next() + 1,
            !old(self).unfinished() ==> final(self).bytes() == old(self).bytes()
                && final(self).next() == old(self).next(),
    {
        if self.next < self.total {
            let mut chunk = chunk;
            self.bytes.append(&mut chunk);
            self.next = self.next + 1;
        }
    }

    /// The bytes that have come.
    pub fn finish(self) -> (r: Vec<u8>)
        ensures
            r@ == self.bytes(),
    {
        self.bytes
    }
}

/// A reader is on its way through a payload that is handed out in chunks of
/// `max` bytes: it knows the total, and it holds the chunks from 0 up to the
/// one it asks for next.
pub open spec fn reads(reader: Reassembly, payload: Seq<u8>, max: nat) -> bool {
    &&& reader.total() == total_chunks(payload.len(), max)
    &&& 1 <= reader.next()
    &&& reader.next() <= reader.total() || reader.next() == 1
    &&& reader.bytes() == chunk_of(payload, 0, max) + chunks_joined(
        payload,
        max,
        1,
        reader.next(),
    )
}

/// A reader that starts with chunk 0 of a payload is on its way through
/// that payload.
pub proof fn lemma_reader_starts(reader: Reassembly, payload: Seq<u8>, max: nat)
    requires
        reader.bytes() == chunk_of(payload, 0, max),
        reader.next() == 1,
        reader.total() == total_chunks(payload.len(), max),
    ensures
        reads(reader, payload, max),
{
    assert(chunks_joined(payload, max, 1, 1) == Seq::<u8>::empty());
    assert(reader.bytes() =~= chunk_of(payload, 0, max) + Seq::<u8>::empty());
}

/// A reader that takes in the chunk it asked for, cut from the same payload
/// with the same chunk size, stays on its way through that payload.
pub proof fn lemma_reader_goes_on(
    before: Reassembly,
    after: Reassembly,
    payload: Seq<u8>,
    max: nat,
)
    requires
        reads(before, payload, max),
        before.unfinished(),
        after.total() == before.total(),
        after.bytes() == before.bytes() + chunk_of(payload, before.next(), max),
        after.next() == before.next() + 1,
    ensures
        reads(after, payload, max),
{
    let k = before.next();
    assert(chunks_joined(payload, max, 1, after.next()) == chunks_joined(payload, max, 1, k)
        + chunk_of(payload, k, max));
    assert(after.bytes() =~= chunk_of(payload, 0, max) + chunks_joined(
        payload,
        max,
        1,
        after.next(),
    ));
}

/// A reader that asks for nothing more holds the payload, byte for byte.
pub proof fn lemma_reader_ends_with_the_payload(reader: Reassembly, payload: Seq<u8>, max: nat)
    requires
        max > 0,
        reads(reader, payload, max),
        !reader.unfinished(),
    ensures
        reader.bytes() == payload,
{
    lemma_chunks_round_trip(payload, max);
    if reader.total() == 0 {
        assert(chunks_joined(payload, max, 1, 0) == Seq::<u8>::empty());
        assert(chunks_joined(payload, max, 1, 1) == Seq::<u8>::empty());
    }
}

} // verus!
