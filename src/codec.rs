use vstd::prelude::*;
use byteorder::{BigEndian, ByteOrder};

verus! {

/// Length in bytes of one sample record on the wire.
pub const RECORD_LEN: usize = 24;

/// One emitted sample. Each field holds the IEEE-754 bit pattern of a
/// double: the x and y coordinates and the colour (or auxiliary) value.
#[derive(Debug, Clone, Copy, PartialEq, Eq)]
pub struct Sample {
    pub x: u64,
    pub y: u64,
    pub aux: u64,
}

/// The eight bytes of `n`, most significant first.
pub open spec fn be_bytes(n: u64) -> Seq<u8> {
    seq![
        ((n >> 56u64) & 0xffu64) as u8,
        ((n >> 48u64) & 0xffu64) as u8,
        ((n >> 40u64) & 0xffu64) as u8,
        ((n >> 32u64) & 0xffu64) as u8,
        ((n >> 24u64) & 0xffu64) as u8,
        ((n >> 16u64) & 0xffu64) as u8,
        ((n >> 8u64) & 0xffu64) as u8,
        (n & 0xffu64) as u8,
    ]
}

/// The integer whose big-endian bytes are the first eight of `b`.
pub open spec fn be_value(b: Seq<u8>) -> u64
    recommends
        b.len() >= 8,
{
    ((b[0] as u64) << 56u64) | ((b[1] as u64) << 48u64) | ((b[2] as u64) << 40u64) | ((
    b[3] as u64) << 32u64) | ((b[4] as u64) << 24u64) | ((b[5] as u64) << 16u64) | ((
    b[6] as u64) << 8u64) | (b[7] as u64)
}

/// The wire record of a sample: x, y and aux, eight big-endian bytes each.
pub open spec fn record_of(s: Sample) -> Seq<u8> {
    be_bytes(s.x) + be_bytes(s.y) + be_bytes(s.aux)
}

/// The sample held by the record that starts at byte `at` of `b`.
pub open spec fn sample_at(b: Seq<u8>, at: int) -> Sample {
    Sample {
        x: be_value(b.subrange(at, at + 8)),
        y: be_value(b.subrange(at + 8, at + 16)),
        aux: be_value(b.subrange(at + 16, at + 24)),
    }
}

/// The samples of a byte stream read greedily, one record after another;
/// a trailing fragment shorter than a record holds no sample.
pub open spec fn samples_of(b: Seq<u8>) -> Seq<Sample> {
    Seq::new(b.len() / 24, |k: int| sample_at(b, 24 * k))
}

/// Relies on byteorder's `BigEndian::write_u64`: it writes the eight bytes
/// of `n`, most significant first, into the buffer.
#[verifier::external_body]
fn be_encode(n: u64) -> (r: [u8; 8])
    ensures
        r@ == be_bytes(n),
{
    let mut buf = [0u8; 8];
    BigEndian::write_u64(&mut buf, n);
    buf
}

/// Relies on byteorder's `BigEndian::read_u64`: it reads the first eight
/// bytes of the slice as a big-endian integer (and panics on fewer).
#[verifier::external_body]
fn be_decode(b: &[u8], at: usize) -> (r: u64)
    requires
        at + 8 <= b@.len(),
    ensures
        r == be_value(b@.subrange(at as int, at + 8)),
{
    BigEndian::read_u64(&b[at..])
}

proof fn lemma_be_value_of_bytes(n: u64)
    ensures
        be_value(be_bytes(n)) == n,
{
    let b = be_bytes(n);
    assert(((n >> 56u64) & 0xffu64) < 256) by (bit_vector);
    assert(((n >> 48u64) & 0xffu64) < 256) by (bit_vector);
    assert(((n >> 40u64) & 0xffu64) < 256) by (bit_vector);
    assert(((n >> 32u64) & 0xffu64) < 256) by (bit_vector);
    assert(((n >> 24u64) & 0xffu64) < 256) by (bit_vector);
    assert(((n >> 16u64) & 0xffu64) < 256) by (bit_vector);
    assert(((n >> 8u64) & 0xffu64) < 256) by (bit_vector);
    assert((n & 0xffu64) < 256) by (bit_vector);
    assert(((((n >> 56u64) & 0xffu64) << 56u64) | (((n >> 48u64) & 0xffu64) << 48u64) | (((n
        >> 40u64) & 0xffu64) << 40u64) | (((n >> 32u64) & 0xffu64) << 32u64) | (((n >> 24u64)
        & 0xffu64) << 24u64) | (((n >> 16u64) & 0xffu64) << 16u64) | (((n >> 8u64) & 0xffu64)
        << 8u64) | (n & 0xffu64)) == n) by (bit_vector);
}

/// Decoding the record of a sample gives back the sample, bit for bit, and
/// a stream made of that one record holds exactly that sample.
pub proof fn lemma_round_trip(s: Sample)
    ensures
        sample_at(record_of(s), 0) == s,
        samples_of(record_of(s)) == seq![s],
{
    let r = record_of(s);
    lemma_be_value_of_bytes(s.x);
    lemma_be_value_of_bytes(s.y);
    lemma_be_value_of_bytes(s.aux);
    assert(r.subrange(0, 8) =~= be_bytes(s.x));
    assert(r.subrange(8, 16) =~= be_bytes(s.y));
    assert(r.subrange(16, 24) =~= be_bytes(s.aux));
    assert(samples_of(r) =~= seq![s]);
}

fn append_bytes(v: &mut Vec<u8>, a: &[u8; 8])
    ensures
        final(v)@ == old(v)@ + a@,
{
    let mut i: usize = 0;
    while i < 8
        invariant
            0 <= i <= 8,
            a@.len() == 8,
            v@ == old(v)@ + a@.subrange(0, i as int),
        decreases 8 - i,
    {
        v.push(a[i]);
        i = i + 1;
        assert(a@.subrange(0, i as int) =~= a@.subrange(0, i - 1) + seq![a@[i - 1]]);
    }
    assert(a@.subrange(0, 8) =~= a@);
}

/// The 24-byte wire record of a sample.
pub fn encode_sample(s: &Sample) -> (r: Vec<u8>)
    ensures
        r@ == record_of(*s),
{
    let mut out: Vec<u8> = Vec::new();
    append_bytes(&mut out, &be_encode(s.x));
    append_bytes(&mut out, &be_encode(s.y));
    append_bytes(&mut out, &be_encode(s.aux));
    assert(out@ =~= record_of(*s));
    out
}

/// The sample held by the record that starts at byte `at`.
pub fn decode_sample(bytes: &[u8], at: usize) -> (r: Sample)
    requires
        at + 24 <= bytes@.len(),
    ensures
        r == sample_at(bytes@, at as int),
{
    let len = bytes.len();
    assert(at + 16 < len);
    Sample {
        x: be_decode(bytes, at),
        y: be_decode(bytes, at + 8),
        aux: be_decode(bytes, at + 16),
    }
}

/// Every whole record of `bytes`, in order; a trailing fragment is dropped.
pub fn decode_all(bytes: &[u8]) -> (r: Vec<Sample>)
    ensures
        r@ == samples_of(bytes@),
{
    let len = bytes.len();
    let count = len / RECORD_LEN;
    let mut out: Vec<Sample> = Vec::new();
    let mut k: usize = 0;
    while k < count
        invariant
            len == bytes@.len(),
            count == len / 24,
            k <= count,
            out@ == samples_of(bytes@).subrange(0, k as int),
        decreases count - k,
    {
        assert(24 * k + 24 <= bytes@.len()) by (nonlinear_arith)
            requires
                k < count,
                count == bytes@.len() / 24,
        ;
        assert(24 * k + 24 <= len);
        let s = decode_sample(bytes, RECORD_LEN * k);
        out.push(s);
        k = k + 1;
        assert(out@ =~= samples_of(bytes@).subrange(0, k as int));
    }
    assert(out@ =~= samples_of(bytes@));
    out
}

/// A greedy read of a stream takes its first record, then reads on from
/// the byte after it.
pub proof fn lemma_samples_of_front(b: Seq<u8>)
    requires
        b.len() >= 24,
    ensures
        samples_of(b) == seq![sample_at(b, 0)] + samples_of(b.subrange(24, b.len() as int)),
{
    let rest = b.subrange(24, b.len() as int);
    assert(rest.len() / 24 == b.len() / 24 - 1) by (nonlinear_arith)
        requires
            rest.len() == b.len() - 24,
            b.len() >= 24,
    ;
    assert forall|k: int| 0 <= k < rest.len() / 24 implies #[trigger] sample_at(rest, 24 * k) == sample_at(
        b,
        24 * (k + 1),
    ) by {
        assert(rest.subrange(24 * k, 24 * k + 8) =~= b.subrange(24 * (k + 1), 24 * (k + 1) + 8));
        assert(rest.subrange(24 * k + 8, 24 * k + 16) =~= b.subrange(
            24 * (k + 1) + 8,
            24 * (k + 1) + 16,
        ));
        assert(rest.subrange(24 * k + 16, 24 * k + 24) =~= b.subrange(
            24 * (k + 1) + 16,
            24 * (k + 1) + 24,
        ));
    }
    assert(samples_of(b) =~= seq![sample_at(b, 0)] + samples_of(rest));
}

/// Reassembles sample records from a byte stream that arrives in chunks of
/// any size. Bytes that do not yet make a whole record wait for the next
/// chunk; at the end of the stream they are simply left over.
pub struct Deframer {
    pending: Vec<u8>,
}

impl View for Deframer {
    type V = Seq<u8>;

    closed spec fn view(&self) -> Seq<u8> {
        self.pending@
    }
}

impl Deframer {
    pub fn new() -> (r: Deframer)
        ensures
            r@ == Seq::<u8>::empty(),
    {
        Deframer { pending: Vec::new() }
    }

    /// Appends a chunk of the stream.
    pub fn push_bytes(&mut self, chunk: &[u8])
        ensures
            final(self)@ == old(self)@ + chunk@,
    {
        let mut i: usize = 0;
        while i < chunk.len()
            invariant
                i <= chunk@.len(),
                self@ == old(self)@ + chunk@.subrange(0, i as int),
            decreases chunk@.len() - i,
        {
            self.pending.push(chunk[i]);
            i = i + 1;
            assert(chunk@.subrange(0, i as int) =~= chunk@.subrange(0, i - 1) + seq![
                chunk@[i - 1],
            ]);
        }
        assert(chunk@.subrange(0, chunk@.len() as int) =~= chunk@);
    }

    /// Number of bytes waiting to complete a record.
    pub fn pending_len(&self) -> (r: usize)
        ensures
            r == self@.len(),
    {
        self.pending.len()
    }

    /// Takes the next whole record, if one has arrived.
    pub fn next_sample(&mut self) -> (r: Option<Sample>)
        ensures
            old(self)@.len() >= 24 ==> r == Some(sample_at(old(self)@, 0)) && final(self)@
                == old(self)@.subrange(24, old(self)@.len() as int),
            old(self)@.len() < 24 ==> r is None && final(self)@ == old(self)@,
    {
        let len = self.pending.len();
        if len < RECORD_LEN {
            return None;
        }
        let s = decode_sample(self.pending.as_slice(), 0);
        let mut rest: Vec<u8> = Vec::new();
        let mut i: usize = RECORD_LEN;
        while i < len
            invariant
                len == self.pending@.len(),
                24 <= i <= len,
                rest@ == self.pending@.subrange(24, i as int),
            decreases len - i,
        {
            rest.push(self.pending[i]);
            i = i + 1;
            assert(rest@ =~= self.pending@.subrange(24, i as int));
        }
        self.pending = rest;
        Some(s)
    }
}

} // verus!
