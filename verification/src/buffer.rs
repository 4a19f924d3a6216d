use vstd::prelude::*;
use vstd::arithmetic::div_mod::lemma_div_denominator;
use vstd::arithmetic::power::{lemma_pow_positive, pow};

verus! {

/// An opaque byte string as exchanged by the protocol (a key, a ciphertext
/// or a feature value).
pub struct ByteBuffer {
    pub buffer: Vec<u8>,
}

impl View for ByteBuffer {
    type V = Seq<u8>;

    open spec fn view(&self) -> Seq<u8> {
        self.buffer@
    }
}

/// The contents of a sequence of buffers, each taken by its bytes.
pub open spec fn buffers_view(data: Seq<ByteBuffer>) -> Seq<Seq<u8>> {
    data.map_values(|b: ByteBuffer| b@)
}

/// The contents of a sequence of byte vectors.
pub open spec fn bytes_view(data: Seq<Vec<u8>>) -> Seq<Seq<u8>> {
    data.map_values(|v: Vec<u8>| v@)
}

/// The raw byte strings of a list of buffers, in order: what goes into the
/// `payload` field of a message.
pub fn payload_from_buffers(data: &Vec<ByteBuffer>) -> (res: Vec<Vec<u8>>)
    ensures
        bytes_view(res@) == buffers_view(data@),
{
    let mut res: Vec<Vec<u8>> = Vec::new();
    let n = data.len();
    for i in 0..n
        invariant
            n == data@.len(),
            res@.len() == i,
            forall|j: int| 0 <= j < i ==> #[trigger] res@[j]@ == data@[j]@,
    {
        let b = data[i].buffer.clone();
        assert(b@ == data@[i as int]@);
        res.push(b);
    }
    assert(bytes_view(res@) =~= buffers_view(data@));
    res
}

/// Buffers holding the given byte strings, in order: how a received
/// `Payload` becomes the protocol's list of buffers.
pub fn buffers_from_payload(payload: &Vec<Vec<u8>>) -> (res: Vec<ByteBuffer>)
    ensures
        buffers_view(res@) == bytes_view(payload@),
{
    let mut res: Vec<ByteBuffer> = Vec::new();
    let n = payload.len();
    for i in 0..n
        invariant
            n == payload@.len(),
            res@.len() == i,
            forall|j: int| 0 <= j < i ==> #[trigger] res@[j]@ == payload@[j]@,
    {
        let b = payload[i].clone();
        assert(b@ == payload@[i as int]@);
        res.push(ByteBuffer { buffer: b });
    }
    assert(buffers_view(res@) =~= bytes_view(payload@));
    res
}

/// Byte `i` (least significant first) of the little-endian encoding of `x`.
pub open spec fn le_byte(x: int, i: nat) -> u8 {
    ((x / pow(256, i)) % 256) as u8
}

/// The eight bytes of a `u64`, least significant first.
pub open spec fn le_bytes(x: u64) -> Seq<u8> {
    Seq::new(8, |i: int| le_byte(x as int, i as nat))
}

/// The buffer that marks a feature column with its index: the index as a
/// `u64` in eight little-endian bytes.
pub fn feature_index_tag(index: usize) -> (tag: ByteBuffer)
    ensures
        tag@ == le_bytes(index as u64),
{
    let x: u64 = index as u64;
    let mut v: u64 = x;
    let mut out: Vec<u8> = Vec::new();
    proof {
        reveal(pow);
        assert(pow(256, 0) == 1);
    }
    for i in 0..8usize
        invariant
            out@.len() == i,
            v as int == x as int / pow(256, i as nat),
            forall|j: int| 0 <= j < i ==> #[trigger] out@[j] == le_byte(x as int, j as nat),
    {
        out.push((v % 256) as u8);
        proof {
            reveal(pow);
            lemma_pow_positive(256, i as nat);
            lemma_div_denominator(x as int, pow(256, i as nat), 256);
            assert(pow(256, (i + 1) as nat) == 256 * pow(256, i as nat));
            assert(pow(256, i as nat) * 256 == 256 * pow(256, i as nat)) by (nonlinear_arith);
        }
        v = v / 256;
    }
    assert(out@ =~= le_bytes(x));
    ByteBuffer { buffer: out }
}

/// Appends to a feature column the buffer that names its index, so that the
/// receiver can tell the columns apart.
pub fn tag_feature(feature: &mut Vec<ByteBuffer>, index: usize)
    ensures
        buffers_view(final(feature)@) == buffers_view(old(feature)@).push(le_bytes(index as u64)),
{
    let tag = feature_index_tag(index);
    feature.push(tag);
    assert(buffers_view(feature@) =~= buffers_view(old(feature)@).push(le_bytes(index as u64)));
}

/// Values below `256^k` that agree on their first `k` little-endian bytes
/// are equal.
proof fn lemma_low_bytes_determine(x: int, y: int, k: nat)
    requires
        0 <= x < pow(256, k),
        0 <= y < pow(256, k),
        forall|i: nat| i < k ==> #[trigger] le_byte(x, i) == le_byte(y, i),
    ensures
        x == y,
    decreases k,
{
    reveal(pow);
    if k == 0 {
        assert(pow(256, 0) == 1);
    } else {
        let p = pow(256, (k - 1) as nat);
        lemma_pow_positive(256, (k - 1) as nat);
        assert(pow(256, k) == 256 * p);
        assert(le_byte(x, 0) == le_byte(y, 0));
        assert(pow(256, 0) == 1);
        assert(x % 256 == y % 256);
        assert(x / 256 < p) by (nonlinear_arith)
            requires
                0 <= x < 256 * p,
        ;
        assert(y / 256 < p) by (nonlinear_arith)
            requires
                0 <= y < 256 * p,
        ;
        assert forall|i: nat| i < (k - 1) as nat implies #[trigger] le_byte(x / 256, i) == le_byte(y / 256, i) by {
            lemma_pow_positive(256, i);
            lemma_div_denominator(x, 256, pow(256, i));
            lemma_div_denominator(y, 256, pow(256, i));
            assert(pow(256, i + 1) == 256 * pow(256, i));
            assert(le_byte(x, i + 1) == le_byte(y, i + 1));
        }
        lemma_low_bytes_determine(x / 256, y / 256, (k - 1) as nat);
        assert(x == 256 * (x / 256) + x % 256);
        assert(y == 256 * (y / 256) + y % 256);
    }
}

/// Law: the tag appended to a feature column names one index only; two
/// indices with the same eight-byte tag are the same index.
pub proof fn lemma_feature_tag_injective(a: u64, b: u64)
    requires
        le_bytes(a) == le_bytes(b),
    ensures
        a == b,
{
    assert(pow(256, 8) == 0x1_0000_0000_0000_0000) by {
        reveal_with_fuel(pow, 9);
    }
    assert forall|i: nat| i < 8 implies #[trigger] le_byte(a as int, i) == le_byte(b as int, i) by {
        assert(le_bytes(a)[i as int] == le_byte(a as int, i));
        assert(le_bytes(b)[i as int] == le_byte(b as int, i));
        assert(le_bytes(a)[i as int] == le_bytes(b)[i as int]);
    }
    lemma_low_bytes_determine(a as int, b as int, 8);
}


/// Law: the tag is little-endian: its first byte is the index modulo 256,
/// and its other bytes are the tag of the index divided by 256, shifted by
/// one place, with a zero last byte.
pub proof fn lemma_tag_little_endian(x: u64)
    ensures
        le_bytes(x).len() == 8,
        le_bytes(x)[0] == x % 256,
        forall|i: int| 1 <= i < 8 ==> #[trigger] le_bytes(x)[i] == le_bytes((x / 256) as u64)[i - 1],
        le_bytes((x / 256) as u64)[7] == 0,
{
    reveal(pow);
    assert(pow(256, 0) == 1);
    assert forall|i: int| 1 <= i < 8 implies #[trigger] le_bytes(x)[i] == le_bytes((x / 256) as u64)[i - 1] by {
        lemma_pow_positive(256, (i - 1) as nat);
        lemma_div_denominator(x as int, 256, pow(256, (i - 1) as nat));
        assert(pow(256, i as nat) == 256 * pow(256, (i - 1) as nat));
    }
    assert(pow(256, 7) == 0x100_0000_0000_0000) by {
        reveal_with_fuel(pow, 8);
    }
    assert((x / 256) as int / pow(256, 7) == 0);
}

} // verus!
