use vstd::prelude::*;

use crate::funs::State;

verus! {

/// The four bytes of `x`, least significant first.
pub open spec fn le_bytes_u32(x: u32) -> Seq<u8> {
    seq![
        (x & 0xff) as u8,
        ((x >> 8u32) & 0xff) as u8,
        ((x >> 16u32) & 0xff) as u8,
        ((x >> 24u32) & 0xff) as u8,
    ]
}

/// The number whose bytes, least significant first, are `b[0..4]`.
pub open spec fn le_value_u32(b: Seq<u8>) -> u32
    recommends
        b.len() >= 4,
{
    (b[0] as u32) | ((b[1] as u32) << 8u32) | ((b[2] as u32) << 16u32) | ((b[3] as u32) << 24u32)
}

/// The eight bytes of `x`, least significant first.
pub open spec fn le_bytes_u64(x: u64) -> Seq<u8> {
    seq![
        (x & 0xff) as u8,
        ((x >> 8u64) & 0xff) as u8,
        ((x >> 16u64) & 0xff) as u8,
        ((x >> 24u64) & 0xff) as u8,
        ((x >> 32u64) & 0xff) as u8,
        ((x >> 40u64) & 0xff) as u8,
        ((x >> 48u64) & 0xff) as u8,
        ((x >> 56u64) & 0xff) as u8,
    ]
}

/// The number whose bytes, least significant first, are `b[0..8]`.
pub open spec fn le_value_u64(b: Seq<u8>) -> u64
    recommends
        b.len() >= 8,
{
    (b[0] as u64) | ((b[1] as u64) << 8u64) | ((b[2] as u64) << 16u64) | ((b[3] as u64) << 24u64)
        | ((b[4] as u64) << 32u64) | ((b[5] as u64) << 40u64) | ((b[6] as u64) << 48u64) | ((
    b[7] as u64) << 56u64)
}

proof fn lemma_u32_roundtrip(x: u32)
    ensures
        le_value_u32(le_bytes_u32(x)) == x,
{
    let b = le_bytes_u32(x);
    let (b0, b1, b2, b3) = (b[0], b[1], b[2], b[3]);
    assert(b0 == (x & 0xff) as u8 && b1 == ((x >> 8u32) & 0xff) as u8 && b2 == ((x >> 16u32)
        & 0xff) as u8 && b3 == ((x >> 24u32) & 0xff) as u8);
    assert((b0 as u32) | ((b1 as u32) << 8u32) | ((b2 as u32) << 16u32) | ((b3 as u32) << 24u32)
        == x) by (bit_vector)
        requires
            b0 == (x & 0xff) as u8,
            b1 == ((x >> 8u32) & 0xff) as u8,
            b2 == ((x >> 16u32) & 0xff) as u8,
            b3 == ((x >> 24u32) & 0xff) as u8,
    ;
}

proof fn lemma_u64_roundtrip(x: u64)
    ensures
        le_value_u64(le_bytes_u64(x)) == x,
{
    let b = le_bytes_u64(x);
    let (b0, b1, b2, b3, b4, b5, b6, b7) = (b[0], b[1], b[2], b[3], b[4], b[5], b[6], b[7]);
    assert((b0 as u64) | ((b1 as u64) << 8u64) | ((b2 as u64) << 16u64) | ((b3 as u64) << 24u64)
        | ((b4 as u64) << 32u64) | ((b5 as u64) << 40u64) | ((b6 as u64) << 48u64) | ((
    b7 as u64) << 56u64) == x) by (bit_vector)
        requires
            b0 == (x & 0xff) as u8,
            b1 == ((x >> 8u64) & 0xff) as u8,
            b2 == ((x >> 16u64) & 0xff) as u8,
            b3 == ((x >> 24u64) & 0xff) as u8,
            b4 == ((x >> 32u64) & 0xff) as u8,
            b5 == ((x >> 40u64) & 0xff) as u8,
            b6 == ((x >> 48u64) & 0xff) as u8,
            b7 == ((x >> 56u64) & 0xff) as u8,
    ;
}

fn push_u32(out: &mut Vec<u8>, x: u32)
    ensures
        final(out)@ == old(out)@ + le_bytes_u32(x),
{
    out.push((x & 0xff) as u8);
    out.push(((x >> 8u32) & 0xff) as u8);
    out.push(((x >> 16u32) & 0xff) as u8);
    out.push(((x >> 24u32) & 0xff) as u8);
    assert(out@ =~= old(out)@ + le_bytes_u32(x));
}

fn read_u32(bytes: &[u8]) -> (r: u32)
    requires
        bytes@.len() >= 4,
    ensures
        r == le_value_u32(bytes@),
{
    (bytes[0] as u32) | ((bytes[1] as u32) << 8u32) | ((bytes[2] as u32) << 16u32) | ((
    bytes[3] as u32) << 24u32)
}


fn push_u64(out: &mut Vec<u8>, x: u64)
    ensures
        final(out)@ == old(out)@ + le_bytes_u64(x),
{
    out.push((x & 0xff) as u8);
    out.push(((x >> 8u64) & 0xff) as u8);
    out.push(((x >> 16u64) & 0xff) as u8);
    out.push(((x >> 24u64) & 0xff) as u8);
    out.push(((x >> 32u64) & 0xff) as u8);
    out.push(((x >> 40u64) & 0xff) as u8);
    out.push(((x >> 48u64) & 0xff) as u8);
    out.push(((x >> 56u64) & 0xff) as u8);
    assert(out@ =~= old(out)@ + le_bytes_u64(x));
}

fn read_u64_at(bytes: &[u8], off: usize) -> (r: u64)
    requires
        off + 8 <= bytes@.len(),
    ensures
        r == le_value_u64(bytes@.subrange(off as int, off + 8)),
{
    (bytes[off] as u64) | ((bytes[off + 1] as u64) << 8u64) | ((bytes[off + 2] as u64) << 16u64)
        | ((bytes[off + 3] as u64) << 24u64) | ((bytes[off + 4] as u64) << 32u64) | ((bytes[off
        + 5] as u64) << 40u64) | ((bytes[off + 6] as u64) << 48u64) | ((bytes[off + 7] as u64)
        << 56u64)
}

/// A message that travels over a pipe as a fixed number of bytes.
pub trait Wire: Sized {
    /// The bytes that stand for `self` on the wire.
    spec fn spec_encode(&self) -> Seq<u8>;

    /// The message at the front of `bytes`, if they start with one.
    spec fn spec_decode(bytes: Seq<u8>) -> Option<Self>;

    /// How many bytes a message takes on the wire.
    spec fn spec_width() -> nat;

    fn width() -> (r: usize)
        ensures
            r == Self::spec_width(),
    ;

    fn encode(&self) -> (r: Vec<u8>)
        ensures
            r@ == self.spec_encode(),
    ;

    fn decode(bytes: &[u8]) -> (r: Option<Self>)
        ensures
            r == Self::spec_decode(bytes@),
    ;

    /// Decoding gives back what was encoded, whatever bytes follow it.
    proof fn lemma_decode_encode(&self, rest: Seq<u8>)
        ensures
            Self::spec_decode(self.spec_encode() + rest) == Some(*self),
    ;

    /// Every message takes `spec_width()` bytes, and decoding reads exactly
    /// that many: fewer give nothing, and bytes after them do not matter.
    proof fn lemma_width(msg: Self, bytes: Seq<u8>)
        ensures
            msg.spec_encode().len() == Self::spec_width(),
            bytes.len() < Self::spec_width() ==> Self::spec_decode(bytes) is None,
            bytes.len() >= Self::spec_width() ==> Self::spec_decode(bytes) == Self::spec_decode(
                bytes.take(Self::spec_width() as int),
            ),
    ;
}

impl Wire for i32 {
    open spec fn spec_encode(&self) -> Seq<u8> {
        le_bytes_u32(*self as u32)
    }

    open spec fn spec_decode(bytes: Seq<u8>) -> Option<i32> {
        if bytes.len() >= 4 {
            Some(le_value_u32(bytes) as i32)
        } else {
            None
        }
    }

    open spec fn spec_width() -> nat {
        4
    }

    fn width() -> (r: usize) {
        4
    }

    proof fn lemma_width(msg: i32, bytes: Seq<u8>) {
        if bytes.len() >= 4 {
            let t = bytes.take(4);
            assert(le_value_u32(bytes) == le_value_u32(t));
        }
    }

    fn encode(&self) -> (r: Vec<u8>) {
        let mut out: Vec<u8> = Vec::new();
        push_u32(&mut out, *self as u32);
        assert(out@ =~= self.spec_encode());
        out
    }

    fn decode(bytes: &[u8]) -> (r: Option<i32>) {
        if bytes.len() >= 4 {
            Some(read_u32(bytes) as i32)
        } else {
            None
        }
    }

    proof fn lemma_decode_encode(&self, rest: Seq<u8>) {
        let x = *self;
        let u = x as u32;
        lemma_u32_roundtrip(u);
        let b = le_bytes_u32(u) + rest;
        assert(le_value_u32(b) == le_value_u32(le_bytes_u32(u)));
        assert((u as i32) == x) by (bit_vector)
            requires
                u == x as u32,
        ;
    }
}

impl Wire for State {
    open spec fn spec_encode(&self) -> Seq<u8> {
        self.val.spec_encode()
    }

    open spec fn spec_decode(bytes: Seq<u8>) -> Option<State> {
        match <i32 as Wire>::spec_decode(bytes) {
            Some(v) => Some(State { val: v }),
            None => None,
        }
    }

    open spec fn spec_width() -> nat {
        4
    }

    fn width() -> (r: usize) {
        4
    }

    proof fn lemma_width(msg: State, bytes: Seq<u8>) {
        <i32 as Wire>::lemma_width(msg.val, bytes);
    }

    fn encode(&self) -> (r: Vec<u8>) {
        self.val.encode()
    }

    fn decode(bytes: &[u8]) -> (r: Option<State>) {
        match <i32 as Wire>::decode(bytes) {
            Some(v) => Some(State { val: v }),
            None => None,
        }
    }

    proof fn lemma_decode_encode(&self, rest: Seq<u8>) {
        self.val.lemma_decode_encode(rest);
    }
}

/// A control message: whether the accumulator is complete after the data it
/// announces, and how many data values follow.
impl Wire for (bool, usize) {
    open spec fn spec_encode(&self) -> Seq<u8> {
        seq![if self.0 { 1u8 } else { 0u8 }] + le_bytes_u64(self.1 as u64)
    }

    open spec fn spec_decode(bytes: Seq<u8>) -> Option<(bool, usize)> {
        if bytes.len() >= 9 && bytes[0] <= 1 && le_value_u64(bytes.subrange(1, 9)) <= usize::MAX {
            Some((bytes[0] == 1, le_value_u64(bytes.subrange(1, 9)) as usize))
        } else {
            None
        }
    }

    open spec fn spec_width() -> nat {
        9
    }

    fn width() -> (r: usize) {
        9
    }

    proof fn lemma_width(msg: (bool, usize), bytes: Seq<u8>) {
        if bytes.len() >= 9 {
            let t = bytes.take(9);
            assert(t.subrange(1, 9) =~= bytes.subrange(1, 9));
        }
    }

    fn encode(&self) -> (r: Vec<u8>) {
        let mut out: Vec<u8> = Vec::new();
        if self.0 {
            out.push(1u8);
        } else {
            out.push(0u8);
        }
        push_u64(&mut out, self.1 as u64);
        assert(out@ =~= self.spec_encode());
        out
    }

    fn decode(bytes: &[u8]) -> (r: Option<(bool, usize)>) {
        if bytes.len() >= 9 && bytes[0] <= 1 {
            let n = read_u64_at(bytes, 1);
            if n <= usize::MAX as u64 {
                Some((bytes[0] == 1, n as usize))
            } else {
                None
            }
        } else {
            None
        }
    }

    proof fn lemma_decode_encode(&self, rest: Seq<u8>) {
        let n = self.1 as u64;
        lemma_u64_roundtrip(n);
        let b = self.spec_encode() + rest;
        assert(b.subrange(1, 9) =~= le_bytes_u64(n));
        assert(b[0] == (if self.0 { 1u8 } else { 0u8 }));
    }
}

} // verus!
