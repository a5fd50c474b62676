//! The byte-level model of the wire format.
//!
//! Every integer travels little-endian in exactly as many bytes as its type is wide;
//! signed integers travel as their two's-complement bit pattern. A string travels as
//! its UTF-8 byte length (a `u32`) followed by its UTF-8 bytes.
use vstd::prelude::*;
use vstd::utf8::*;

verus! {

/// `256^n`: one past the largest value that fits in `n` bytes.
pub open spec fn byte_bound(n: nat) -> nat
    decreases n,
{
    if n == 0 {
        1
    } else {
        256 * byte_bound((n - 1) as nat)
    }
}

/// More bytes hold at least as much.
pub proof fn lemma_byte_bound_mono(a: nat, b: nat)
    requires
        a <= b,
    ensures
        byte_bound(a) <= byte_bound(b),
    decreases b,
{
    if a < b {
        lemma_byte_bound_mono(a, (b - 1) as nat);
    }
}

/// The low `n` bytes of `v`, least significant first.
pub open spec fn le_bytes(v: nat, n: nat) -> Seq<u8>
    decreases n,
{
    if n == 0 {
        Seq::empty()
    } else {
        seq![(v % 256) as u8] + le_bytes(v / 256, (n - 1) as nat)
    }
}

/// The number whose little-endian bytes are `s`.
pub open spec fn le_value(s: Seq<u8>) -> nat
    decreases s.len(),
{
    if s.len() == 0 {
        0
    } else {
        s[0] as nat + 256 * le_value(s.drop_first())
    }
}

pub proof fn lemma_le_bytes_len(v: nat, n: nat)
    ensures
        le_bytes(v, n).len() == n,
    decreases n,
{
    if n > 0 {
        lemma_le_bytes_len(v / 256, (n - 1) as nat);
    }
}

pub proof fn lemma_le_value_bound(s: Seq<u8>)
    ensures
        le_value(s) < byte_bound(s.len()),
    decreases s.len(),
{
    if s.len() > 0 {
        lemma_le_value_bound(s.drop_first());
    }
}

/// Reading back `n` little-endian bytes gives the value that was written, when it fits.
pub proof fn lemma_le_roundtrip(v: nat, n: nat)
    requires
        v < byte_bound(n),
    ensures
        le_bytes(v, n).len() == n,
        le_value(le_bytes(v, n)) == v,
    decreases n,
{
    lemma_le_bytes_len(v, n);
    if n > 0 {
        lemma_le_roundtrip(v / 256, (n - 1) as nat);
        assert(le_bytes(v, n).drop_first() =~= le_bytes(v / 256, (n - 1) as nat));
    }
}


/// The bit pattern, read as an unsigned number, that a signed `x` has in `n` bytes.
pub open spec fn twos_complement(x: int, n: nat) -> nat {
    if x < 0 {
        (x + byte_bound(n)) as nat
    } else {
        x as nat
    }
}

/// The signed number whose `n`-byte two's-complement bit pattern reads as `u`.
pub open spec fn from_twos_complement(u: nat, n: nat) -> int {
    if 2 * u >= byte_bound(n) {
        u - byte_bound(n)
    } else {
        u as int
    }
}

pub proof fn lemma_byte_bounds()
    ensures
        byte_bound(1) == 0x100,
        byte_bound(2) == 0x1_0000,
        byte_bound(4) == 0x1_0000_0000,
        byte_bound(8) == 0x1_0000_0000_0000_0000,
{
    reveal_with_fuel(byte_bound, 9);
}

/// A value of one of the types that travel in a payload.
pub enum WireValue {
    U8(u8),
    I8(i8),
    U16(u16),
    I16(i16),
    U32(u32),
    I32(i32),
    U64(u64),
    I64(i64),
    Bool(bool),
    Str(Seq<char>),
}

/// The type a reader asks a payload for, which the schema, not the bytes, decides.
pub enum WireKind {
    U8,
    I8,
    U16,
    I16,
    U32,
    I32,
    U64,
    I64,
    Bool,
    Str,
}

pub open spec fn kind_of(v: WireValue) -> WireKind {
    match v {
        WireValue::U8(_) => WireKind::U8,
        WireValue::I8(_) => WireKind::I8,
        WireValue::U16(_) => WireKind::U16,
        WireValue::I16(_) => WireKind::I16,
        WireValue::U32(_) => WireKind::U32,
        WireValue::I32(_) => WireKind::I32,
        WireValue::U64(_) => WireKind::U64,
        WireValue::I64(_) => WireKind::I64,
        WireValue::Bool(_) => WireKind::Bool,
        WireValue::Str(_) => WireKind::Str,
    }
}

/// The width in bytes of a fixed-size kind (a string's length prefix for `Str`).
pub open spec fn fixed_width(k: WireKind) -> nat {
    match k {
        WireKind::U8 | WireKind::I8 | WireKind::Bool => 1,
        WireKind::U16 | WireKind::I16 => 2,
        WireKind::U32 | WireKind::I32 | WireKind::Str => 4,
        WireKind::U64 | WireKind::I64 => 8,
    }
}

/// The bytes a value is written as.
pub open spec fn encode_value(v: WireValue) -> Seq<u8> {
    match v {
        WireValue::U8(x) => le_bytes(x as nat, 1),
        WireValue::I8(x) => le_bytes(twos_complement(x as int, 1), 1),
        WireValue::U16(x) => le_bytes(x as nat, 2),
        WireValue::I16(x) => le_bytes(twos_complement(x as int, 2), 2),
        WireValue::U32(x) => le_bytes(x as nat, 4),
        WireValue::I32(x) => le_bytes(twos_complement(x as int, 4), 4),
        WireValue::U64(x) => le_bytes(x as nat, 8),
        WireValue::I64(x) => le_bytes(twos_complement(x as int, 8), 8),
        WireValue::Bool(b) => le_bytes(if b { 1 } else { 0 }, 1),
        WireValue::Str(chars) => le_bytes(encode_utf8(chars).len(), 4) + encode_utf8(chars),
    }
}

/// Whether a value can be written at all: a string's byte length must fit its `u32` prefix.
pub open spec fn encodable(v: WireValue) -> bool {
    match v {
        WireValue::Str(chars) => encode_utf8(chars).len() <= u32::MAX,
        _ => true,
    }
}

/// The value of kind `k` at the front of `s`, with the number of bytes it takes up,
/// or `None` where `s` does not start with one.
pub open spec fn decode_value(k: WireKind, s: Seq<u8>) -> Option<(WireValue, nat)> {
    let w = fixed_width(k);
    if s.len() < w {
        None
    } else {
        let u = le_value(s.take(w as int));
        match k {
            WireKind::U8 => Some((WireValue::U8(u as u8), w)),
            WireKind::I8 => Some((WireValue::I8(from_twos_complement(u, w) as i8), w)),
            WireKind::U16 => Some((WireValue::U16(u as u16), w)),
            WireKind::I16 => Some((WireValue::I16(from_twos_complement(u, w) as i16), w)),
            WireKind::U32 => Some((WireValue::U32(u as u32), w)),
            WireKind::I32 => Some((WireValue::I32(from_twos_complement(u, w) as i32), w)),
            WireKind::U64 => Some((WireValue::U64(u as u64), w)),
            WireKind::I64 => Some((WireValue::I64(from_twos_complement(u, w) as i64), w)),
            WireKind::Bool => Some((WireValue::Bool(u != 0), w)),
            WireKind::Str => {
                let body = s.subrange(4, s.len() as int);
                if body.len() < u {
                    None
                } else if !valid_utf8(body.take(u as int)) {
                    None
                } else {
                    Some((WireValue::Str(decode_utf8(body.take(u as int))), 4 + u))
                }
            },
        }
    }
}

/// The bytes a sequence of values is written as, one after the other.
pub open spec fn encode_values(vs: Seq<WireValue>) -> Seq<u8>
    decreases vs.len(),
{
    if vs.len() == 0 {
        Seq::empty()
    } else {
        encode_value(vs[0]) + encode_values(vs.drop_first())
    }
}

/// Reads values of the given kinds one after the other from the front of `s`, giving
/// them back with whatever bytes follow, or `None` where one of them is not there.
pub open spec fn decode_values(ks: Seq<WireKind>, s: Seq<u8>) -> Option<(Seq<WireValue>, Seq<u8>)>
    decreases ks.len(),
{
    if ks.len() == 0 {
        Some((Seq::empty(), s))
    } else {
        match decode_value(ks[0], s) {
            None => None,
            Some((v, n)) => match decode_values(ks.drop_first(), s.skip(n as int)) {
                None => None,
                Some((vs, rest)) => Some((seq![v] + vs, rest)),
            },
        }
    }
}

pub proof fn lemma_twos_complement_roundtrip(x: int, n: nat)
    requires
        n > 0,
        -byte_bound(n) <= 2 * x < byte_bound(n),
    ensures
        twos_complement(x, n) < byte_bound(n),
        from_twos_complement(twos_complement(x, n), n) == x,
{
}

/// The bytes a value is written as read back, as a value of the same kind, to that value,
/// whatever follows them.
pub proof fn lemma_decode_encode_value(v: WireValue, rest: Seq<u8>)
    requires
        encodable(v),
    ensures
        decode_value(kind_of(v), encode_value(v) + rest) == Some((v, encode_value(v).len())),
        (encode_value(v) + rest).skip(encode_value(v).len() as int) == rest,
{
    assert((encode_value(v) + rest).skip(encode_value(v).len() as int) =~= rest);
    lemma_byte_bounds();
    let s = encode_value(v) + rest;
    let w = fixed_width(kind_of(v));
    match v {
        WireValue::Str(chars) => {
            let bytes = encode_utf8(chars);
            lemma_le_roundtrip(bytes.len(), 4);
            assert(s.take(4) =~= le_bytes(bytes.len(), 4));
            let body = s.subrange(4, s.len() as int);
            assert(body =~= bytes + rest);
            assert(body.take(bytes.len() as int) =~= bytes);
            encode_utf8_valid_utf8(chars);
            encode_utf8_decode_utf8(chars);
        },
        _ => {
            let u: nat = match v {
                WireValue::U8(x) => x as nat,
                WireValue::I8(x) => twos_complement(x as int, 1),
                WireValue::U16(x) => x as nat,
                WireValue::I16(x) => twos_complement(x as int, 2),
                WireValue::U32(x) => x as nat,
                WireValue::I32(x) => twos_complement(x as int, 4),
                WireValue::U64(x) => x as nat,
                WireValue::I64(x) => twos_complement(x as int, 8),
                WireValue::Bool(b) => if b { 1 } else { 0 },
                WireValue::Str(_) => 0,
            };
            match v {
                WireValue::I8(x) => lemma_twos_complement_roundtrip(x as int, 1),
                WireValue::I16(x) => lemma_twos_complement_roundtrip(x as int, 2),
                WireValue::I32(x) => lemma_twos_complement_roundtrip(x as int, 4),
                WireValue::I64(x) => lemma_twos_complement_roundtrip(x as int, 8),
                _ => {},
            }
            assert(encode_value(v) == le_bytes(u, w));
            lemma_le_roundtrip(u, w);
            assert(s.take(w as int) =~= le_bytes(u, w));
        },
    }
}

pub open spec fn kinds_of(vs: Seq<WireValue>) -> Seq<WireKind> {
    vs.map_values(|v: WireValue| kind_of(v))
}

/// Reading a payload against the schema it was written with gives back, in order, the
/// values that were written, and leaves whatever followed them untouched.
pub proof fn law_read_back_what_was_written(vs: Seq<WireValue>, rest: Seq<u8>)
    requires
        forall|i: int| 0 <= i < vs.len() ==> encodable(#[trigger] vs[i]),
    ensures
        decode_values(kinds_of(vs), encode_values(vs) + rest) == Some((vs, rest)),
    decreases vs.len(),
{
    if vs.len() > 0 {
        let tail = vs.drop_first();
        assert(encodable(vs[0]));
        assert forall|i: int| 0 <= i < tail.len() implies encodable(#[trigger] tail[i]) by {
            assert(tail[i] == vs[i + 1]);
        }
        law_read_back_what_was_written(tail, rest);
        let s = encode_values(vs) + rest;
        let head = encode_value(vs[0]);
        assert(s =~= head + (encode_values(tail) + rest));
        lemma_decode_encode_value(vs[0], encode_values(tail) + rest);
        assert(s.skip(head.len() as int) =~= encode_values(tail) + rest);
        assert(kinds_of(vs).drop_first() =~= kinds_of(tail));
        assert(seq![vs[0]] + tail =~= vs);
    } else {
        assert(kinds_of(vs) =~= Seq::<WireKind>::empty());
    }
}

} // verus!
