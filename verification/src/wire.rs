//! The byte layout of the fields that records and instructions are made of:
//! little-endian integers, 32-byte keys, and variable-length fields behind a
//! 4-byte count. Every field has an encoder and a decoder that reads it from
//! the front of a byte sequence and hands back what follows it.

use vstd::prelude::*;
use vstd::slice::*;
use vstd::utf8::*;

verus! {

/// What a decoder yields: the value read and the bytes that follow it.
pub type Decoded<T> = Option<(T, Seq<u8>)>;

/// The bytes that follow a decoded value; empty where nothing was decoded.
pub open spec fn rest_of<T>(d: Decoded<T>) -> Seq<u8> {
    match d {
        Some((_, rest)) => rest,
        None => Seq::empty(),
    }
}

/// The value that was decoded.
pub open spec fn value_of<T>(d: Decoded<T>) -> T
    recommends
        d is Some,
{
    match d {
        Some((value, _)) => value,
        None => arbitrary(),
    }
}

// ---------------------------------------------------------------------------
// 32-byte arrays
// ---------------------------------------------------------------------------

/// The array that holds the given 32 bytes.
pub open spec fn array32(s: Seq<u8>) -> [u8; 32] {
    choose|a: [u8; 32]| a@ == s
}

spec fn array32_upto(s: Seq<u8>, k: nat) -> [u8; 32]
    decreases k,
{
    if k == 0 {
        vstd::array::spec_array_fill_for_copy_type::<u8, 32>(0u8)
    } else {
        vstd::array::spec_array_update(array32_upto(s, (k - 1) as nat), k - 1, s[k - 1])
    }
}

proof fn lemma_array32_upto(s: Seq<u8>, k: nat)
    requires
        s.len() == 32,
        k <= 32,
    ensures
        forall|j: int| 0 <= j < k ==> array32_upto(s, k)@[j] == s[j],
    decreases k,
{
    if k > 0 {
        lemma_array32_upto(s, (k - 1) as nat);
    }
}

/// Every sequence of 32 bytes is held by an array.
pub proof fn lemma_array32(s: Seq<u8>)
    requires
        s.len() == 32,
    ensures
        array32(s)@ == s,
{
    lemma_array32_upto(s, 32);
    assert(array32_upto(s, 32)@ =~= s);
}

/// `array32` gives back the array whose bytes it is handed.
pub proof fn lemma_array32_of_view(a: [u8; 32])
    ensures
        array32(a@) == a,
{
    lemma_array32(a@);
    assert(array32(a@) =~= a);
}

// ---------------------------------------------------------------------------
// Field encoders
// ---------------------------------------------------------------------------

/// A byte: itself.
pub open spec fn enc_u8(v: u8) -> Seq<u8> {
    seq![v]
}

/// A flag: one byte, 1 for true and 0 for false.
pub open spec fn enc_bool(v: bool) -> Seq<u8> {
    seq![if v { 1u8 } else { 0u8 }]
}

/// A 32-bit number: its 4 bytes, the lowest first.
pub open spec fn enc_u32(v: u32) -> Seq<u8> {
    seq![
        (v & 0xff) as u8,
        ((v >> 8) & 0xff) as u8,
        ((v >> 16) & 0xff) as u8,
        ((v >> 24) & 0xff) as u8,
    ]
}

/// A 64-bit number: its 8 bytes, the lowest first.
pub open spec fn enc_u64(v: u64) -> Seq<u8> {
    seq![
        (v & 0xff) as u8,
        ((v >> 8) & 0xff) as u8,
        ((v >> 16) & 0xff) as u8,
        ((v >> 24) & 0xff) as u8,
        ((v >> 32) & 0xff) as u8,
        ((v >> 40) & 0xff) as u8,
        ((v >> 48) & 0xff) as u8,
        ((v >> 56) & 0xff) as u8,
    ]
}

/// The 32-bit number whose bytes are the first 4 of a sequence, the lowest
/// first.
pub open spec fn u32_of(b: Seq<u8>) -> u32 {
    (b[0] as u32) | (b[1] as u32) << 8 | (b[2] as u32) << 16 | (b[3] as u32) << 24
}

/// The 64-bit number whose bytes are the first 8 of a sequence, the lowest
/// first.
pub open spec fn u64_of(b: Seq<u8>) -> u64 {
    (b[0] as u64) | (b[1] as u64) << 8 | (b[2] as u64) << 16 | (b[3] as u64) << 24 | (b[4] as u64) << 32 | (
    b[5] as u64) << 40 | (b[6] as u64) << 48 | (b[7] as u64) << 56
}

/// A key or a commitment: its 32 bytes.
pub open spec fn enc_key(k: [u8; 32]) -> Seq<u8> {
    k@
}

/// Whether a text is short enough for its length to fit the 4-byte count.
pub open spec fn text_fits(s: Seq<char>) -> bool {
    encode_utf8(s).len() <= u32::MAX
}

/// A text: the number of its UTF-8 bytes, then the bytes.
pub open spec fn enc_text(s: Seq<char>) -> Seq<u8> {
    enc_u32(encode_utf8(s).len() as u32) + encode_utf8(s)
}

/// The bytes of a list of 32-byte items, one item after the other.
pub open spec fn flatten(v: Seq<[u8; 32]>) -> Seq<u8> {
    Seq::new(32 * v.len(), |i: int| v[i / 32]@[i % 32])
}

/// Whether a list is short enough for its length to fit the 4-byte count.
pub open spec fn list_fits(v: Seq<[u8; 32]>) -> bool {
    v.len() <= u32::MAX
}

/// A list of 32-byte items: the number of items, then the items.
pub open spec fn enc_list(v: Seq<[u8; 32]>) -> Seq<u8> {
    enc_u32(v.len() as u32) + flatten(v)
}

// ---------------------------------------------------------------------------
// Field decoders
// ---------------------------------------------------------------------------

/// A byte is rejected where no byte is left.
pub open spec fn dec_u8(b: Seq<u8>) -> Decoded<u8> {
    if b.len() >= 1 {
        Some((b[0], b.skip(1)))
    } else {
        None
    }
}

/// A flag is one byte, 0 or 1; any other byte is rejected.
pub open spec fn dec_bool(b: Seq<u8>) -> Decoded<bool> {
    if b.len() >= 1 && b[0] <= 1 {
        Some((b[0] == 1, b.skip(1)))
    } else {
        None
    }
}

/// A 32-bit number is rejected where fewer than 4 bytes are left.
pub open spec fn dec_u32(b: Seq<u8>) -> Decoded<u32> {
    if b.len() >= 4 {
        Some((u32_of(b), b.skip(4)))
    } else {
        None
    }
}

/// A 64-bit number is rejected where fewer than 8 bytes are left.
pub open spec fn dec_u64(b: Seq<u8>) -> Decoded<u64> {
    if b.len() >= 8 {
        Some((u64_of(b), b.skip(8)))
    } else {
        None
    }
}

/// A key is rejected where fewer than 32 bytes are left.
pub open spec fn dec_key(b: Seq<u8>) -> Decoded<[u8; 32]> {
    if b.len() >= 32 {
        Some((array32(b.take(32)), b.skip(32)))
    } else {
        None
    }
}

/// A text is rejected where its bytes run short or are not UTF-8.
pub open spec fn dec_text(b: Seq<u8>) -> Decoded<Seq<char>> {
    match dec_u32(b) {
        Some((n, r)) => if r.len() >= n && valid_utf8(r.take(n as int)) {
            Some((decode_utf8(r.take(n as int)), r.skip(n as int)))
        } else {
            None
        },
        None => None,
    }
}

/// The first `n` 32-byte items of a byte sequence.
pub open spec fn chunks(b: Seq<u8>, n: nat) -> Seq<[u8; 32]> {
    Seq::new(n, |i: int| array32(b.subrange(32 * i, 32 * i + 32)))
}

/// A list is rejected where its bytes run short.
pub open spec fn dec_list(b: Seq<u8>) -> Decoded<Seq<[u8; 32]>> {
    match dec_u32(b) {
        Some((n, r)) => if r.len() >= 32 * n {
            Some((chunks(r, n as nat), r.skip(32 * n)))
        } else {
            None
        },
        None => None,
    }
}

/// Joining byte sequences does not depend on where one starts.
pub proof fn lemma_join(a: Seq<u8>, b: Seq<u8>, c: Seq<u8>)
    ensures
        (a + b) + c == a + (b + c),
{
    assert((a + b) + c =~= a + (b + c));
}

// ---------------------------------------------------------------------------
// Each decoder undoes its encoder, and the other way round
// ---------------------------------------------------------------------------

/// A byte that was encoded is decoded, whatever follows it.
pub proof fn lemma_u8_enc_dec(v: u8, rest: Seq<u8>)
    ensures
        dec_u8(enc_u8(v) + rest) == Some((v, rest)),
{
    assert((enc_u8(v) + rest).skip(1) =~= rest);
}

/// What a byte was decoded from starts with its encoding.
pub proof fn lemma_u8_dec_enc(b: Seq<u8>)
    requires
        dec_u8(b) is Some,
    ensures
        b == enc_u8(value_of(dec_u8(b))) + rest_of(dec_u8(b)),
{
    assert(b =~= enc_u8(b[0]) + b.skip(1));
}

/// A flag that was encoded is decoded, whatever follows it.
pub proof fn lemma_bool_enc_dec(v: bool, rest: Seq<u8>)
    ensures
        dec_bool(enc_bool(v) + rest) == Some((v, rest)),
{
    assert((enc_bool(v) + rest).skip(1) =~= rest);
}

/// What a flag was decoded from starts with its encoding.
pub proof fn lemma_bool_dec_enc(b: Seq<u8>)
    requires
        dec_bool(b) is Some,
    ensures
        b == enc_bool(value_of(dec_bool(b))) + rest_of(dec_bool(b)),
{
    assert(b =~= enc_bool(b[0] == 1) + b.skip(1));
}

/// A 32-bit number takes 4 bytes.
pub proof fn lemma_u32_len(v: u32)
    ensures
        enc_u32(v).len() == 4,
{
}

/// The bytes of a 32-bit number give the number back.
pub proof fn lemma_u32_of_enc(v: u32)
    ensures
        u32_of(enc_u32(v)) == v,
{
    assert(v & 0xff < 256 && (v >> 8) & 0xff < 256 && (v >> 16) & 0xff < 256 && (v >> 24) & 0xff < 256)
        by (bit_vector);
    assert(v == (v & 0xff) | ((v >> 8) & 0xff) << 8 | ((v >> 16) & 0xff) << 16 | ((v >> 24) & 0xff) << 24)
        by (bit_vector);
}

/// The number of 4 bytes has these bytes.
pub proof fn lemma_enc_u32_of(b: Seq<u8>)
    requires
        b.len() >= 4,
    ensures
        enc_u32(u32_of(b)) == b.take(4),
{
    let b0 = b[0];
    let b1 = b[1];
    let b2 = b[2];
    let b3 = b[3];
    let v = (b0 as u32) | (b1 as u32) << 8 | (b2 as u32) << 16 | (b3 as u32) << 24;
    assert(v & 0xff == b0 as u32 && (v >> 8) & 0xff == b1 as u32 && (v >> 16) & 0xff == b2 as u32 && (v >> 24)
        & 0xff == b3 as u32) by (bit_vector)
        requires
            v == (b0 as u32) | (b1 as u32) << 8 | (b2 as u32) << 16 | (b3 as u32) << 24,
    ;
    assert(enc_u32(u32_of(b)) =~= b.take(4));
}

/// A 32-bit number that was encoded is decoded, whatever follows it.
pub proof fn lemma_u32_enc_dec(v: u32, rest: Seq<u8>)
    ensures
        dec_u32(enc_u32(v) + rest) == Some((v, rest)),
{
    let b = enc_u32(v) + rest;
    lemma_u32_of_enc(v);
    assert(b[0] == enc_u32(v)[0] && b[1] == enc_u32(v)[1] && b[2] == enc_u32(v)[2] && b[3] == enc_u32(v)[3]);
    assert(b.skip(4) =~= rest);
}

/// What a 32-bit number was decoded from starts with its encoding.
pub proof fn lemma_u32_dec_enc(b: Seq<u8>)
    requires
        dec_u32(b) is Some,
    ensures
        b == enc_u32(value_of(dec_u32(b))) + rest_of(dec_u32(b)),
{
    lemma_enc_u32_of(b);
    assert(b =~= b.take(4) + b.skip(4));
}

/// A 64-bit number takes 8 bytes.
pub proof fn lemma_u64_len(v: u64)
    ensures
        enc_u64(v).len() == 8,
{
}

/// The bytes of a 64-bit number give the number back.
pub proof fn lemma_u64_of_enc(v: u64)
    ensures
        u64_of(enc_u64(v)) == v,
{
    assert(v & 0xff < 256 && (v >> 8) & 0xff < 256 && (v >> 16) & 0xff < 256 && (v >> 24) & 0xff < 256 && (v
        >> 32) & 0xff < 256 && (v >> 40) & 0xff < 256 && (v >> 48) & 0xff < 256 && (v >> 56) & 0xff < 256)
        by (bit_vector);
    assert(v == (v & 0xff) | ((v >> 8) & 0xff) << 8 | ((v >> 16) & 0xff) << 16 | ((v >> 24) & 0xff) << 24 | ((v
        >> 32) & 0xff) << 32 | ((v >> 40) & 0xff) << 40 | ((v >> 48) & 0xff) << 48 | ((v >> 56) & 0xff) << 56)
        by (bit_vector);
}

/// The number of 8 bytes has these bytes.
pub proof fn lemma_enc_u64_of(b: Seq<u8>)
    requires
        b.len() >= 8,
    ensures
        enc_u64(u64_of(b)) == b.take(8),
{
    let b0 = b[0];
    let b1 = b[1];
    let b2 = b[2];
    let b3 = b[3];
    let b4 = b[4];
    let b5 = b[5];
    let b6 = b[6];
    let b7 = b[7];
    let v = (b0 as u64) | (b1 as u64) << 8 | (b2 as u64) << 16 | (b3 as u64) << 24 | (b4 as u64) << 32 | (
    b5 as u64) << 40 | (b6 as u64) << 48 | (b7 as u64) << 56;
    assert(v & 0xff == b0 as u64 && (v >> 8) & 0xff == b1 as u64 && (v >> 16) & 0xff == b2 as u64 && (v >> 24)
        & 0xff == b3 as u64 && (v >> 32) & 0xff == b4 as u64 && (v >> 40) & 0xff == b5 as u64 && (v >> 48) & 0xff
        == b6 as u64 && (v >> 56) & 0xff == b7 as u64) by (bit_vector)
        requires
            v == (b0 as u64) | (b1 as u64) << 8 | (b2 as u64) << 16 | (b3 as u64) << 24 | (b4 as u64) << 32 | (
            b5 as u64) << 40 | (b6 as u64) << 48 | (b7 as u64) << 56,
    ;
    assert(enc_u64(u64_of(b)) =~= b.take(8));
}

/// A 64-bit number that was encoded is decoded, whatever follows it.
pub proof fn lemma_u64_enc_dec(v: u64, rest: Seq<u8>)
    ensures
        dec_u64(enc_u64(v) + rest) == Some((v, rest)),
{
    let b = enc_u64(v) + rest;
    let e = enc_u64(v);
    lemma_u64_of_enc(v);
    assert(b[0] == e[0] && b[1] == e[1] && b[2] == e[2] && b[3] == e[3] && b[4] == e[4] && b[5] == e[5] && b[6]
        == e[6] && b[7] == e[7]);
    assert(b.skip(8) =~= rest);
}

/// What a 64-bit number was decoded from starts with its encoding.
pub proof fn lemma_u64_dec_enc(b: Seq<u8>)
    requires
        dec_u64(b) is Some,
    ensures
        b == enc_u64(value_of(dec_u64(b))) + rest_of(dec_u64(b)),
{
    lemma_enc_u64_of(b);
    assert(b =~= b.take(8) + b.skip(8));
}

/// A key that was encoded is decoded, whatever follows it.
pub proof fn lemma_key_enc_dec(k: [u8; 32], rest: Seq<u8>)
    ensures
        dec_key(enc_key(k) + rest) == Some((k, rest)),
{
    assert((enc_key(k) + rest).take(32) =~= k@);
    assert((enc_key(k) + rest).skip(32) =~= rest);
    lemma_array32_of_view(k);
}

/// What a key was decoded from starts with its encoding.
pub proof fn lemma_key_dec_enc(b: Seq<u8>)
    requires
        dec_key(b) is Some,
    ensures
        b == enc_key(value_of(dec_key(b))) + rest_of(dec_key(b)),
{
    lemma_array32(b.take(32));
    assert(b =~= b.take(32) + b.skip(32));
}

/// A text that was encoded is decoded, whatever follows it.
pub proof fn lemma_text_enc_dec(s: Seq<char>, rest: Seq<u8>)
    requires
        text_fits(s),
    ensures
        dec_text(enc_text(s) + rest) == Some((s, rest)),
{
    let bytes = encode_utf8(s);
    let n = bytes.len() as u32;
    assert(enc_text(s) + rest =~= enc_u32(n) + (bytes + rest));
    lemma_u32_enc_dec(n, bytes + rest);
    assert((bytes + rest).take(n as int) =~= bytes);
    assert((bytes + rest).skip(n as int) =~= rest);
    encode_utf8_valid_utf8(s);
    encode_utf8_decode_utf8(s);
}

/// What a text was decoded from starts with its encoding.
pub proof fn lemma_text_dec_enc(b: Seq<u8>)
    requires
        dec_text(b) is Some,
    ensures
        text_fits(value_of(dec_text(b))),
        b == enc_text(value_of(dec_text(b))) + rest_of(dec_text(b)),
{
    lemma_u32_dec_enc(b);
    let n = value_of(dec_u32(b));
    let r = rest_of(dec_u32(b));
    let bytes = r.take(n as int);
    decode_utf8_encode_utf8(bytes);
    assert(r =~= bytes + r.skip(n as int));
    assert(b =~= (enc_u32(n) + bytes) + r.skip(n as int));
}

/// The items that were cut from a byte sequence, one after the other, are
/// the bytes they were cut from.
pub proof fn lemma_flatten_chunks(b: Seq<u8>, n: nat)
    requires
        b.len() >= 32 * n,
    ensures
        flatten(chunks(b, n)) == b.take(32 * n as int),
{
    let v = chunks(b, n);
    assert forall|i: int| 0 <= i < 32 * n implies flatten(v)[i] == b[i] by {
        let q = i / 32;
        lemma_array32(b.subrange(32 * q, 32 * q + 32));
    }
    assert(flatten(v) =~= b.take(32 * n as int));
}

/// The items cut from the bytes of a list are the items of the list,
/// whatever follows the bytes.
pub proof fn lemma_chunks_flatten(v: Seq<[u8; 32]>, rest: Seq<u8>)
    ensures
        chunks(flatten(v) + rest, v.len()) == v,
{
    let b = flatten(v) + rest;
    assert forall|i: int| 0 <= i < v.len() implies chunks(b, v.len())[i] == v[i] by {
        assert(b.subrange(32 * i, 32 * i + 32) =~= v[i]@) by {
            assert forall|j: int| 0 <= j < 32 implies b.subrange(32 * i, 32 * i + 32)[j] == v[i]@[j] by {
                assert((32 * i + j) / 32 == i);
                assert((32 * i + j) % 32 == j);
            }
        }
        lemma_array32_of_view(v[i]);
    }
    assert(chunks(b, v.len()) =~= v);
}

/// A list that was encoded is decoded, whatever follows it.
pub proof fn lemma_list_enc_dec(v: Seq<[u8; 32]>, rest: Seq<u8>)
    requires
        list_fits(v),
    ensures
        dec_list(enc_list(v) + rest) == Some((v, rest)),
{
    let n = v.len() as u32;
    assert(enc_list(v) + rest =~= enc_u32(n) + (flatten(v) + rest));
    lemma_u32_enc_dec(n, flatten(v) + rest);
    lemma_chunks_flatten(v, rest);
    assert((flatten(v) + rest).skip(32 * n) =~= rest);
}

/// What a list was decoded from starts with its encoding.
pub proof fn lemma_list_dec_enc(b: Seq<u8>)
    requires
        dec_list(b) is Some,
    ensures
        list_fits(value_of(dec_list(b))),
        b == enc_list(value_of(dec_list(b))) + rest_of(dec_list(b)),
{
    lemma_u32_dec_enc(b);
    let n = value_of(dec_u32(b));
    let r = rest_of(dec_u32(b));
    lemma_flatten_chunks(r, n as nat);
    assert(r =~= r.take(32 * n) + r.skip(32 * n));
    assert(b =~= (enc_u32(n) + r.take(32 * n)) + r.skip(32 * n));
}

// ---------------------------------------------------------------------------
// Writing fields
// ---------------------------------------------------------------------------

/// Appends the bytes of a slice.
pub fn put_bytes(out: &mut Vec<u8>, src: &[u8])
    ensures
        final(out)@ == old(out)@ + src@,
{
    let mut i: usize = 0;
    while i < src.len()
        invariant
            i <= src.len(),
            out@ == old(out)@ + src@.take(i as int),
        decreases src.len() - i,
    {
        out.push(src[i]);
        assert(src@.take(i + 1) =~= src@.take(i as int).push(src@[i as int]));
        assert(out@ =~= old(out)@ + src@.take(i + 1));
        i += 1;
    }
    assert(src@.take(i as int) =~= src@);
}

/// Appends a byte.
pub fn put_u8(out: &mut Vec<u8>, v: u8)
    ensures
        final(out)@ == old(out)@ + enc_u8(v),
{
    out.push(v);
    assert(out@ =~= old(out)@ + enc_u8(v));
}

/// Appends a flag.
pub fn put_bool(out: &mut Vec<u8>, v: bool)
    ensures
        final(out)@ == old(out)@ + enc_bool(v),
{
    out.push(if v { 1u8 } else { 0u8 });
    assert(out@ =~= old(out)@ + enc_bool(v));
}

/// Appends a 32-bit number.
pub fn put_u32(out: &mut Vec<u8>, v: u32)
    ensures
        final(out)@ == old(out)@ + enc_u32(v),
{
    assert(v & 0xff < 256 && (v >> 8) & 0xff < 256 && (v >> 16) & 0xff < 256 && (v >> 24) & 0xff < 256)
        by (bit_vector);
    out.push((v & 0xff) as u8);
    out.push(((v >> 8) & 0xff) as u8);
    out.push(((v >> 16) & 0xff) as u8);
    out.push(((v >> 24) & 0xff) as u8);
    assert(out@ =~= old(out)@ + enc_u32(v));
}

/// Appends a 64-bit number.
pub fn put_u64(out: &mut Vec<u8>, v: u64)
    ensures
        final(out)@ == old(out)@ + enc_u64(v),
{
    assert(v & 0xff < 256 && (v >> 8) & 0xff < 256 && (v >> 16) & 0xff < 256 && (v >> 24) & 0xff < 256 && (v
        >> 32) & 0xff < 256 && (v >> 40) & 0xff < 256 && (v >> 48) & 0xff < 256 && (v >> 56) & 0xff < 256)
        by (bit_vector);
    out.push((v & 0xff) as u8);
    out.push(((v >> 8) & 0xff) as u8);
    out.push(((v >> 16) & 0xff) as u8);
    out.push(((v >> 24) & 0xff) as u8);
    out.push(((v >> 32) & 0xff) as u8);
    out.push(((v >> 40) & 0xff) as u8);
    out.push(((v >> 48) & 0xff) as u8);
    out.push(((v >> 56) & 0xff) as u8);
    assert(out@ =~= old(out)@ + enc_u64(v));
}

/// Appends a key or a commitment.
pub fn put_key(out: &mut Vec<u8>, k: &[u8; 32])
    ensures
        final(out)@ == old(out)@ + enc_key(*k),
{
    put_bytes(out, k.as_slice());
}

/// Appends a text, unless it is too long for the count: then nothing is
/// appended and the result is `false`.
pub fn put_text(out: &mut Vec<u8>, s: &str) -> (fits: bool)
    ensures
        fits == text_fits(s@),
        fits ==> final(out)@ == old(out)@ + enc_text(s@),
        !fits ==> final(out)@ == old(out)@,
{
    let bytes = s.as_bytes();
    if bytes.len() > u32::MAX as usize {
        return false;
    }
    let n: u32 = bytes.len() as u32;
    put_u32(out, n);
    put_bytes(out, bytes);
    assert(out@ =~= old(out)@ + enc_text(s@));
    true
}

/// Appends a list, unless it is too long for the count: then nothing is
/// appended and the result is `false`.
pub fn put_list(out: &mut Vec<u8>, v: &Vec<[u8; 32]>) -> (fits: bool)
    ensures
        fits == list_fits(v@),
        fits ==> final(out)@ == old(out)@ + enc_list(v@),
        !fits ==> final(out)@ == old(out)@,
{
    if v.len() > u32::MAX as usize {
        return false;
    }
    let n: u32 = v.len() as u32;
    put_u32(out, n);
    let ghost head = out@;
    let mut i: usize = 0;
    while i < v.len()
        invariant
            i <= v.len(),
            out@ == head + flatten(v@.take(i as int)),
        decreases v.len() - i,
    {
        put_key(out, &v[i]);
        proof {
            let before = v@.take(i as int);
            let after = v@.take(i + 1);
            assert forall|j: int| 0 <= j < 32 * (i + 1) implies flatten(after)[j] == (flatten(before) + v@[i as int]@)[j] by {
                if j < 32 * i {
                    assert(after[j / 32] == before[j / 32]);
                } else {
                    assert(j / 32 == i);
                    assert(j % 32 == j - 32 * i);
                }
            }
            assert(flatten(after) =~= flatten(before) + v@[i as int]@);
            assert(out@ =~= head + flatten(after));
        }
        i += 1;
    }
    assert(v@.take(i as int) =~= v@);
    assert(out@ =~= old(out)@ + enc_list(v@));
    true
}

// ---------------------------------------------------------------------------
// Reading fields
// ---------------------------------------------------------------------------

/// Reads the byte at `pos`, and gives the position after it.
pub fn read_u8(bytes: &[u8], pos: usize) -> (r: Option<(u8, usize)>)
    requires
        pos <= bytes.len(),
    ensures
        match r {
            Some((v, next)) => pos <= next <= bytes.len() && dec_u8(bytes@.skip(pos as int)) == Some(
                (v, bytes@.skip(next as int)),
            ),
            None => dec_u8(bytes@.skip(pos as int)) is None,
        },
{
    if bytes.len() - pos < 1 {
        return None;
    }
    assert(bytes@.skip(pos as int).skip(1) =~= bytes@.skip(pos + 1));
    Some((bytes[pos], pos + 1))
}

/// Reads the flag at `pos`, and gives the position after it.
pub fn read_bool(bytes: &[u8], pos: usize) -> (r: Option<(bool, usize)>)
    requires
        pos <= bytes.len(),
    ensures
        match r {
            Some((v, next)) => pos <= next <= bytes.len() && dec_bool(bytes@.skip(pos as int))
                == Some((v, bytes@.skip(next as int))),
            None => dec_bool(bytes@.skip(pos as int)) is None,
        },
{
    if bytes.len() - pos < 1 {
        return None;
    }
    let b = bytes[pos];
    if b > 1 {
        return None;
    }
    assert(bytes@.skip(pos as int).skip(1) =~= bytes@.skip(pos + 1));
    Some((b == 1, pos + 1))
}

/// Reads the 32-bit number at `pos`, and gives the position after it.
pub fn read_u32(bytes: &[u8], pos: usize) -> (r: Option<(u32, usize)>)
    requires
        pos <= bytes.len(),
    ensures
        match r {
            Some((v, next)) => pos <= next <= bytes.len() && dec_u32(bytes@.skip(pos as int)) == Some(
                (v, bytes@.skip(next as int)),
            ),
            None => dec_u32(bytes@.skip(pos as int)) is None,
        },
{
    if bytes.len() - pos < 4 {
        return None;
    }
    let v: u32 = (bytes[pos] as u32) | (bytes[pos + 1] as u32) << 8 | (bytes[pos + 2] as u32) << 16 | (bytes[pos
        + 3] as u32) << 24;
    assert(bytes@.skip(pos as int).skip(4) =~= bytes@.skip(pos + 4));
    Some((v, pos + 4))
}

/// Reads the 64-bit number at `pos`, and gives the position after it.
pub fn read_u64(bytes: &[u8], pos: usize) -> (r: Option<(u64, usize)>)
    requires
        pos <= bytes.len(),
    ensures
        match r {
            Some((v, next)) => pos <= next <= bytes.len() && dec_u64(bytes@.skip(pos as int)) == Some(
                (v, bytes@.skip(next as int)),
            ),
            None => dec_u64(bytes@.skip(pos as int)) is None,
        },
{
    if bytes.len() - pos < 8 {
        return None;
    }
    let v: u64 = (bytes[pos] as u64) | (bytes[pos + 1] as u64) << 8 | (bytes[pos + 2] as u64) << 16 | (bytes[pos
        + 3] as u64) << 24 | (bytes[pos + 4] as u64) << 32 | (bytes[pos + 5] as u64) << 40 | (bytes[pos + 6] as u64)
        << 48 | (bytes[pos + 7] as u64) << 56;
    assert(bytes@.skip(pos as int).skip(8) =~= bytes@.skip(pos + 8));
    Some((v, pos + 8))
}

/// Copies the 32 bytes that start at `pos`.
fn copy_key(bytes: &[u8], pos: usize) -> (k: [u8; 32])
    requires
        pos + 32 <= bytes.len(),
    ensures
        k@ == bytes@.subrange(pos as int, pos + 32),
{
    let mut k: [u8; 32] = [0u8; 32];
    let mut i: usize = 0;
    while i < 32
        invariant
            i <= 32,
            pos + 32 <= bytes.len(),
            forall|j: int| 0 <= j < i ==> k@[j] == bytes@[pos + j],
        decreases 32 - i,
    {
        k[i] = bytes[pos + i];
        i += 1;
    }
    assert(k@ =~= bytes@.subrange(pos as int, pos + 32));
    k
}

/// Reads the key at `pos`, and gives the position after it.
pub fn read_key(bytes: &[u8], pos: usize) -> (r: Option<([u8; 32], usize)>)
    requires
        pos <= bytes.len(),
    ensures
        match r {
            Some((v, next)) => pos <= next <= bytes.len() && dec_key(bytes@.skip(pos as int)) == Some(
                (v, bytes@.skip(next as int)),
            ),
            None => dec_key(bytes@.skip(pos as int)) is None,
        },
{
    if bytes.len() - pos < 32 {
        return None;
    }
    let k = copy_key(bytes, pos);
    proof {
        assert(bytes@.skip(pos as int).take(32) =~= bytes@.subrange(pos as int, pos + 32));
        assert(bytes@.skip(pos as int).skip(32) =~= bytes@.skip(pos + 32));
        lemma_array32_of_view(k);
    }
    Some((k, pos + 32))
}

/// Calls `String::from_utf8`: a text comes back exactly where the bytes are
/// valid UTF-8, and it is the text that they encode.
#[verifier::external_body]
fn string_from_utf8(bytes: Vec<u8>) -> (r: Option<String>)
    ensures
        r is Some <==> valid_utf8(bytes@),
        r is Some ==> r->0@ == decode_utf8(bytes@),
{
    String::from_utf8(bytes).ok()
}

/// Reads the text at `pos`, and gives the position after it.
pub fn read_text(bytes: &[u8], pos: usize) -> (r: Option<(String, usize)>)
    requires
        pos <= bytes.len(),
    ensures
        match r {
            Some((v, next)) => pos <= next <= bytes.len() && dec_text(bytes@.skip(pos as int)) == Some(
                (v@, bytes@.skip(next as int)),
            ),
            None => dec_text(bytes@.skip(pos as int)) is None,
        },
{
    let (n, start) = match read_u32(bytes, pos) {
        Some(found) => found,
        None => { return None; },
    };
    if bytes.len() - start < n as usize {
        return None;
    }
    let end: usize = start + n as usize;
    let raw = slice_to_vec(slice_subrange(bytes, start, end));
    proof {
        assert(bytes@.skip(start as int).take(n as int) =~= bytes@.subrange(start as int, end as int));
        assert(bytes@.skip(start as int).skip(n as int) =~= bytes@.skip(end as int));
    }
    match string_from_utf8(raw) {
        Some(text) => Some((text, end)),
        None => None,
    }
}

/// Reads the list at `pos`, and gives the position after it.
pub fn read_list(bytes: &[u8], pos: usize) -> (r: Option<(Vec<[u8; 32]>, usize)>)
    requires
        pos <= bytes.len(),
    ensures
        match r {
            Some((v, next)) => pos <= next <= bytes.len() && dec_list(bytes@.skip(pos as int)) == Some(
                (v@, bytes@.skip(next as int)),
            ),
            None => dec_list(bytes@.skip(pos as int)) is None,
        },
{
    let (n, start) = match read_u32(bytes, pos) {
        Some(found) => found,
        None => { return None; },
    };
    if (bytes.len() - start) / 32 < n as usize {
        return None;
    }
    let count: usize = n as usize;
    let ghost tail = bytes@.skip(start as int);
    let mut items: Vec<[u8; 32]> = Vec::new();
    let mut i: usize = 0;
    while i < count
        invariant
            i <= count,
            start + 32 * count <= bytes.len(),
            tail == bytes@.skip(start as int),
            items@ == chunks(tail, i as nat),
        decreases count - i,
    {
        let item = copy_key(bytes, start + 32 * i);
        proof {
            assert(tail.subrange(32 * i, 32 * i + 32) =~= item@);
            lemma_array32_of_view(item);
        }
        items.push(item);
        assert(items@ =~= chunks(tail, (i + 1) as nat));
        i += 1;
    }
    assert(tail.skip(32 * n) =~= bytes@.skip(start + 32 * count));
    Some((items, start + 32 * count))
}

} // verus!
