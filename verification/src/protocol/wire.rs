//! Integers on the wire.
//!
//! The X11 protocol carries 16- and 32-bit integers in the byte order that the
//! client announced at connection setup. The spec functions here say which bytes
//! stand for which integer, and the executable helpers read and write them.
use vstd::prelude::*;
use super::types::ByteOrder;

verus! {

/// The two bytes of `v` in `order`.
pub open spec fn u16_bytes(order: ByteOrder, v: u16) -> Seq<u8> {
    let lo = (v % 256) as u8;
    let hi = (v / 256) as u8;
    match order {
        ByteOrder::MSBFirst => seq![hi, lo],
        ByteOrder::LSBFirst => seq![lo, hi],
    }
}

/// The four bytes of `v` in `order`.
pub open spec fn u32_bytes(order: ByteOrder, v: u32) -> Seq<u8> {
    let b0 = (v % 256) as u8;
    let b1 = ((v / 256) % 256) as u8;
    let b2 = ((v / 65536) % 256) as u8;
    let b3 = (v / 16777216) as u8;
    match order {
        ByteOrder::MSBFirst => seq![b3, b2, b1, b0],
        ByteOrder::LSBFirst => seq![b0, b1, b2, b3],
    }
}

/// Whatever the order, a `u16` takes two bytes.
pub broadcast proof fn lemma_u16_bytes_len(order: ByteOrder, v: u16)
    ensures
        #[trigger] u16_bytes(order, v).len() == 2,
{
}

/// Whatever the order, a `u32` takes four bytes.
pub broadcast proof fn lemma_u32_bytes_len(order: ByteOrder, v: u32)
    ensures
        #[trigger] u32_bytes(order, v).len() == 4,
{
}

pub broadcast group group_wire_lengths {
    lemma_u16_bytes_len,
    lemma_u32_bytes_len,
}

/// The two's complement bit pattern of a signed 16-bit value.
pub open spec fn i16_as_u16(v: i16) -> u16 {
    if v >= 0 {
        v as u16
    } else {
        (v + 65536) as u16
    }
}

/// The signed value of a 16-bit two's complement bit pattern.
pub open spec fn u16_as_i16(v: u16) -> i16 {
    if v < 32768 {
        v as i16
    } else {
        (v - 65536) as i16
    }
}

/// The two bytes of the signed value `v` in `order`.
pub open spec fn i16_bytes(order: ByteOrder, v: i16) -> Seq<u8> {
    u16_bytes(order, i16_as_u16(v))
}

/// The unsigned 16-bit value of the bytes `b0 b1` read in `order`.
pub open spec fn u16_from(order: ByteOrder, b0: u8, b1: u8) -> u16 {
    match order {
        ByteOrder::MSBFirst => (b0 * 256 + b1) as u16,
        ByteOrder::LSBFirst => (b1 * 256 + b0) as u16,
    }
}

/// The unsigned 32-bit value of the bytes `b0 b1 b2 b3` read in `order`.
pub open spec fn u32_from(order: ByteOrder, b0: u8, b1: u8, b2: u8, b3: u8) -> u32 {
    match order {
        ByteOrder::MSBFirst => (b0 * 16777216 + b1 * 65536 + b2 * 256 + b3) as u32,
        ByteOrder::LSBFirst => (b3 * 16777216 + b2 * 65536 + b1 * 256 + b0) as u32,
    }
}

/// The unsigned 16-bit value at offset `off` of `s`.
pub open spec fn u16_at(order: ByteOrder, s: Seq<u8>, off: int) -> u16 {
    u16_from(order, s[off], s[off + 1])
}

/// The signed 16-bit value at offset `off` of `s`.
pub open spec fn i16_at(order: ByteOrder, s: Seq<u8>, off: int) -> i16 {
    u16_as_i16(u16_at(order, s, off))
}

/// The unsigned 32-bit value at offset `off` of `s`.
pub open spec fn u32_at(order: ByteOrder, s: Seq<u8>, off: int) -> u32 {
    u32_from(order, s[off], s[off + 1], s[off + 2], s[off + 3])
}

/// `n` zero bytes.
pub open spec fn zeros(n: nat) -> Seq<u8> {
    Seq::new(n, |i: int| 0u8)
}

/// `s` with the bytes from `off` on overwritten by `b`.
pub open spec fn splice(s: Seq<u8>, off: int, b: Seq<u8>) -> Seq<u8> {
    s.take(off) + b + s.skip(off + b.len())
}

/// The two byte orders write each integer's bytes in reverse of one another.
pub proof fn lemma_orders_reversed(a: u16, b: u32)
    ensures
        u16_bytes(ByteOrder::MSBFirst, a) == u16_bytes(ByteOrder::LSBFirst, a).reverse(),
        u32_bytes(ByteOrder::MSBFirst, b) == u32_bytes(ByteOrder::LSBFirst, b).reverse(),
{
    assert(u16_bytes(ByteOrder::MSBFirst, a) =~= u16_bytes(ByteOrder::LSBFirst, a).reverse());
    assert(u32_bytes(ByteOrder::MSBFirst, b) =~= u32_bytes(ByteOrder::LSBFirst, b).reverse());
}

/// Reading back the bytes of a `u16` gives the value.
pub proof fn lemma_u16_roundtrip(order: ByteOrder, v: u16)
    ensures
        u16_bytes(order, v).len() == 2,
        u16_from(order, u16_bytes(order, v)[0], u16_bytes(order, v)[1]) == v,
{
}

/// Reading back the bytes of a `u32` gives the value.
pub proof fn lemma_u32_roundtrip(order: ByteOrder, v: u32)
    ensures
        u32_bytes(order, v).len() == 4,
        u32_from(
            order,
            u32_bytes(order, v)[0],
            u32_bytes(order, v)[1],
            u32_bytes(order, v)[2],
            u32_bytes(order, v)[3],
        ) == v,
{
    assert((v % 256) + ((v / 256) % 256) * 256 + ((v / 65536) % 256) * 65536 + (v / 16777216)
        * 16777216 == v) by (bit_vector);
}

/// Reading back the bytes of an `i16` gives the value.
pub proof fn lemma_i16_roundtrip(order: ByteOrder, v: i16)
    ensures
        i16_bytes(order, v).len() == 2,
        u16_as_i16(u16_from(order, i16_bytes(order, v)[0], i16_bytes(order, v)[1])) == v,
{
    lemma_u16_roundtrip(order, i16_as_u16(v));
}

/// Where the two bytes of `v` lie at `off` in `s`, the `u16` read there is `v`.
pub proof fn lemma_u16_read(order: ByteOrder, s: Seq<u8>, off: int, v: u16)
    requires
        0 <= off,
        off + 2 <= s.len(),
        s.subrange(off, off + 2) == u16_bytes(order, v),
    ensures
        u16_at(order, s, off) == v,
{
    lemma_u16_roundtrip(order, v);
    assert(s[off] == s.subrange(off, off + 2)[0]);
    assert(s[off + 1] == s.subrange(off, off + 2)[1]);
}

/// Where the two bytes of `v` lie at `off` in `s`, the `i16` read there is `v`.
pub proof fn lemma_i16_read(order: ByteOrder, s: Seq<u8>, off: int, v: i16)
    requires
        0 <= off,
        off + 2 <= s.len(),
        s.subrange(off, off + 2) == i16_bytes(order, v),
    ensures
        i16_at(order, s, off) == v,
{
    lemma_i16_roundtrip(order, v);
    assert(s[off] == s.subrange(off, off + 2)[0]);
    assert(s[off + 1] == s.subrange(off, off + 2)[1]);
}

/// Where the four bytes of `v` lie at `off` in `s`, the `u32` read there is `v`.
pub proof fn lemma_u32_read(order: ByteOrder, s: Seq<u8>, off: int, v: u32)
    requires
        0 <= off,
        off + 4 <= s.len(),
        s.subrange(off, off + 4) == u32_bytes(order, v),
    ensures
        u32_at(order, s, off) == v,
{
    lemma_u32_roundtrip(order, v);
    assert(s[off] == s.subrange(off, off + 4)[0]);
    assert(s[off + 1] == s.subrange(off, off + 4)[1]);
    assert(s[off + 2] == s.subrange(off, off + 4)[2]);
    assert(s[off + 3] == s.subrange(off, off + 4)[3]);
}

pub fn u16_to_i16(v: u16) -> (r: i16)
    ensures
        r == u16_as_i16(v),
{
    if v < 32768 {
        v as i16
    } else {
        ((v - 32768) as i16) + i16::MIN
    }
}

pub fn i16_to_u16(v: i16) -> (r: u16)
    ensures
        r == i16_as_u16(v),
{
    if v >= 0 {
        v as u16
    } else {
        ((v as i32) + 65536) as u16
    }
}

/// The unsigned 16-bit value at `off` in `s`.
pub fn read_u16_at(order: ByteOrder, s: &[u8], off: usize) -> (r: u16)
    requires
        off + 2 <= s@.len(),
    ensures
        r == u16_at(order, s@, off as int),
{
    let b0 = s[off] as u16;
    let b1 = s[off + 1] as u16;
    match order {
        ByteOrder::MSBFirst => b0 * 256 + b1,
        ByteOrder::LSBFirst => b1 * 256 + b0,
    }
}

/// The signed 16-bit value at `off` in `s`.
pub fn read_i16_at(order: ByteOrder, s: &[u8], off: usize) -> (r: i16)
    requires
        off + 2 <= s@.len(),
    ensures
        r == i16_at(order, s@, off as int),
{
    u16_to_i16(read_u16_at(order, s, off))
}

/// The unsigned 32-bit value at `off` in `s`.
pub fn read_u32_at(order: ByteOrder, s: &[u8], off: usize) -> (r: u32)
    requires
        off + 4 <= s@.len(),
    ensures
        r == u32_at(order, s@, off as int),
{
    let b0 = s[off] as u32;
    let b1 = s[off + 1] as u32;
    let b2 = s[off + 2] as u32;
    let b3 = s[off + 3] as u32;
    match order {
        ByteOrder::MSBFirst => b0 * 16777216 + b1 * 65536 + b2 * 256 + b3,
        ByteOrder::LSBFirst => b3 * 16777216 + b2 * 65536 + b1 * 256 + b0,
    }
}

/// Appends the bytes of `v` in `order`.
pub fn push_u16(buf: &mut Vec<u8>, order: ByteOrder, v: u16)
    ensures
        final(buf)@ == old(buf)@ + u16_bytes(order, v),
{
    let lo = (v % 256) as u8;
    let hi = (v / 256) as u8;
    match order {
        ByteOrder::MSBFirst => {
            buf.push(hi);
            buf.push(lo);
        },
        ByteOrder::LSBFirst => {
            buf.push(lo);
            buf.push(hi);
        },
    }
    assert(buf@ =~= old(buf)@ + u16_bytes(order, v));
}

/// Appends the bytes of the signed value `v` in `order`.
pub fn push_i16(buf: &mut Vec<u8>, order: ByteOrder, v: i16)
    ensures
        final(buf)@ == old(buf)@ + i16_bytes(order, v),
{
    push_u16(buf, order, i16_to_u16(v));
}

/// Appends the bytes of `v` in `order`.
pub fn push_u32(buf: &mut Vec<u8>, order: ByteOrder, v: u32)
    ensures
        final(buf)@ == old(buf)@ + u32_bytes(order, v),
{
    let b0 = (v % 256) as u8;
    let b1 = ((v / 256) % 256) as u8;
    let b2 = ((v / 65536) % 256) as u8;
    let b3 = (v / 16777216) as u8;
    match order {
        ByteOrder::MSBFirst => {
            buf.push(b3);
            buf.push(b2);
            buf.push(b1);
            buf.push(b0);
        },
        ByteOrder::LSBFirst => {
            buf.push(b0);
            buf.push(b1);
            buf.push(b2);
            buf.push(b3);
        },
    }
    assert(buf@ =~= old(buf)@ + u32_bytes(order, v));
}

/// Appends `n` zero bytes.
pub fn push_zeros(buf: &mut Vec<u8>, n: usize)
    ensures
        final(buf)@ == old(buf)@ + zeros(n as nat),
{
    let mut i: usize = 0;
    while i < n
        invariant
            i <= n,
            buf@ =~= old(buf)@ + zeros(i as nat),
        decreases n - i,
    {
        buf.push(0u8);
        i = i + 1;
        assert(buf@ =~= old(buf)@ + zeros(i as nat));
    }
}

/// Appends the bytes of `bytes`.
pub fn push_bytes(buf: &mut Vec<u8>, bytes: &[u8])
    ensures
        final(buf)@ == old(buf)@ + bytes@,
{
    let mut i: usize = 0;
    while i < bytes.len()
        invariant
            i <= bytes@.len(),
            buf@ =~= old(buf)@ + bytes@.take(i as int),
        decreases bytes@.len() - i,
    {
        buf.push(bytes[i]);
        i = i + 1;
        assert(buf@ =~= old(buf)@ + bytes@.take(i as int));
    }
    assert(bytes@.take(bytes@.len() as int) =~= bytes@);
}

/// Writes the byte `v` at `off`.
pub fn put_u8(buf: &mut [u8], off: usize, v: u8)
    requires
        off < old(buf)@.len(),
    ensures
        final(buf)@ == splice(old(buf)@, off as int, seq![v]),
{
    buf[off] = v;
    assert(buf@ =~= splice(old(buf)@, off as int, seq![v]));
}

/// Writes the bytes of `v` in `order` at `off`.
pub fn put_u16(buf: &mut [u8], off: usize, order: ByteOrder, v: u16)
    requires
        off + 2 <= old(buf)@.len(),
    ensures
        final(buf)@ == splice(old(buf)@, off as int, u16_bytes(order, v)),
{
    let lo = (v % 256) as u8;
    let hi = (v / 256) as u8;
    match order {
        ByteOrder::MSBFirst => {
            buf[off] = hi;
            buf[off + 1] = lo;
        },
        ByteOrder::LSBFirst => {
            buf[off] = lo;
            buf[off + 1] = hi;
        },
    }
    assert(buf@ =~= splice(old(buf)@, off as int, u16_bytes(order, v)));
}

/// Writes the bytes of the signed value `v` in `order` at `off`.
pub fn put_i16(buf: &mut [u8], off: usize, order: ByteOrder, v: i16)
    requires
        off + 2 <= old(buf)@.len(),
    ensures
        final(buf)@ == splice(old(buf)@, off as int, i16_bytes(order, v)),
{
    put_u16(buf, off, order, i16_to_u16(v));
}

/// Writes the bytes of `v` in `order` at `off`.
pub fn put_u32(buf: &mut [u8], off: usize, order: ByteOrder, v: u32)
    requires
        off + 4 <= old(buf)@.len(),
    ensures
        final(buf)@ == splice(old(buf)@, off as int, u32_bytes(order, v)),
{
    let b0 = (v % 256) as u8;
    let b1 = ((v / 256) % 256) as u8;
    let b2 = ((v / 65536) % 256) as u8;
    let b3 = (v / 16777216) as u8;
    match order {
        ByteOrder::MSBFirst => {
            buf[off] = b3;
            buf[off + 1] = b2;
            buf[off + 2] = b1;
            buf[off + 3] = b0;
        },
        ByteOrder::LSBFirst => {
            buf[off] = b0;
            buf[off + 1] = b1;
            buf[off + 2] = b2;
            buf[off + 3] = b3;
        },
    }
    assert(buf@ =~= splice(old(buf)@, off as int, u32_bytes(order, v)));
}

/// Copies `bytes` into `buf` starting at `off`.
pub fn put_bytes(buf: &mut [u8], off: usize, bytes: &[u8])
    requires
        off + bytes@.len() <= old(buf)@.len(),
    ensures
        final(buf)@ == splice(old(buf)@, off as int, bytes@),
{
    let total = buf.len();
    let mut i: usize = 0;
    while i < bytes.len()
        invariant
            i <= bytes@.len(),
            total == old(buf)@.len(),
            off + bytes@.len() <= total,
            buf@.len() == old(buf)@.len(),
            buf@ =~= splice(old(buf)@, off as int, bytes@.take(i as int)),
        decreases bytes@.len() - i,
    {
        buf[off + i] = bytes[i];
        i = i + 1;
        assert(buf@ =~= splice(old(buf)@, off as int, bytes@.take(i as int)));
    }
    assert(bytes@.take(bytes@.len() as int) =~= bytes@);
}

/// Sets every byte of `buf` to zero.
pub fn fill_zero(buf: &mut [u8])
    ensures
        final(buf)@ == zeros(old(buf)@.len()),
{
    let mut i: usize = 0;
    while i < buf.len()
        invariant
            i <= buf@.len(),
            buf@.len() == old(buf)@.len(),
            forall|j: int| 0 <= j < i ==> buf@[j] == 0u8,
        decreases buf@.len() - i,
    {
        buf[i] = 0u8;
        i = i + 1;
    }
    assert(buf@ =~= zeros(old(buf)@.len()));
}

/// The text that `String::from_utf8_lossy` makes of `bytes`: their UTF-8 decoding,
/// with each invalid sequence replaced by U+FFFD.
pub uninterp spec fn lossy_utf8(bytes: Seq<u8>) -> Seq<char>;

/// The text that bytes stand for, read leniently: their UTF-8 decoding where they
/// are valid UTF-8, and otherwise what the lenient reading makes of them
/// (`lossy_utf8`).
pub open spec fn text_of(bytes: Seq<u8>) -> Seq<char> {
    if vstd::utf8::valid_utf8(bytes) {
        vstd::utf8::decode_utf8(bytes)
    } else {
        lossy_utf8(bytes)
    }
}

/// `String::from_utf8_lossy`, made into an owned `String`. Its result is named
/// `lossy_utf8` of the bytes; as the standard library documents, bytes that are valid
/// UTF-8 give exactly their decoding.
#[verifier::external_body]
pub(crate) fn string_from_utf8_lossy(bytes: &[u8]) -> (s: String)
    ensures
        s@ == lossy_utf8(bytes@),
        vstd::utf8::valid_utf8(bytes@) ==> s@ == vstd::utf8::decode_utf8(bytes@),
{
    String::from_utf8_lossy(bytes).into_owned()
}

/// The decimal digits of `n`, most significant first; "0" for zero.
pub open spec fn decimal_digits(n: nat) -> Seq<char>
    decreases n,
{
    if n < 10 {
        seq![(n + 48) as char]
    } else {
        decimal_digits(n / 10).push(((n % 10) + 48) as char)
    }
}

/// The number in decimal (see `decimal_digits`), as `usize::to_string` writes it.
pub(crate) fn decimal_string(n: usize) -> (s: String)
    ensures
        s@ == decimal_digits(n as nat),
    decreases n,
{
    if n < 10 {
        hex_digit_text(n as u32).to_string()
    } else {
        let high = decimal_string(n / 10);
        high.concat(hex_digit_text((n % 10) as u32))
    }
}

/// The lower-case hexadecimal digit of `d`, for `d` below 16.
pub open spec fn hex_char(d: nat) -> char {
    if d < 10 {
        (d + 48) as char
    } else {
        (d + 87) as char
    }
}

/// The lowest `n` hexadecimal digits of `v`, most significant first, in lower case:
/// what `{:0n$x}` writes for a value below 16 to the power `n`.
pub open spec fn hex_digits(v: nat, n: nat) -> Seq<char>
    decreases n,
{
    if n == 0 {
        Seq::empty()
    } else {
        hex_digits(v / 16, (n - 1) as nat).push(hex_char(v % 16))
    }
}

/// The text of one hexadecimal digit.
fn hex_digit_text(d: u32) -> (s: &'static str)
    requires
        d < 16,
    ensures
        s@ == seq![hex_char(d as nat)],
{
    match d {
        0 => {
            proof { reveal_strlit("0"); }
            "0"
        },
        1 => {
            proof { reveal_strlit("1"); }
            "1"
        },
        2 => {
            proof { reveal_strlit("2"); }
            "2"
        },
        3 => {
            proof { reveal_strlit("3"); }
            "3"
        },
        4 => {
            proof { reveal_strlit("4"); }
            "4"
        },
        5 => {
            proof { reveal_strlit("5"); }
            "5"
        },
        6 => {
            proof { reveal_strlit("6"); }
            "6"
        },
        7 => {
            proof { reveal_strlit("7"); }
            "7"
        },
        8 => {
            proof { reveal_strlit("8"); }
            "8"
        },
        9 => {
            proof { reveal_strlit("9"); }
            "9"
        },
        10 => {
            proof { reveal_strlit("a"); }
            "a"
        },
        11 => {
            proof { reveal_strlit("b"); }
            "b"
        },
        12 => {
            proof { reveal_strlit("c"); }
            "c"
        },
        13 => {
            proof { reveal_strlit("d"); }
            "d"
        },
        14 => {
            proof { reveal_strlit("e"); }
            "e"
        },
        _ => {
            proof { reveal_strlit("f"); }
            "f"
        },
    }
}

/// The lowest `n` hexadecimal digits of `v` as text (see `hex_digits`).
pub(crate) fn hex_string(v: u32, n: usize) -> (s: String)
    ensures
        s@ == hex_digits(v as nat, n as nat),
    decreases n,
{
    if n == 0 {
        proof { reveal_strlit(""); }
        "".to_string()
    } else {
        let high = hex_string(v / 16, n - 1);
        high.concat(hex_digit_text(v % 16))
    }
}

} // verus!
