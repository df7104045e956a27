//! Integers in little-endian and big-endian byte order.
//!
//! A read of fewer bytes than the integer has takes the missing ones as zero; a write to
//! a shorter buffer writes what fits.
use vstd::prelude::*;

verus! {

/// Byte `i` of `s`, or zero past its end.
pub open spec fn byte_at(s: Seq<u8>, i: int) -> int {
    if 0 <= i < s.len() {
        s[i] as int
    } else {
        0
    }
}

pub open spec fn le_u16(s: Seq<u8>) -> u16 {
    (byte_at(s, 0) + 0x100 * byte_at(s, 1)) as u16
}

pub open spec fn le_u32(s: Seq<u8>) -> u32 {
    (byte_at(s, 0) + 0x100 * byte_at(s, 1) + 0x1_0000 * byte_at(s, 2) + 0x100_0000 * byte_at(
        s,
        3,
    )) as u32
}

pub open spec fn le_u64(s: Seq<u8>) -> u64 {
    (le_u32(s) + 0x1_0000_0000 * le_u32(tail(s, 4))) as u64
}

pub open spec fn be_u16(s: Seq<u8>) -> u16 {
    (0x100 * byte_at(s, 0) + byte_at(s, 1)) as u16
}

pub open spec fn be_u32(s: Seq<u8>) -> u32 {
    (0x100_0000 * byte_at(s, 0) + 0x1_0000 * byte_at(s, 1) + 0x100 * byte_at(s, 2) + byte_at(
        s,
        3,
    )) as u32
}

/// What is left of `s` behind its first `n` bytes.
pub open spec fn tail(s: Seq<u8>, n: int) -> Seq<u8> {
    if n <= s.len() {
        s.skip(n)
    } else {
        Seq::empty()
    }
}

/// The signed integer with the bits of `n`.
pub open spec fn signed(n: u32) -> i32 {
    if n < 0x8000_0000 {
        n as i32
    } else {
        (n - 0x1_0000_0000) as i32
    }
}

/// The unsigned integer with the bits of `n`.
pub open spec fn unsigned(n: i32) -> u32 {
    if n >= 0 {
        n as u32
    } else {
        (n + 0x1_0000_0000) as u32
    }
}

/// The byte with the bits of `b`.
pub open spec fn unsigned_byte(b: i8) -> u8 {
    if b >= 0 {
        b as u8
    } else {
        (b + 0x100) as u8
    }
}

/// The signed byte with the bits of `b`.
pub open spec fn signed_byte(b: u8) -> i8 {
    if b < 0x80 {
        b as i8
    } else {
        (b - 0x100) as i8
    }
}

pub open spec fn unsigned_bytes(s: Seq<i8>) -> Seq<u8> {
    s.map_values(|b: i8| unsigned_byte(b))
}

pub open spec fn le16_bytes(n: u16) -> Seq<u8> {
    seq![(n % 0x100) as u8, (n / 0x100) as u8]
}

pub open spec fn le32_bytes(n: u32) -> Seq<u8> {
    seq![
        (n % 0x100) as u8,
        (n / 0x100 % 0x100) as u8,
        (n / 0x1_0000 % 0x100) as u8,
        (n / 0x100_0000) as u8,
    ]
}

pub open spec fn le64_bytes(n: u64) -> Seq<u8> {
    le32_bytes((n % 0x1_0000_0000) as u32) + le32_bytes((n / 0x1_0000_0000) as u32)
}

pub open spec fn be16_bytes(n: u16) -> Seq<u8> {
    seq![(n / 0x100) as u8, (n % 0x100) as u8]
}

pub open spec fn be32_bytes(n: u32) -> Seq<u8> {
    seq![
        (n / 0x100_0000) as u8,
        (n / 0x1_0000 % 0x100) as u8,
        (n / 0x100 % 0x100) as u8,
        (n % 0x100) as u8,
    ]
}

/// So many zero bytes.
pub open spec fn zeros(n: nat) -> Seq<u8> {
    Seq::new(n, |i: int| 0u8)
}

/// `buf` with `data` written over it from `at` on, as far as it fits.
pub open spec fn overlay<T>(buf: Seq<T>, at: int, data: Seq<T>) -> Seq<T> {
    Seq::new(
        buf.len(),
        |i: int|
            if at <= i < at + data.len() {
                data[i - at]
            } else {
                buf[i]
            },
    )
}

fn byte_or_zero(input: &[u8], i: usize) -> (res: u8)
    ensures
        res == byte_at(input@, i as int),
{
    if i < input.len() {
        input[i]
    } else {
        0
    }
}

/// The bytes of `n`, lowest first.
pub fn le16_array(n: u16) -> (res: [u8; 2])
    ensures
        res@ == le16_bytes(n),
{
    let res: [u8; 2] = [(n % 0x100) as u8, (n / 0x100) as u8];
    assert(res@ =~= le16_bytes(n));
    res
}

/// The bytes of `n`, lowest first.
pub fn le32_array(n: u32) -> (res: [u8; 4])
    ensures
        res@ == le32_bytes(n),
{
    let res: [u8; 4] = [
        (n % 0x100) as u8,
        (n / 0x100 % 0x100) as u8,
        (n / 0x1_0000 % 0x100) as u8,
        (n / 0x100_0000) as u8,
    ];
    assert(res@ =~= le32_bytes(n));
    res
}

/// The bytes of `n`, lowest first.
pub fn le64_array(n: u64) -> (res: [u8; 8])
    ensures
        res@ == le64_bytes(n),
{
    let lo: [u8; 4] = le32_array((n % 0x1_0000_0000) as u32);
    let hi: [u8; 4] = le32_array((n / 0x1_0000_0000) as u32);
    let res: [u8; 8] = [lo[0], lo[1], lo[2], lo[3], hi[0], hi[1], hi[2], hi[3]];
    assert(res@ =~= le64_bytes(n));
    res
}

/// Writes `data` over `buf` from `at` on, as far as it fits.
pub fn put(buf: &mut [u8], at: usize, data: &[u8])
    ensures
        final(buf)@ == overlay(old(buf)@, at as int, data@),
{
    let ghost before = buf@;
    let size: usize = buf.len();
    let mut i: usize = 0;
    while i < data.len() && at < size && i < size - at
        invariant
            i <= data@.len(),
            size == buf@.len(),
            buf@ == overlay(before, at as int, data@.take(i as int)),
        decreases data@.len() - i,
    {
        buf[at + i] = data[i];
        i += 1;
        assert(buf@ =~= overlay(before, at as int, data@.take(i as int)));
    }
    assert(buf@ =~= overlay(before, at as int, data@));
}

pub fn read_le_u16(input: &[u8]) -> (res: u16)
    ensures
        res == le_u16(input@),
{
    byte_or_zero(input, 0) as u16 + 0x100 * byte_or_zero(input, 1) as u16
}

pub fn read_le_u32(input: &[u8]) -> (res: u32)
    ensures
        res == le_u32(input@),
{
    byte_or_zero(input, 0) as u32 + 0x100 * byte_or_zero(input, 1) as u32 + 0x1_0000
        * byte_or_zero(input, 2) as u32 + 0x100_0000 * byte_or_zero(input, 3) as u32
}

pub fn read_le_u64(input: &[u8]) -> (res: u64)
    ensures
        res == le_u64(input@),
{
    let lo: u64 = byte_or_zero(input, 0) as u64 + 0x100 * byte_or_zero(input, 1) as u64 + 0x1_0000
        * byte_or_zero(input, 2) as u64 + 0x100_0000 * byte_or_zero(input, 3) as u64;
    let hi: u64 = byte_or_zero(input, 4) as u64 + 0x100 * byte_or_zero(input, 5) as u64 + 0x1_0000
        * byte_or_zero(input, 6) as u64 + 0x100_0000 * byte_or_zero(input, 7) as u64;
    lo + 0x1_0000_0000 * hi
}

pub fn read_be_u16(input: &[u8]) -> (res: u16)
    ensures
        res == be_u16(input@),
{
    0x100 * byte_or_zero(input, 0) as u16 + byte_or_zero(input, 1) as u16
}

pub fn read_be_u32(input: &[u8]) -> (res: u32)
    ensures
        res == be_u32(input@),
{
    0x100_0000 * byte_or_zero(input, 0) as u32 + 0x1_0000 * byte_or_zero(input, 1) as u32 + 0x100
        * byte_or_zero(input, 2) as u32 + byte_or_zero(input, 3) as u32
}

/// The signed integer with the bits of `n`.
pub fn to_signed(n: u32) -> (res: i32)
    ensures
        res == signed(n),
{
    if n < 0x8000_0000 {
        n as i32
    } else {
        (n as i64 - 0x1_0000_0000) as i32
    }
}

/// The unsigned integer with the bits of `n`.
pub fn to_unsigned(n: i32) -> (res: u32)
    ensures
        res == unsigned(n),
{
    if n >= 0 {
        n as u32
    } else {
        (n as i64 + 0x1_0000_0000) as u32
    }
}

fn to_unsigned_byte(b: i8) -> (res: u8)
    ensures
        res == unsigned_byte(b),
{
    if b >= 0 {
        b as u8
    } else {
        (b as i16 + 0x100) as u8
    }
}

fn to_signed_byte(b: u8) -> (res: i8)
    ensures
        res == signed_byte(b),
{
    if b < 0x80 {
        b as i8
    } else {
        (b as i16 - 0x100) as i8
    }
}

pub fn read_le_i32(input: &[i8]) -> (res: i32)
    ensures
        res == signed(le_u32(unsigned_bytes(input@))),
{
    let mut bytes: Vec<u8> = Vec::new();
    let mut i: usize = 0;
    while i < input.len()
        invariant
            i <= input@.len(),
            bytes@ == unsigned_bytes(input@.take(i as int)),
        decreases input@.len() - i,
    {
        bytes.push(to_unsigned_byte(input[i]));
        proof {
            assert(input@.take(i + 1) =~= input@.take(i as int).push(input@[i as int]));
        }
        i += 1;
    }
    proof {
        assert(input@.take(i as int) =~= input@);
    }
    to_signed(read_le_u32(bytes.as_slice()))
}

/// Copies `data` over the start of `buf`, as far as it fits.
fn copy_over(buf: &mut [u8], data: &[u8])
    ensures
        final(buf)@ == overlay(old(buf)@, 0, data@),
{
    let mut i: usize = 0;
    while i < buf.len() && i < data.len()
        invariant
            i <= buf@.len(),
            i <= data@.len(),
            buf@.len() == old(buf)@.len(),
            buf@ == overlay(old(buf)@, 0, data@.take(i as int)),
        decreases buf@.len() - i,
    {
        buf[i] = data[i];
        i += 1;
    }
}

pub fn write_le_u16(buf: &mut [u8], n: u16)
    ensures
        final(buf)@ == overlay(old(buf)@, 0, le16_bytes(n)),
{
    let bytes: [u8; 2] = [(n % 0x100) as u8, (n / 0x100) as u8];
    proof {
        assert(bytes@ =~= le16_bytes(n));
    }
    copy_over(buf, &bytes);
}

pub fn write_le_u32(buf: &mut [u8], n: u32)
    ensures
        final(buf)@ == overlay(old(buf)@, 0, le32_bytes(n)),
{
    let bytes: [u8; 4] = [
        (n % 0x100) as u8,
        (n / 0x100 % 0x100) as u8,
        (n / 0x1_0000 % 0x100) as u8,
        (n / 0x100_0000) as u8,
    ];
    proof {
        assert(bytes@ =~= le32_bytes(n));
    }
    copy_over(buf, &bytes);
}

pub fn write_le_u64(buf: &mut [u8], n: u64)
    ensures
        final(buf)@ == overlay(old(buf)@, 0, le64_bytes(n)),
{
    let lo: u32 = (n % 0x1_0000_0000) as u32;
    let hi: u32 = (n / 0x1_0000_0000) as u32;
    let bytes: [u8; 8] = [
        (lo % 0x100) as u8,
        (lo / 0x100 % 0x100) as u8,
        (lo / 0x1_0000 % 0x100) as u8,
        (lo / 0x100_0000) as u8,
        (hi % 0x100) as u8,
        (hi / 0x100 % 0x100) as u8,
        (hi / 0x1_0000 % 0x100) as u8,
        (hi / 0x100_0000) as u8,
    ];
    proof {
        assert(bytes@ =~= le64_bytes(n));
    }
    copy_over(buf, &bytes);
}

pub fn write_be_u16(buf: &mut [u8], n: u16)
    ensures
        final(buf)@ == overlay(old(buf)@, 0, be16_bytes(n)),
{
    let bytes: [u8; 2] = [(n / 0x100) as u8, (n % 0x100) as u8];
    proof {
        assert(bytes@ =~= be16_bytes(n));
    }
    copy_over(buf, &bytes);
}

pub fn write_be_u32(buf: &mut [u8], n: u32)
    ensures
        final(buf)@ == overlay(old(buf)@, 0, be32_bytes(n)),
{
    let bytes: [u8; 4] = [
        (n / 0x100_0000) as u8,
        (n / 0x1_0000 % 0x100) as u8,
        (n / 0x100 % 0x100) as u8,
        (n % 0x100) as u8,
    ];
    proof {
        assert(bytes@ =~= be32_bytes(n));
    }
    copy_over(buf, &bytes);
}

pub fn write_le_i32(buf: &mut [i8], n: i32)
    ensures
        final(buf)@ == overlay(
            old(buf)@,
            0,
            le32_bytes(unsigned(n)).map_values(|b: u8| signed_byte(b)),
        ),
{
    let bytes: [u8; 4] = le32_array(to_unsigned(n));
    let ghost signed_bytes = le32_bytes(unsigned(n)).map_values(|b: u8| signed_byte(b));
    let mut i: usize = 0;
    while i < buf.len() && i < 4
        invariant
            i <= buf@.len(),
            i <= 4,
            bytes@ == le32_bytes(unsigned(n)),
            signed_bytes == le32_bytes(unsigned(n)).map_values(|b: u8| signed_byte(b)),
            buf@.len() == old(buf)@.len(),
            buf@ == overlay(old(buf)@, 0, signed_bytes.take(i as int)),
        decreases buf@.len() - i,
    {
        buf[i] = to_signed_byte(bytes[i]);
        i += 1;
    }
}

/// Reading back a 16-bit write gives the value written, in either byte order.
pub proof fn write_then_read_u16(buf: Seq<u8>, n: u16)
    requires
        buf.len() >= 2,
    ensures
        le_u16(overlay(buf, 0, le16_bytes(n))) == n,
        be_u16(overlay(buf, 0, be16_bytes(n))) == n,
{
}

/// Reading back a 32-bit write gives the value written, in either byte order.
pub proof fn write_then_read_u32(buf: Seq<u8>, n: u32)
    requires
        buf.len() >= 4,
    ensures
        le_u32(overlay(buf, 0, le32_bytes(n))) == n,
        be_u32(overlay(buf, 0, be32_bytes(n))) == n,
{
}

/// Reading back a 64-bit write gives the value written.
pub proof fn write_then_read_u64(buf: Seq<u8>, n: u64)
    requires
        buf.len() >= 8,
    ensures
        le_u64(overlay(buf, 0, le64_bytes(n))) == n,
{
    let lo = (n % 0x1_0000_0000) as u32;
    let hi = (n / 0x1_0000_0000) as u32;
    let out = overlay(buf, 0, le64_bytes(n));
    assert(le_u32(out) == lo) by {
        write_then_read_u32(buf, lo);
        assert(forall|i: int| 0 <= i < 4 ==> out[i] == le32_bytes(lo)[i]);
    }
    assert(le_u32(tail(out, 4)) == hi) by {
        write_then_read_u32(tail(buf, 4), hi);
        assert(forall|i: int| 0 <= i < 4 ==> tail(out, 4)[i] == le32_bytes(hi)[i]);
    }
}

/// Reading back a signed 32-bit write gives the value written.
pub proof fn write_then_read_i32(buf: Seq<i8>, n: i32)
    requires
        buf.len() >= 4,
    ensures
        signed(
            le_u32(
                unsigned_bytes(
                    overlay(
                        buf,
                        0,
                        le32_bytes(unsigned(n)).map_values(|b: u8| signed_byte(b)),
                    ),
                ),
            ),
        ) == n,
{
    let bits = unsigned(n);
    let out = overlay(buf, 0, le32_bytes(bits).map_values(|b: u8| signed_byte(b)));
    write_then_read_u32(unsigned_bytes(buf), bits);
    assert(forall|i: int| 0 <= i < 4 ==> unsigned_bytes(out)[i] == le32_bytes(bits)[i]);
}

/// A byte counts for what its place says: little-endian numbers have their first byte count
/// once, big-endian ones their last. Bytes that are not there count as zero.
pub proof fn bytes_count_by_their_place(s: Seq<u8>)
    ensures
        s.len() >= 2 ==> le_u16(s) == s[0] + 256 * s[1],
        s.len() >= 2 ==> be_u16(s) == 256 * s[0] + s[1],
        s.len() >= 4 ==> le_u32(s) == s[0] + 256 * s[1] + 65536 * s[2] + 16777216 * s[3],
        s.len() >= 4 ==> be_u32(s) == 16777216 * s[0] + 65536 * s[1] + 256 * s[2] + s[3],
        s.len() >= 8 ==> le_u64(s) == s[0] + 256 * s[1] + 65536 * s[2] + 16777216 * s[3]
            + 4294967296 * (s[4] + 256 * s[5] + 65536 * s[6] + 16777216 * s[7]),
        s.len() == 1 ==> le_u16(s) == s[0] && le_u32(s) == s[0] && le_u64(s) == s[0] && be_u16(s)
            == 256 * s[0],
        s.len() == 0 ==> le_u16(s) == 0 && le_u32(s) == 0 && le_u64(s) == 0 && be_u16(s) == 0
            && be_u32(s) == 0,
{
    if s.len() >= 8 {
        assert(tail(s, 4)[0] == s[4] && tail(s, 4)[1] == s[5] && tail(s, 4)[2] == s[6] && tail(
            s,
            4,
        )[3] == s[7]);
    }
}

/// The bytes of a number are its digits to the base 256, in either order, and nothing else.
pub proof fn bytes_are_digits(n16: u16, n32: u32)
    ensures
        le16_bytes(n16).len() == 2,
        n16 == le16_bytes(n16)[0] + 256 * le16_bytes(n16)[1],
        be16_bytes(n16) == le16_bytes(n16).reverse(),
        le32_bytes(n32).len() == 4,
        n32 == le32_bytes(n32)[0] + 256 * le32_bytes(n32)[1] + 65536 * le32_bytes(n32)[2] + 16777216
            * le32_bytes(n32)[3],
        be32_bytes(n32) == le32_bytes(n32).reverse(),
{
    assert(be16_bytes(n16) =~= le16_bytes(n16).reverse());
    assert(be32_bytes(n32) =~= le32_bytes(n32).reverse());
}

/// The bytes of a number with 64 bits are those of its lower half, and behind them those of its
/// upper half.
pub proof fn long_numbers_have_two_halves(n: u64, lower: u32, upper: u32)
    requires
        n == lower + 4294967296 * upper,
    ensures
        le64_bytes(n) == le32_bytes(lower) + le32_bytes(upper),
{
}

/// Signed and unsigned numbers with the same bits differ by nothing or by 2^32, bytes by nothing
/// or by 2^8, and each is got back from the other.
pub proof fn signs_keep_the_bits(n: u32, i: i32, b: u8, c: i8)
    ensures
        signed(n) == n || signed(n) + 4294967296 == n,
        signed(n) >= 0 <==> n <= 2147483647,
        unsigned(signed(n)) == n,
        signed(unsigned(i)) == i,
        signed_byte(b) == b || signed_byte(b) + 256 == b,
        unsigned_byte(signed_byte(b)) == b,
        signed_byte(unsigned_byte(c)) == c,
{
}

/// What is written over a buffer stands there from its place on, as far as the buffer goes; the
/// rest of the buffer stays.
pub proof fn overlays_stay_in_the_buffer<T>(buf: Seq<T>, at: int, data: Seq<T>, i: int)
    requires
        0 <= i < buf.len(),
    ensures
        overlay(buf, at, data).len() == buf.len(),
        at <= i < at + data.len() ==> overlay(buf, at, data)[i] == data[i - at],
        i < at || at + data.len() <= i ==> overlay(buf, at, data)[i] == buf[i],
        at + data.len() <= buf.len() && at >= 0 ==> overlay(buf, at, data).subrange(
            at,
            at + data.len(),
        ) == data,
{
    if at + data.len() <= buf.len() && at >= 0 {
        assert(overlay(buf, at, data).subrange(at, at + data.len()) =~= data);
    }
}

} // verus!
