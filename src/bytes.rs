//! Big-endian primitives read from a byte buffer at an explicit offset.

use byteorder::ByteOrder;
use vstd::prelude::*;

verus! {

/// The big-endian 16-bit value of the two bytes at `p`.
pub open spec fn be_u16(b: Seq<u8>, p: int) -> int {
    b[p] as int * 0x100 + b[p + 1] as int
}

/// The big-endian 32-bit value of the four bytes at `p`.
pub open spec fn be_u32(b: Seq<u8>, p: int) -> int {
    be_u16(b, p) * 0x10000 + be_u16(b, p + 2)
}

/// The big-endian 64-bit value of the eight bytes at `p`.
pub open spec fn be_u64(b: Seq<u8>, p: int) -> int {
    be_u32(b, p) * 0x1_0000_0000 + be_u32(b, p + 4)
}

/// Relies on byteorder's `BigEndian::read_u16`: the first two bytes of the
/// slice, most significant first.
#[verifier::external_body]
fn read_be_u16(buf: &[u8], p: usize) -> (r: u16)
    requires
        p + 2 <= buf@.len(),
    ensures
        r as int == be_u16(buf@, p as int),
{
    byteorder::BigEndian::read_u16(&buf[p..])
}

/// Relies on byteorder's `BigEndian::read_u32`: the first four bytes of the
/// slice, most significant first.
#[verifier::external_body]
fn read_be_u32(buf: &[u8], p: usize) -> (r: u32)
    requires
        p + 4 <= buf@.len(),
    ensures
        r as int == be_u32(buf@, p as int),
{
    byteorder::BigEndian::read_u32(&buf[p..])
}

/// Relies on byteorder's `BigEndian::read_u64`: the first eight bytes of the
/// slice, most significant first.
#[verifier::external_body]
fn read_be_u64(buf: &[u8], p: usize) -> (r: u64)
    requires
        p + 8 <= buf@.len(),
    ensures
        r as int == be_u64(buf@, p as int),
{
    byteorder::BigEndian::read_u64(&buf[p..])
}

/// Reads a big-endian `u16` at the cursor and moves the cursor past it.
pub fn take_u16(buf: &[u8], pos: &mut usize) -> (r: u16)
    requires
        *old(pos) + 2 <= buf@.len(),
    ensures
        r as int == be_u16(buf@, *old(pos) as int),
        *final(pos) == *old(pos) + 2,
{
    let r = read_be_u16(buf, *pos);
    let len: usize = buf.len();
    assert(*pos + 2 <= len);
    *pos = *pos + 2;
    r
}

/// Reads a big-endian `u32` at the cursor and moves the cursor past it.
pub fn take_u32(buf: &[u8], pos: &mut usize) -> (r: u32)
    requires
        *old(pos) + 4 <= buf@.len(),
    ensures
        r as int == be_u32(buf@, *old(pos) as int),
        *final(pos) == *old(pos) + 4,
{
    let r = read_be_u32(buf, *pos);
    let len: usize = buf.len();
    assert(*pos + 4 <= len);
    *pos = *pos + 4;
    r
}

/// Reads a big-endian `u64` at the cursor and moves the cursor past it.
pub fn take_u64(buf: &[u8], pos: &mut usize) -> (r: u64)
    requires
        *old(pos) + 8 <= buf@.len(),
    ensures
        r as int == be_u64(buf@, *old(pos) as int),
        *final(pos) == *old(pos) + 8,
{
    let r = read_be_u64(buf, *pos);
    let len: usize = buf.len();
    assert(*pos + 8 <= len);
    *pos = *pos + 8;
    r
}


/// Whether `n` items of `item` bytes each, followed by `tail` more bytes,
/// fit in `rem` bytes.
pub fn room_for(rem: usize, n: u64, item: usize, tail: usize) -> (r: bool)
    requires
        item > 0,
    ensures
        r == (n as int * item as int + tail as int <= rem as int),
{
    if tail > rem {
        proof {
            assert(n as int * item as int >= 0) by (nonlinear_arith)
                requires
                    item > 0,
            ;
        }
        false
    } else {
        let avail: usize = rem - tail;
        let q: usize = avail / item;
        proof {
            let (a, d, k, qq) = (avail as int, item as int, n as int, q as int);
            vstd::arithmetic::div_mod::lemma_fundamental_div_mod(a, d);
            assert(k <= qq ==> k * d <= a) by (nonlinear_arith)
                requires
                    d > 0,
                    a == d * qq + a % d,
                    0 <= a % d < d,
            ;
            assert(k > qq ==> k * d > a) by (nonlinear_arith)
                requires
                    d > 0,
                    a == d * qq + a % d,
                    0 <= a % d < d,
            ;
        }
        n <= q as u64
    }
}

/// Reads `n` consecutive big-endian `u16` values at the cursor.
pub fn take_u16_vec(buf: &[u8], pos: &mut usize, n: usize) -> (r: Vec<u16>)
    requires
        *old(pos) + 2 * n <= buf@.len(),
    ensures
        r@.len() == n,
        forall|i: int| 0 <= i < n ==> r@[i] as int == be_u16(buf@, *old(pos) + 2 * i),
        *final(pos) == *old(pos) + 2 * n,
{
    let ghost p0 = *pos as int;
    let mut r: Vec<u16> = Vec::new();
    let mut i: usize = 0;
    while i < n
        invariant
            i <= n,
            p0 + 2 * n <= buf@.len(),
            *pos == p0 + 2 * i,
            r@.len() == i,
            forall|j: int| 0 <= j < i ==> r@[j] as int == be_u16(buf@, p0 + 2 * j),
        decreases n - i,
    {
        let v = take_u16(buf, pos);
        r.push(v);
        i = i + 1;
    }
    r
}

/// Reads `n` consecutive big-endian `u32` values at the cursor.
pub fn take_u32_vec(buf: &[u8], pos: &mut usize, n: usize) -> (r: Vec<u32>)
    requires
        *old(pos) + 4 * n <= buf@.len(),
    ensures
        r@.len() == n,
        forall|i: int| 0 <= i < n ==> r@[i] as int == be_u32(buf@, *old(pos) + 4 * i),
        *final(pos) == *old(pos) + 4 * n,
{
    let ghost p0 = *pos as int;
    let mut r: Vec<u32> = Vec::new();
    let mut i: usize = 0;
    while i < n
        invariant
            i <= n,
            p0 + 4 * n <= buf@.len(),
            *pos == p0 + 4 * i,
            r@.len() == i,
            forall|j: int| 0 <= j < i ==> r@[j] as int == be_u32(buf@, p0 + 4 * j),
        decreases n - i,
    {
        let v = take_u32(buf, pos);
        r.push(v);
        i = i + 1;
    }
    r
}

/// Reads `n` consecutive big-endian `u64` values at the cursor.
pub fn take_u64_vec(buf: &[u8], pos: &mut usize, n: usize) -> (r: Vec<u64>)
    requires
        *old(pos) + 8 * n <= buf@.len(),
    ensures
        r@.len() == n,
        forall|i: int| 0 <= i < n ==> r@[i] as int == be_u64(buf@, *old(pos) + 8 * i),
        *final(pos) == *old(pos) + 8 * n,
{
    let ghost p0 = *pos as int;
    let mut r: Vec<u64> = Vec::new();
    let mut i: usize = 0;
    while i < n
        invariant
            i <= n,
            p0 + 8 * n <= buf@.len(),
            *pos == p0 + 8 * i,
            r@.len() == i,
            forall|j: int| 0 <= j < i ==> r@[j] as int == be_u64(buf@, p0 + 8 * j),
        decreases n - i,
    {
        let v = take_u64(buf, pos);
        r.push(v);
        i = i + 1;
    }
    r
}

/// Reads a fixed number `N` of consecutive big-endian `u64` values at the
/// cursor.
pub fn take_u64_array<const N: usize>(buf: &[u8], pos: &mut usize) -> (r: [u64; N])
    requires
        *old(pos) + 8 * N <= buf@.len(),
    ensures
        r@.len() == N,
        forall|i: int| 0 <= i < N ==> r@[i] as int == be_u64(buf@, *old(pos) + 8 * i),
        *final(pos) == *old(pos) + 8 * N,
{
    let ghost p0 = *pos as int;
    let mut r: [u64; N] = [0u64; N];
    let mut i: usize = 0;
    while i < N
        invariant
            i <= N,
            p0 + 8 * N <= buf@.len(),
            *pos == p0 + 8 * i,
            r@.len() == N,
            forall|j: int| 0 <= j < i ==> r@[j] as int == be_u64(buf@, p0 + 8 * j),
        decreases N - i,
    {
        let v = take_u64(buf, pos);
        r[i] = v;
        i = i + 1;
    }
    r
}

} // verus!
