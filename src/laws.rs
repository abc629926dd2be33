//! Laws of the opcode-list format, proved over the spec functions that
//! describe what `decode_opcode_list` returns.

use crate::bytes::be_u32;
use crate::list::{list_offsets, prepend, scan};
use crate::opcode::{grid_size, payload_fits, payload_size, DecodeError, DngOpcodeId};
use vstd::prelude::*;

verus! {

/// A list whose entry count is zero decodes to no opcodes and no error.
pub proof fn lemma_empty_list(b: Seq<u8>)
    requires
        b.len() >= 4,
        be_u32(b, 0) == 0,
    ensures
        list_offsets(b) == Ok::<Seq<int>, DecodeError>(Seq::empty()),
{
}

/// A recognised opcode whose payload lies in the buffer but does not take
/// exactly its declared length stops the decode with a size mismatch, so
/// that no opcode at all is returned.
pub proof fn lemma_size_mismatch(b: Seq<u8>, p: int, n: nat)
    requires
        n > 0,
        p + 16 <= b.len(),
        DngOpcodeId::from_code_spec(be_u32(b, p)) matches Some(kind) && payload_fits(kind, b, p + 16)
            && payload_size(kind, b, p + 16) != be_u32(b, p + 12),
    ensures
        scan(b, p, n) == Err::<Seq<int>, DecodeError>(DecodeError::SizeMismatch),
        forall|done: Seq<int>|
            prepend(done, scan(b, p, n)) == Err::<Seq<int>, DecodeError>(DecodeError::SizeMismatch),
{
}

/// An opcode whose identifier is not recognised is skipped by exactly its
/// declared payload length: the entries after it decode as they would from
/// the position just past its payload.
pub proof fn lemma_skip_unknown(b: Seq<u8>, p: int, n: nat)
    requires
        p + 16 + be_u32(b, p + 12) <= b.len(),
        !(1 <= be_u32(b, p) <= 14),
    ensures
        scan(b, p, n + 1) == scan(b, p + 16 + be_u32(b, p + 12), n),
{
}

/// An entry whose header runs past the end of the buffer stops the decode
/// with a truncation error.
pub proof fn lemma_truncated_header(b: Seq<u8>, p: int, n: nat)
    requires
        n > 0,
        p + 16 > b.len(),
    ensures
        scan(b, p, n) == Err::<Seq<int>, DecodeError>(DecodeError::Truncated),
{
}

/// An entry whose payload runs past the end of the buffer stops the decode
/// with a truncation error, whether its kind is recognised or not.
pub proof fn lemma_truncated_payload(b: Seq<u8>, p: int, n: nat)
    requires
        n > 0,
        p + 16 <= b.len(),
        match DngOpcodeId::from_code_spec(be_u32(b, p)) {
            Some(kind) => !payload_fits(kind, b, p + 16),
            None => p + 16 + be_u32(b, p + 12) > b.len(),
        },
    ensures
        scan(b, p, n) == Err::<Seq<int>, DecodeError>(DecodeError::Truncated),
{
}

/// A buffer too short to hold the entry count is truncated.
pub proof fn lemma_truncated_count(b: Seq<u8>)
    requires
        b.len() < 4,
    ensures
        list_offsets(b) == Err::<Seq<int>, DecodeError>(DecodeError::Truncated),
{
}

/// The position just past the first `k` entries from `p`: each entry is a
/// 16-byte header followed by the payload length that the header declares.
pub open spec fn walk_end(b: Seq<u8>, p: int, k: nat) -> int
    decreases k,
{
    if k == 0 {
        p
    } else {
        walk_end(b, p + 16 + be_u32(b, p + 12), (k - 1) as nat)
    }
}

/// Decoding `k + m` entries is decoding the first `k`, when they decode, and
/// then the next `m` from the position just past them.
pub proof fn lemma_scan_split(b: Seq<u8>, p: int, k: nat, m: nat)
    requires
        scan(b, p, k) is Ok,
    ensures
        scan(b, p, k + m) == prepend(scan(b, p, k)->Ok_0, scan(b, walk_end(b, p, k), m)),
    decreases k,
{
    if k == 0 {
        match scan(b, p, m) {
            Ok(t) => assert(Seq::<int>::empty() + t =~= t),
            Err(_) => {},
        }
    } else {
        let start = p + 16;
        let next = start + be_u32(b, p + 12);
        let k1 = (k - 1) as nat;
        assert((k + m - 1) as nat == k1 + m);
        match DngOpcodeId::from_code_spec(be_u32(b, p)) {
            Some(kind) => {
                lemma_scan_split(b, next, k1, m);
                let inner = scan(b, next, k1)->Ok_0;
                match scan(b, walk_end(b, next, k1), m) {
                    Ok(t) => assert(seq![start] + (inner + t) =~= (seq![start] + inner) + t),
                    Err(_) => {},
                }
            },
            None => {
                lemma_scan_split(b, next, k1, m);
            },
        }
    }
}

/// In a whole list, a recognised opcode after `k` entries that decode, whose
/// payload lies in the buffer but does not take exactly its declared length,
/// makes the decode fail with a size mismatch, so that none of the opcodes
/// before it is returned.
pub proof fn lemma_list_size_mismatch(b: Seq<u8>, k: nat)
    requires
        b.len() >= 4,
        k < be_u32(b, 0),
        scan(b, 4, k) is Ok,
        walk_end(b, 4, k) + 16 <= b.len(),
        DngOpcodeId::from_code_spec(be_u32(b, walk_end(b, 4, k))) matches Some(kind)
            && payload_fits(kind, b, walk_end(b, 4, k) + 16) && payload_size(
            kind,
            b,
            walk_end(b, 4, k) + 16,
        ) != be_u32(b, walk_end(b, 4, k) + 12),
    ensures
        list_offsets(b) == Err::<Seq<int>, DecodeError>(DecodeError::SizeMismatch),
{
    let m = (be_u32(b, 0) - k) as nat;
    assert(be_u32(b, 0) as nat == k + m);
    lemma_scan_split(b, 4, k, m);
    lemma_size_mismatch(b, walk_end(b, 4, k), m);
}

/// In a whole list, an opcode that is not recognised after `k` entries that
/// decode is skipped by exactly its declared length: the list decodes to the
/// opcodes of the first `k` entries followed by those of the entries that
/// start just past its payload.
pub proof fn lemma_list_skip_unknown(b: Seq<u8>, k: nat)
    requires
        b.len() >= 4,
        k < be_u32(b, 0),
        scan(b, 4, k) is Ok,
        walk_end(b, 4, k) + 16 + be_u32(b, walk_end(b, 4, k) + 12) <= b.len(),
        !(1 <= be_u32(b, walk_end(b, 4, k)) <= 14),
    ensures
        list_offsets(b) == prepend(
            scan(b, 4, k)->Ok_0,
            scan(
                b,
                walk_end(b, 4, k) + 16 + be_u32(b, walk_end(b, 4, k) + 12),
                (be_u32(b, 0) - k - 1) as nat,
            ),
        ),
{
    let m = (be_u32(b, 0) - k - 1) as nat;
    assert(be_u32(b, 0) as nat == k + (m + 1));
    lemma_scan_split(b, 4, k, m + 1);
    lemma_skip_unknown(b, walk_end(b, 4, k), m);
}

/// In a whole list, an entry after `k` entries that decode whose header or
/// payload runs past the end of the buffer makes the decode fail with a
/// truncation error.
pub proof fn lemma_list_truncated(b: Seq<u8>, k: nat)
    requires
        b.len() >= 4,
        k < be_u32(b, 0),
        scan(b, 4, k) is Ok,
        walk_end(b, 4, k) + 16 > b.len() || match DngOpcodeId::from_code_spec(
            be_u32(b, walk_end(b, 4, k)),
        ) {
            Some(kind) => !payload_fits(kind, b, walk_end(b, 4, k) + 16),
            None => walk_end(b, 4, k) + 16 + be_u32(b, walk_end(b, 4, k) + 12) > b.len(),
        },
    ensures
        list_offsets(b) == Err::<Seq<int>, DecodeError>(DecodeError::Truncated),
{
    let m = (be_u32(b, 0) - k) as nat;
    assert(be_u32(b, 0) as nat == k + m);
    lemma_scan_split(b, 4, k, m);
    let q = walk_end(b, 4, k);
    if q + 16 > b.len() {
        lemma_truncated_header(b, q, m);
    } else {
        lemma_truncated_payload(b, q, m);
    }
}

/// A payload that fits in `b` fits, with the same size, in a prefix of `b`
/// that holds it whole, and does not fit in a prefix that ends after its
/// start and before its end.
pub proof fn lemma_payload_prefix(kind: DngOpcodeId, b: Seq<u8>, s: int, c: int)
    requires
        0 <= s <= c,
        c <= b.len(),
        payload_fits(kind, b, s),
    ensures
        c < s + payload_size(kind, b, s) ==> !payload_fits(kind, b.subrange(0, c), s),
        c >= s + payload_size(kind, b, s) ==> payload_fits(kind, b.subrange(0, c), s)
            && payload_size(kind, b.subrange(0, c), s) == payload_size(kind, b, s),
{
    reveal(payload_fits);
    reveal(payload_size);
    let t = b.subrange(0, c);
    if s + 4 <= c {
        assert(be_u32(t, s) == be_u32(b, s));
    }
    if s + 12 <= c {
        assert(be_u32(t, s + 4) == be_u32(b, s + 4));
        assert(be_u32(t, s + 8) == be_u32(b, s + 8));
    }
    if s + 36 <= c {
        assert(be_u32(t, s + 32) == be_u32(b, s + 32));
    }
    let (v, h, n) = (be_u32(b, s + 32), be_u32(b, s + 36), be_u32(b, s + 72));
    assert(grid_size(v, h, n) >= 0) by {
        reveal(grid_size);
        assert(v * h * n >= 0) by (nonlinear_arith)
            requires
                v >= 0,
                h >= 0,
                n >= 0,
        ;
    }
    if s + 76 <= c {
        assert(be_u32(t, s + 36) == be_u32(b, s + 36));
        assert(be_u32(t, s + 72) == be_u32(b, s + 72));
    }
}

/// Decoding `n` entries that decode in `b` fails with a truncation error in
/// any prefix of `b` that ends after `p` and before the last of them does.
pub proof fn lemma_scan_prefix(b: Seq<u8>, p: int, n: nat, c: int)
    requires
        scan(b, p, n) is Ok,
        0 <= p <= c,
        c < walk_end(b, p, n),
        c <= b.len(),
    ensures
        scan(b.subrange(0, c), p, n) == Err::<Seq<int>, DecodeError>(DecodeError::Truncated),
    decreases n,
{
    let t = b.subrange(0, c);
    assert(n > 0);
    if p + 16 <= c {
        assert(be_u32(t, p) == be_u32(b, p));
        assert(be_u32(t, p + 12) == be_u32(b, p + 12));
        let start = p + 16;
        let next = start + be_u32(b, p + 12);
        match DngOpcodeId::from_code_spec(be_u32(b, p)) {
            Some(kind) => {
                lemma_payload_prefix(kind, b, start, c);
                if c >= next {
                    lemma_scan_prefix(b, next, (n - 1) as nat, c);
                }
            },
            None => {
                if c >= next {
                    lemma_scan_prefix(b, next, (n - 1) as nat, c);
                }
            },
        }
    }
}

/// Every prefix of a list that decodes, cut before the end of its last
/// entry, fails with a truncation error, wherever the cut falls: in the
/// count, in a header or in a payload.
pub proof fn lemma_list_prefix_truncated(b: Seq<u8>, c: int)
    requires
        list_offsets(b) is Ok,
        0 <= c < walk_end(b, 4, be_u32(b, 0) as nat),
        c <= b.len(),
    ensures
        list_offsets(b.subrange(0, c)) == Err::<Seq<int>, DecodeError>(DecodeError::Truncated),
{
    if c >= 4 {
        assert(be_u32(b.subrange(0, c), 0) == be_u32(b, 0));
        lemma_scan_prefix(b, 4, be_u32(b, 0) as nat, c);
    }
}

} // verus!
