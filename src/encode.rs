//! The byte encoding of opcode payloads and of whole opcode lists, as spec
//! functions, and the laws that the decoder reads every encoded record and
//! list back field for field.

use crate::bytes::{be_u16, be_u32, be_u64};
use crate::opcode::{
    grid_size, payload_decoded, payload_fits, payload_size, BadPoint, BadRect, DecodeError,
    DngOpcode, DngOpcodeFlags, DngOpcodeId, DngOpcodeRegion, FixBadPixelsConstant,
    FixBadPixelsList, FixVignetteRadial, GainMap, MapPolynomial, MapTable, TrimBounds,
    ValuesPerRowOrCol, WarpFisheye, WarpFisheyeCoef, WarpRectilinear, WarpRectilinear2,
    WarpRectilinear2Coef, WarpRectilinearCoef,
};
use crate::laws::{lemma_list_skip_unknown, walk_end};
use crate::list::{entry_at, list_offsets, scan};
use vstd::prelude::*;

verus! {

/// The big-endian bytes of a 16-bit value.
pub open spec fn u16_bytes(v: u16) -> Seq<u8> {
    seq![(v / 0x100) as u8, (v % 0x100) as u8]
}

/// The big-endian bytes of a 32-bit value.
pub open spec fn u32_bytes(v: u32) -> Seq<u8> {
    u16_bytes((v / 0x10000) as u16) + u16_bytes((v % 0x10000) as u16)
}

/// The big-endian bytes of a 64-bit value.
pub open spec fn u64_bytes(v: u64) -> Seq<u8> {
    u32_bytes((v / 0x1_0000_0000) as u32) + u32_bytes((v % 0x1_0000_0000) as u32)
}

/// The pieces of `s` one after the other.
pub open spec fn flat(s: Seq<Seq<u8>>) -> Seq<u8>
    decreases s.len(),
{
    if s.len() == 0 {
        Seq::empty()
    } else {
        flat(s.drop_last()) + s.last()
    }
}

pub open spec fn u16s_bytes(s: Seq<u16>) -> Seq<u8> {
    flat(s.map_values(|v: u16| u16_bytes(v)))
}

pub open spec fn u32s_bytes(s: Seq<u32>) -> Seq<u8> {
    flat(s.map_values(|v: u32| u32_bytes(v)))
}

pub open spec fn u64s_bytes(s: Seq<u64>) -> Seq<u8> {
    flat(s.map_values(|v: u64| u64_bytes(v)))
}

/// Pieces of one length `k` lie one after the other in their flattening.
pub proof fn lemma_flat_uniform(s: Seq<Seq<u8>>, k: int)
    requires
        k >= 0,
        forall|i: int| 0 <= i < s.len() ==> (#[trigger] s[i]).len() == k,
    ensures
        flat(s).len() == k * s.len(),
        forall|i: int|
            0 <= i < s.len() ==> flat(s).subrange(k * i, k * i + k) == #[trigger] s[i],
    decreases s.len(),
{
    if s.len() > 0 {
        let t = s.drop_last();
        lemma_flat_uniform(t, k);
        let n = s.len() - 1;
        assert(k * n + k == k * s.len()) by (nonlinear_arith)
            requires
                n == s.len() - 1,
        ;
        assert forall|i: int| 0 <= i < s.len() implies flat(s).subrange(k * i, k * i + k)
            == #[trigger] s[i] by {
            if i < n {
                assert(k * i + k <= k * n) by (nonlinear_arith)
                    requires
                        0 <= i < n,
                        k >= 0,
                ;
                assert(t[i] == s[i]);
                assert(flat(s).subrange(k * i, k * i + k) =~= flat(t).subrange(k * i, k * i + k));
            } else {
                assert(flat(s).subrange(k * i, k * i + k) =~= s[i]);
            }
        }
    }
}

pub proof fn lemma_u16_in(b: Seq<u8>, p: int, v: u16)
    requires
        0 <= p,
        p + 2 <= b.len(),
        b.subrange(p, p + 2) == u16_bytes(v),
    ensures
        be_u16(b, p) == v,
{
    assert(b[p] == b.subrange(p, p + 2)[0]);
    assert(b[p + 1] == b.subrange(p, p + 2)[1]);
}

pub proof fn lemma_u32_in(b: Seq<u8>, p: int, v: u32)
    requires
        0 <= p,
        p + 4 <= b.len(),
        b.subrange(p, p + 4) == u32_bytes(v),
    ensures
        be_u32(b, p) == v,
{
    assert(b.subrange(p, p + 2) =~= b.subrange(p, p + 4).subrange(0, 2));
    assert(b.subrange(p + 2, p + 4) =~= b.subrange(p, p + 4).subrange(2, 4));
    assert(u32_bytes(v).subrange(0, 2) =~= u16_bytes((v / 0x10000) as u16));
    assert(u32_bytes(v).subrange(2, 4) =~= u16_bytes((v % 0x10000) as u16));
    lemma_u16_in(b, p, (v / 0x10000) as u16);
    lemma_u16_in(b, p + 2, (v % 0x10000) as u16);
}

pub proof fn lemma_u64_in(b: Seq<u8>, p: int, v: u64)
    requires
        0 <= p,
        p + 8 <= b.len(),
        b.subrange(p, p + 8) == u64_bytes(v),
    ensures
        be_u64(b, p) == v,
{
    assert(b.subrange(p, p + 4) =~= b.subrange(p, p + 8).subrange(0, 4));
    assert(b.subrange(p + 4, p + 8) =~= b.subrange(p, p + 8).subrange(4, 8));
    assert(u64_bytes(v).subrange(0, 4) =~= u32_bytes((v / 0x1_0000_0000) as u32));
    assert(u64_bytes(v).subrange(4, 8) =~= u32_bytes((v % 0x1_0000_0000) as u32));
    lemma_u32_in(b, p, (v / 0x1_0000_0000) as u32);
    lemma_u32_in(b, p + 4, (v % 0x1_0000_0000) as u32);
}

/// `w` stands at `p` in `b`: its piece at `q` stands at `p + q`.
pub proof fn lemma_sub_in(b: Seq<u8>, p: int, w: Seq<u8>, q: int, k: int)
    requires
        0 <= p,
        p + w.len() <= b.len(),
        b.subrange(p, p + w.len()) == w,
        0 <= q,
        0 <= k,
        q + k <= w.len(),
    ensures
        b.subrange(p + q, p + q + k) == w.subrange(q, q + k),
{
    assert(b.subrange(p + q, p + q + k) =~= w.subrange(q, q + k));
}

pub proof fn lemma_u16s_in(b: Seq<u8>, p: int, s: Seq<u16>)
    requires
        0 <= p,
        p + 2 * s.len() <= b.len(),
        b.subrange(p, p + 2 * s.len()) == u16s_bytes(s),
    ensures
        u16s_bytes(s).len() == 2 * s.len(),
        forall|i: int| 0 <= i < s.len() ==> be_u16(b, p + 2 * i) == s[i],
{
    let m = s.map_values(|v: u16| u16_bytes(v));
    lemma_flat_uniform(m, 2);
    assert forall|i: int| 0 <= i < s.len() implies be_u16(b, p + 2 * i) == s[i] by {
        assert(m[i] == u16_bytes(s[i]));
        lemma_sub_in(b, p, u16s_bytes(s), 2 * i, 2);
        lemma_u16_in(b, p + 2 * i, s[i]);
    }
}

pub proof fn lemma_u32s_in(b: Seq<u8>, p: int, s: Seq<u32>)
    requires
        0 <= p,
        p + 4 * s.len() <= b.len(),
        b.subrange(p, p + 4 * s.len()) == u32s_bytes(s),
    ensures
        forall|i: int| 0 <= i < s.len() ==> be_u32(b, p + 4 * i) == s[i],
{
    let m = s.map_values(|v: u32| u32_bytes(v));
    lemma_flat_uniform(m, 4);
    assert forall|i: int| 0 <= i < s.len() implies be_u32(b, p + 4 * i) == s[i] by {
        assert(m[i] == u32_bytes(s[i]));
        lemma_sub_in(b, p, u32s_bytes(s), 4 * i, 4);
        lemma_u32_in(b, p + 4 * i, s[i]);
    }
}

pub proof fn lemma_u64s_in(b: Seq<u8>, p: int, s: Seq<u64>)
    requires
        0 <= p,
        p + 8 * s.len() <= b.len(),
        b.subrange(p, p + 8 * s.len()) == u64s_bytes(s),
    ensures
        forall|i: int| 0 <= i < s.len() ==> be_u64(b, p + 8 * i) == s[i],
{
    let m = s.map_values(|v: u64| u64_bytes(v));
    lemma_flat_uniform(m, 8);
    assert forall|i: int| 0 <= i < s.len() implies be_u64(b, p + 8 * i) == s[i] by {
        assert(m[i] == u64_bytes(s[i]));
        lemma_sub_in(b, p, u64s_bytes(s), 8 * i, 8);
        lemma_u64_in(b, p + 8 * i, s[i]);
    }
}

pub proof fn lemma_bytes_len(s16: Seq<u16>, s32: Seq<u32>, s64: Seq<u64>)
    ensures
        u16s_bytes(s16).len() == 2 * s16.len(),
        u32s_bytes(s32).len() == 4 * s32.len(),
        u64s_bytes(s64).len() == 8 * s64.len(),
{
    lemma_flat_uniform(s16.map_values(|v: u16| u16_bytes(v)), 2);
    lemma_flat_uniform(s32.map_values(|v: u32| u32_bytes(v)), 4);
    lemma_flat_uniform(s64.map_values(|v: u64| u64_bytes(v)), 8);
}


/// The bytes of a `DngOpcodeRegion`.
pub open spec fn region_bytes(x: DngOpcodeRegion) -> Seq<u8> {
    u32_bytes(x.top) + u32_bytes(x.left) + u32_bytes(x.bottom) + u32_bytes(x.right) + u32_bytes(x.plane) + u32_bytes(x.planes) + u32_bytes(x.row_pitch) + u32_bytes(x.col_pitch)
}

pub proof fn lemma_region_bytes_in(b: Seq<u8>, p: int, x: DngOpcodeRegion)
    requires
        0 <= p,
        p + 32 <= b.len(),
        b.subrange(p, p + 32) == region_bytes(x),
    ensures
        region_bytes(x).len() == 32,
        x.read_from(b, p),
{
    lemma_sub_in(b, p, region_bytes(x), 0, 4);
    assert(region_bytes(x).subrange(0, 4) =~= u32_bytes(x.top));
    lemma_u32_in(b, p + 0, x.top);
    lemma_sub_in(b, p, region_bytes(x), 4, 4);
    assert(region_bytes(x).subrange(4, 8) =~= u32_bytes(x.left));
    lemma_u32_in(b, p + 4, x.left);
    lemma_sub_in(b, p, region_bytes(x), 8, 4);
    assert(region_bytes(x).subrange(8, 12) =~= u32_bytes(x.bottom));
    lemma_u32_in(b, p + 8, x.bottom);
    lemma_sub_in(b, p, region_bytes(x), 12, 4);
    assert(region_bytes(x).subrange(12, 16) =~= u32_bytes(x.right));
    lemma_u32_in(b, p + 12, x.right);
    lemma_sub_in(b, p, region_bytes(x), 16, 4);
    assert(region_bytes(x).subrange(16, 20) =~= u32_bytes(x.plane));
    lemma_u32_in(b, p + 16, x.plane);
    lemma_sub_in(b, p, region_bytes(x), 20, 4);
    assert(region_bytes(x).subrange(20, 24) =~= u32_bytes(x.planes));
    lemma_u32_in(b, p + 20, x.planes);
    lemma_sub_in(b, p, region_bytes(x), 24, 4);
    assert(region_bytes(x).subrange(24, 28) =~= u32_bytes(x.row_pitch));
    lemma_u32_in(b, p + 24, x.row_pitch);
    lemma_sub_in(b, p, region_bytes(x), 28, 4);
    assert(region_bytes(x).subrange(28, 32) =~= u32_bytes(x.col_pitch));
    lemma_u32_in(b, p + 28, x.col_pitch);
}

/// The bytes of a `BadPoint`.
pub open spec fn point_bytes(x: BadPoint) -> Seq<u8> {
    u32_bytes(x.row) + u32_bytes(x.column)
}

pub proof fn lemma_point_bytes_in(b: Seq<u8>, p: int, x: BadPoint)
    requires
        0 <= p,
        p + 8 <= b.len(),
        b.subrange(p, p + 8) == point_bytes(x),
    ensures
        point_bytes(x).len() == 8,
        x.read_from(b, p),
{
    lemma_sub_in(b, p, point_bytes(x), 0, 4);
    assert(point_bytes(x).subrange(0, 4) =~= u32_bytes(x.row));
    lemma_u32_in(b, p + 0, x.row);
    lemma_sub_in(b, p, point_bytes(x), 4, 4);
    assert(point_bytes(x).subrange(4, 8) =~= u32_bytes(x.column));
    lemma_u32_in(b, p + 4, x.column);
}

/// The bytes of a `BadRect`.
pub open spec fn rect_bytes(x: BadRect) -> Seq<u8> {
    u32_bytes(x.top) + u32_bytes(x.left) + u32_bytes(x.bottom) + u32_bytes(x.right)
}

pub proof fn lemma_rect_bytes_in(b: Seq<u8>, p: int, x: BadRect)
    requires
        0 <= p,
        p + 16 <= b.len(),
        b.subrange(p, p + 16) == rect_bytes(x),
    ensures
        rect_bytes(x).len() == 16,
        x.read_from(b, p),
{
    lemma_sub_in(b, p, rect_bytes(x), 0, 4);
    assert(rect_bytes(x).subrange(0, 4) =~= u32_bytes(x.top));
    lemma_u32_in(b, p + 0, x.top);
    lemma_sub_in(b, p, rect_bytes(x), 4, 4);
    assert(rect_bytes(x).subrange(4, 8) =~= u32_bytes(x.left));
    lemma_u32_in(b, p + 4, x.left);
    lemma_sub_in(b, p, rect_bytes(x), 8, 4);
    assert(rect_bytes(x).subrange(8, 12) =~= u32_bytes(x.bottom));
    lemma_u32_in(b, p + 8, x.bottom);
    lemma_sub_in(b, p, rect_bytes(x), 12, 4);
    assert(rect_bytes(x).subrange(12, 16) =~= u32_bytes(x.right));
    lemma_u32_in(b, p + 12, x.right);
}

/// The bytes of a `WarpRectilinearCoef`.
pub open spec fn rectilinear_coef_bytes(x: WarpRectilinearCoef) -> Seq<u8> {
    u64s_bytes(x.kr@) + u64s_bytes(x.kt@)
}

pub proof fn lemma_rectilinear_coef_bytes_in(b: Seq<u8>, p: int, x: WarpRectilinearCoef)
    requires
        0 <= p,
        p + 48 <= b.len(),
        b.subrange(p, p + 48) == rectilinear_coef_bytes(x),
    ensures
        rectilinear_coef_bytes(x).len() == 48,
        x.read_from(b, p),
{
    lemma_bytes_len(Seq::empty(), Seq::empty(), x.kr@);
    lemma_bytes_len(Seq::empty(), Seq::empty(), x.kt@);
    lemma_sub_in(b, p, rectilinear_coef_bytes(x), 0, 32);
    assert(rectilinear_coef_bytes(x).subrange(0, 32) =~= u64s_bytes(x.kr@));
    lemma_u64s_in(b, p + 0, x.kr@);
    lemma_sub_in(b, p, rectilinear_coef_bytes(x), 32, 16);
    assert(rectilinear_coef_bytes(x).subrange(32, 48) =~= u64s_bytes(x.kt@));
    lemma_u64s_in(b, p + 32, x.kt@);
}

/// The bytes of a `WarpFisheyeCoef`.
pub open spec fn fisheye_coef_bytes(x: WarpFisheyeCoef) -> Seq<u8> {
    u64s_bytes(x.kr@)
}

pub proof fn lemma_fisheye_coef_bytes_in(b: Seq<u8>, p: int, x: WarpFisheyeCoef)
    requires
        0 <= p,
        p + 32 <= b.len(),
        b.subrange(p, p + 32) == fisheye_coef_bytes(x),
    ensures
        fisheye_coef_bytes(x).len() == 32,
        x.read_from(b, p),
{
    lemma_bytes_len(Seq::empty(), Seq::empty(), x.kr@);
    lemma_sub_in(b, p, fisheye_coef_bytes(x), 0, 32);
    assert(fisheye_coef_bytes(x).subrange(0, 32) =~= u64s_bytes(x.kr@));
    lemma_u64s_in(b, p + 0, x.kr@);
}

/// The bytes of a `WarpRectilinear2Coef`.
pub open spec fn rectilinear2_coef_bytes(x: WarpRectilinear2Coef) -> Seq<u8> {
    u64s_bytes(x.kr@) + u64s_bytes(x.kt@)
}

pub proof fn lemma_rectilinear2_coef_bytes_in(b: Seq<u8>, p: int, x: WarpRectilinear2Coef)
    requires
        0 <= p,
        p + 136 <= b.len(),
        b.subrange(p, p + 136) == rectilinear2_coef_bytes(x),
    ensures
        rectilinear2_coef_bytes(x).len() == 136,
        x.read_from(b, p),
{
    lemma_bytes_len(Seq::empty(), Seq::empty(), x.kr@);
    lemma_bytes_len(Seq::empty(), Seq::empty(), x.kt@);
    lemma_sub_in(b, p, rectilinear2_coef_bytes(x), 0, 120);
    assert(rectilinear2_coef_bytes(x).subrange(0, 120) =~= u64s_bytes(x.kr@));
    lemma_u64s_in(b, p + 0, x.kr@);
    lemma_sub_in(b, p, rectilinear2_coef_bytes(x), 120, 16);
    assert(rectilinear2_coef_bytes(x).subrange(120, 136) =~= u64s_bytes(x.kt@));
    lemma_u64s_in(b, p + 120, x.kt@);
}


/// The bytes of a sequence of `BadPoint`, one after the other.
pub open spec fn points_bytes(s: Seq<BadPoint>) -> Seq<u8> {
    flat(s.map_values(|x: BadPoint| point_bytes(x)))
}

pub proof fn lemma_points_bytes_in(b: Seq<u8>, p: int, s: Seq<BadPoint>)
    requires
        0 <= p,
        p + 8 * s.len() <= b.len(),
        b.subrange(p, p + 8 * s.len()) == points_bytes(s),
    ensures
        forall|i: int| 0 <= i < s.len() ==> #[trigger] s[i].read_from(b, p + 8 * i),
{
    let m = s.map_values(|x: BadPoint| point_bytes(x));
    assert forall|i: int| 0 <= i < m.len() implies (#[trigger] m[i]).len() == 8 by {
        let x = s[i];
    }
    lemma_flat_uniform(m, 8);
    assert forall|i: int| 0 <= i < s.len() implies #[trigger] s[i].read_from(b, p + 8 * i) by {
        assert(m[i] == point_bytes(s[i]));
        lemma_sub_in(b, p, points_bytes(s), 8 * i, 8);
        lemma_point_bytes_in(b, p + 8 * i, s[i]);
    }
}

pub proof fn lemma_points_bytes_len(s: Seq<BadPoint>)
    ensures
        points_bytes(s).len() == 8 * s.len(),
{
    let m = s.map_values(|x: BadPoint| point_bytes(x));
    assert forall|i: int| 0 <= i < m.len() implies (#[trigger] m[i]).len() == 8 by {
        let x = s[i];
    }
    lemma_flat_uniform(m, 8);
}

/// The bytes of a sequence of `BadRect`, one after the other.
pub open spec fn rects_bytes(s: Seq<BadRect>) -> Seq<u8> {
    flat(s.map_values(|x: BadRect| rect_bytes(x)))
}

pub proof fn lemma_rects_bytes_in(b: Seq<u8>, p: int, s: Seq<BadRect>)
    requires
        0 <= p,
        p + 16 * s.len() <= b.len(),
        b.subrange(p, p + 16 * s.len()) == rects_bytes(s),
    ensures
        forall|i: int| 0 <= i < s.len() ==> #[trigger] s[i].read_from(b, p + 16 * i),
{
    let m = s.map_values(|x: BadRect| rect_bytes(x));
    assert forall|i: int| 0 <= i < m.len() implies (#[trigger] m[i]).len() == 16 by {
        let x = s[i];
    }
    lemma_flat_uniform(m, 16);
    assert forall|i: int| 0 <= i < s.len() implies #[trigger] s[i].read_from(b, p + 16 * i) by {
        assert(m[i] == rect_bytes(s[i]));
        lemma_sub_in(b, p, rects_bytes(s), 16 * i, 16);
        lemma_rect_bytes_in(b, p + 16 * i, s[i]);
    }
}

pub proof fn lemma_rects_bytes_len(s: Seq<BadRect>)
    ensures
        rects_bytes(s).len() == 16 * s.len(),
{
    let m = s.map_values(|x: BadRect| rect_bytes(x));
    assert forall|i: int| 0 <= i < m.len() implies (#[trigger] m[i]).len() == 16 by {
        let x = s[i];
    }
    lemma_flat_uniform(m, 16);
}

/// The bytes of a sequence of `WarpRectilinearCoef`, one after the other.
pub open spec fn rectilinear_coefs_bytes(s: Seq<WarpRectilinearCoef>) -> Seq<u8> {
    flat(s.map_values(|x: WarpRectilinearCoef| rectilinear_coef_bytes(x)))
}

pub proof fn lemma_rectilinear_coefs_bytes_in(b: Seq<u8>, p: int, s: Seq<WarpRectilinearCoef>)
    requires
        0 <= p,
        p + 48 * s.len() <= b.len(),
        b.subrange(p, p + 48 * s.len()) == rectilinear_coefs_bytes(s),
    ensures
        forall|i: int| 0 <= i < s.len() ==> #[trigger] s[i].read_from(b, p + 48 * i),
{
    let m = s.map_values(|x: WarpRectilinearCoef| rectilinear_coef_bytes(x));
    assert forall|i: int| 0 <= i < m.len() implies (#[trigger] m[i]).len() == 48 by {
        let x = s[i];
        lemma_bytes_len(Seq::empty(), Seq::empty(), x.kr@);
        lemma_bytes_len(Seq::empty(), Seq::empty(), x.kt@);
    }
    lemma_flat_uniform(m, 48);
    assert forall|i: int| 0 <= i < s.len() implies #[trigger] s[i].read_from(b, p + 48 * i) by {
        assert(m[i] == rectilinear_coef_bytes(s[i]));
        lemma_sub_in(b, p, rectilinear_coefs_bytes(s), 48 * i, 48);
        lemma_rectilinear_coef_bytes_in(b, p + 48 * i, s[i]);
    }
}

pub proof fn lemma_rectilinear_coefs_bytes_len(s: Seq<WarpRectilinearCoef>)
    ensures
        rectilinear_coefs_bytes(s).len() == 48 * s.len(),
{
    let m = s.map_values(|x: WarpRectilinearCoef| rectilinear_coef_bytes(x));
    assert forall|i: int| 0 <= i < m.len() implies (#[trigger] m[i]).len() == 48 by {
        let x = s[i];
        lemma_bytes_len(Seq::empty(), Seq::empty(), x.kr@);
        lemma_bytes_len(Seq::empty(), Seq::empty(), x.kt@);
    }
    lemma_flat_uniform(m, 48);
}

/// The bytes of a sequence of `WarpFisheyeCoef`, one after the other.
pub open spec fn fisheye_coefs_bytes(s: Seq<WarpFisheyeCoef>) -> Seq<u8> {
    flat(s.map_values(|x: WarpFisheyeCoef| fisheye_coef_bytes(x)))
}

pub proof fn lemma_fisheye_coefs_bytes_in(b: Seq<u8>, p: int, s: Seq<WarpFisheyeCoef>)
    requires
        0 <= p,
        p + 32 * s.len() <= b.len(),
        b.subrange(p, p + 32 * s.len()) == fisheye_coefs_bytes(s),
    ensures
        forall|i: int| 0 <= i < s.len() ==> #[trigger] s[i].read_from(b, p + 32 * i),
{
    let m = s.map_values(|x: WarpFisheyeCoef| fisheye_coef_bytes(x));
    assert forall|i: int| 0 <= i < m.len() implies (#[trigger] m[i]).len() == 32 by {
        let x = s[i];
        lemma_bytes_len(Seq::empty(), Seq::empty(), x.kr@);
    }
    lemma_flat_uniform(m, 32);
    assert forall|i: int| 0 <= i < s.len() implies #[trigger] s[i].read_from(b, p + 32 * i) by {
        assert(m[i] == fisheye_coef_bytes(s[i]));
        lemma_sub_in(b, p, fisheye_coefs_bytes(s), 32 * i, 32);
        lemma_fisheye_coef_bytes_in(b, p + 32 * i, s[i]);
    }
}

pub proof fn lemma_fisheye_coefs_bytes_len(s: Seq<WarpFisheyeCoef>)
    ensures
        fisheye_coefs_bytes(s).len() == 32 * s.len(),
{
    let m = s.map_values(|x: WarpFisheyeCoef| fisheye_coef_bytes(x));
    assert forall|i: int| 0 <= i < m.len() implies (#[trigger] m[i]).len() == 32 by {
        let x = s[i];
        lemma_bytes_len(Seq::empty(), Seq::empty(), x.kr@);
    }
    lemma_flat_uniform(m, 32);
}

/// The bytes of a sequence of `WarpRectilinear2Coef`, one after the other.
pub open spec fn rectilinear2_coefs_bytes(s: Seq<WarpRectilinear2Coef>) -> Seq<u8> {
    flat(s.map_values(|x: WarpRectilinear2Coef| rectilinear2_coef_bytes(x)))
}

pub proof fn lemma_rectilinear2_coefs_bytes_in(b: Seq<u8>, p: int, s: Seq<WarpRectilinear2Coef>)
    requires
        0 <= p,
        p + 136 * s.len() <= b.len(),
        b.subrange(p, p + 136 * s.len()) == rectilinear2_coefs_bytes(s),
    ensures
        forall|i: int| 0 <= i < s.len() ==> #[trigger] s[i].read_from(b, p + 136 * i),
{
    let m = s.map_values(|x: WarpRectilinear2Coef| rectilinear2_coef_bytes(x));
    assert forall|i: int| 0 <= i < m.len() implies (#[trigger] m[i]).len() == 136 by {
        let x = s[i];
        lemma_bytes_len(Seq::empty(), Seq::empty(), x.kr@);
        lemma_bytes_len(Seq::empty(), Seq::empty(), x.kt@);
    }
    lemma_flat_uniform(m, 136);
    assert forall|i: int| 0 <= i < s.len() implies #[trigger] s[i].read_from(b, p + 136 * i) by {
        assert(m[i] == rectilinear2_coef_bytes(s[i]));
        lemma_sub_in(b, p, rectilinear2_coefs_bytes(s), 136 * i, 136);
        lemma_rectilinear2_coef_bytes_in(b, p + 136 * i, s[i]);
    }
}

pub proof fn lemma_rectilinear2_coefs_bytes_len(s: Seq<WarpRectilinear2Coef>)
    ensures
        rectilinear2_coefs_bytes(s).len() == 136 * s.len(),
{
    let m = s.map_values(|x: WarpRectilinear2Coef| rectilinear2_coef_bytes(x));
    assert forall|i: int| 0 <= i < m.len() implies (#[trigger] m[i]).len() == 136 by {
        let x = s[i];
        lemma_bytes_len(Seq::empty(), Seq::empty(), x.kr@);
        lemma_bytes_len(Seq::empty(), Seq::empty(), x.kt@);
    }
    lemma_flat_uniform(m, 136);
}

/// The payload bytes of a `TrimBounds`.
pub open spec fn trim_bounds_bytes(x: TrimBounds) -> Seq<u8> {
    u32_bytes(x.top) + u32_bytes(x.left) + u32_bytes(x.bottom) + u32_bytes(x.right)
}

/// The payload bytes of a `TrimBounds`, wherever they stand in a buffer, fit, take
/// exactly their declared size, and read back as the same record.
pub proof fn lemma_trim_bounds_bytes_in(b: Seq<u8>, p: int, x: TrimBounds)
    requires
        0 <= p,
        p + trim_bounds_bytes(x).len() <= b.len(),
        b.subrange(p, p + trim_bounds_bytes(x).len()) == trim_bounds_bytes(x),
    ensures
        TrimBounds::fits(b, p),
        TrimBounds::wire_size(b, p) == trim_bounds_bytes(x).len(),
        x.read_from(b, p),
{
    let w = trim_bounds_bytes(x);
    let o0: int = 0;
    assert(w.subrange(o0, o0 + 4) =~= u32_bytes(x.top));
    lemma_sub_in(b, p, w, o0, 4);
    lemma_u32_in(b, p + o0, x.top);
    let o1: int = o0 + 4;
    assert(w.subrange(o1, o1 + 4) =~= u32_bytes(x.left));
    lemma_sub_in(b, p, w, o1, 4);
    lemma_u32_in(b, p + o1, x.left);
    let o2: int = o1 + 4;
    assert(w.subrange(o2, o2 + 4) =~= u32_bytes(x.bottom));
    lemma_sub_in(b, p, w, o2, 4);
    lemma_u32_in(b, p + o2, x.bottom);
    let o3: int = o2 + 4;
    assert(w.subrange(o3, o3 + 4) =~= u32_bytes(x.right));
    lemma_sub_in(b, p, w, o3, 4);
    lemma_u32_in(b, p + o3, x.right);
    reveal(TrimBounds::read_from);
}

/// The payload bytes of a `FixBadPixelsConstant`.
pub open spec fn fix_bad_pixels_constant_bytes(x: FixBadPixelsConstant) -> Seq<u8> {
    u32_bytes(x.constant) + u32_bytes(x.bayer_phase)
}

/// The payload bytes of a `FixBadPixelsConstant`, wherever they stand in a buffer, fit, take
/// exactly their declared size, and read back as the same record.
pub proof fn lemma_fix_bad_pixels_constant_bytes_in(b: Seq<u8>, p: int, x: FixBadPixelsConstant)
    requires
        0 <= p,
        p + fix_bad_pixels_constant_bytes(x).len() <= b.len(),
        b.subrange(p, p + fix_bad_pixels_constant_bytes(x).len()) == fix_bad_pixels_constant_bytes(x),
    ensures
        FixBadPixelsConstant::fits(b, p),
        FixBadPixelsConstant::wire_size(b, p) == fix_bad_pixels_constant_bytes(x).len(),
        x.read_from(b, p),
{
    let w = fix_bad_pixels_constant_bytes(x);
    let o0: int = 0;
    assert(w.subrange(o0, o0 + 4) =~= u32_bytes(x.constant));
    lemma_sub_in(b, p, w, o0, 4);
    lemma_u32_in(b, p + o0, x.constant);
    let o1: int = o0 + 4;
    assert(w.subrange(o1, o1 + 4) =~= u32_bytes(x.bayer_phase));
    lemma_sub_in(b, p, w, o1, 4);
    lemma_u32_in(b, p + o1, x.bayer_phase);
    reveal(FixBadPixelsConstant::read_from);
}

/// The payload bytes of a `FixVignetteRadial`.
pub open spec fn fix_vignette_radial_bytes(x: FixVignetteRadial) -> Seq<u8> {
    u64s_bytes(x.k@) + u64_bytes(x.center_x) + u64_bytes(x.center_y)
}

/// The payload bytes of a `FixVignetteRadial`, wherever they stand in a buffer, fit, take
/// exactly their declared size, and read back as the same record.
pub proof fn lemma_fix_vignette_radial_bytes_in(b: Seq<u8>, p: int, x: FixVignetteRadial)
    requires
        0 <= p,
        p + fix_vignette_radial_bytes(x).len() <= b.len(),
        b.subrange(p, p + fix_vignette_radial_bytes(x).len()) == fix_vignette_radial_bytes(x),
    ensures
        FixVignetteRadial::fits(b, p),
        FixVignetteRadial::wire_size(b, p) == fix_vignette_radial_bytes(x).len(),
        x.read_from(b, p),
{
    let w = fix_vignette_radial_bytes(x);
    lemma_bytes_len(Seq::empty(), Seq::empty(), x.k@);
    let o0: int = 0;
    assert(w.subrange(o0, o0 + 8 * (x.k@.len() as int)) =~= u64s_bytes(x.k@));
    lemma_sub_in(b, p, w, o0, 8 * (x.k@.len() as int));
    lemma_u64s_in(b, p + o0, x.k@);
    let o1: int = o0 + 8 * (x.k@.len() as int);
    assert(w.subrange(o1, o1 + 8) =~= u64_bytes(x.center_x));
    lemma_sub_in(b, p, w, o1, 8);
    lemma_u64_in(b, p + o1, x.center_x);
    let o2: int = o1 + 8;
    assert(w.subrange(o2, o2 + 8) =~= u64_bytes(x.center_y));
    lemma_sub_in(b, p, w, o2, 8);
    lemma_u64_in(b, p + o2, x.center_y);
    reveal(FixVignetteRadial::read_from);
}

/// The payload bytes of a `FixBadPixelsList`.
pub open spec fn fix_bad_pixels_list_bytes(x: FixBadPixelsList) -> Seq<u8> {
    u32_bytes(x.bayer_phase) + u32_bytes(x.bad_points@.len() as u32) + u32_bytes(x.bad_rects@.len() as u32) + points_bytes(x.bad_points@) + rects_bytes(x.bad_rects@)
}

/// The payload bytes of a `FixBadPixelsList`, wherever they stand in a buffer, fit, take
/// exactly their declared size, and read back as the same record.
pub proof fn lemma_fix_bad_pixels_list_bytes_in(b: Seq<u8>, p: int, x: FixBadPixelsList)
    requires
        x.bad_points@.len() <= u32::MAX,
        x.bad_rects@.len() <= u32::MAX,
        0 <= p,
        p + fix_bad_pixels_list_bytes(x).len() <= b.len(),
        b.subrange(p, p + fix_bad_pixels_list_bytes(x).len()) == fix_bad_pixels_list_bytes(x),
    ensures
        FixBadPixelsList::fits(b, p),
        FixBadPixelsList::wire_size(b, p) == fix_bad_pixels_list_bytes(x).len(),
        x.read_from(b, p),
{
    let w = fix_bad_pixels_list_bytes(x);
    lemma_points_bytes_len(x.bad_points@);
    lemma_rects_bytes_len(x.bad_rects@);
    let o0: int = 0;
    assert(w.subrange(o0, o0 + 4) =~= u32_bytes(x.bayer_phase));
    lemma_sub_in(b, p, w, o0, 4);
    lemma_u32_in(b, p + o0, x.bayer_phase);
    let o1: int = o0 + 4;
    assert(w.subrange(o1, o1 + 4) =~= u32_bytes(x.bad_points@.len() as u32));
    lemma_sub_in(b, p, w, o1, 4);
    lemma_u32_in(b, p + o1, x.bad_points@.len() as u32);
    let o2: int = o1 + 4;
    assert(w.subrange(o2, o2 + 4) =~= u32_bytes(x.bad_rects@.len() as u32));
    lemma_sub_in(b, p, w, o2, 4);
    lemma_u32_in(b, p + o2, x.bad_rects@.len() as u32);
    let o3: int = o2 + 4;
    assert(w.subrange(o3, o3 + 8 * (x.bad_points@.len() as int)) =~= points_bytes(x.bad_points@));
    lemma_sub_in(b, p, w, o3, 8 * (x.bad_points@.len() as int));
    lemma_points_bytes_in(b, p + o3, x.bad_points@);
    let o4: int = o3 + 8 * (x.bad_points@.len() as int);
    assert(w.subrange(o4, o4 + 16 * (x.bad_rects@.len() as int)) =~= rects_bytes(x.bad_rects@));
    lemma_sub_in(b, p, w, o4, 16 * (x.bad_rects@.len() as int));
    lemma_rects_bytes_in(b, p + o4, x.bad_rects@);
    reveal(FixBadPixelsList::read_from);
}

/// The payload bytes of a `MapTable`.
pub open spec fn map_table_bytes(x: MapTable) -> Seq<u8> {
    region_bytes(x.region) + u32_bytes(x.table@.len() as u32) + u16s_bytes(x.table@)
}

/// The payload bytes of a `MapTable`, wherever they stand in a buffer, fit, take
/// exactly their declared size, and read back as the same record.
pub proof fn lemma_map_table_bytes_in(b: Seq<u8>, p: int, x: MapTable)
    requires
        x.table@.len() <= u32::MAX,
        0 <= p,
        p + map_table_bytes(x).len() <= b.len(),
        b.subrange(p, p + map_table_bytes(x).len()) == map_table_bytes(x),
    ensures
        MapTable::fits(b, p),
        MapTable::wire_size(b, p) == map_table_bytes(x).len(),
        x.read_from(b, p),
{
    let w = map_table_bytes(x);
    lemma_bytes_len(x.table@, Seq::empty(), Seq::empty());
    let o0: int = 0;
    assert(w.subrange(o0, o0 + 32) =~= region_bytes(x.region));
    lemma_sub_in(b, p, w, o0, 32);
    lemma_region_bytes_in(b, p + o0, x.region);
    let o1: int = o0 + 32;
    assert(w.subrange(o1, o1 + 4) =~= u32_bytes(x.table@.len() as u32));
    lemma_sub_in(b, p, w, o1, 4);
    lemma_u32_in(b, p + o1, x.table@.len() as u32);
    let o2: int = o1 + 4;
    assert(w.subrange(o2, o2 + 2 * (x.table@.len() as int)) =~= u16s_bytes(x.table@));
    lemma_sub_in(b, p, w, o2, 2 * (x.table@.len() as int));
    lemma_u16s_in(b, p + o2, x.table@);
    reveal(MapTable::read_from);
}

/// The payload bytes of a `MapPolynomial`.
pub open spec fn map_polynomial_bytes(x: MapPolynomial) -> Seq<u8> {
    region_bytes(x.region) + u32_bytes((x.coefs@.len() - 1) as u32) + u64s_bytes(x.coefs@)
}

/// The payload bytes of a `MapPolynomial`, wherever they stand in a buffer, fit, take
/// exactly their declared size, and read back as the same record.
pub proof fn lemma_map_polynomial_bytes_in(b: Seq<u8>, p: int, x: MapPolynomial)
    requires
        1 <= x.coefs@.len() <= u32::MAX + 1,
        0 <= p,
        p + map_polynomial_bytes(x).len() <= b.len(),
        b.subrange(p, p + map_polynomial_bytes(x).len()) == map_polynomial_bytes(x),
    ensures
        MapPolynomial::fits(b, p),
        MapPolynomial::wire_size(b, p) == map_polynomial_bytes(x).len(),
        x.read_from(b, p),
{
    let w = map_polynomial_bytes(x);
    lemma_bytes_len(Seq::empty(), Seq::empty(), x.coefs@);
    let o0: int = 0;
    assert(w.subrange(o0, o0 + 32) =~= region_bytes(x.region));
    lemma_sub_in(b, p, w, o0, 32);
    lemma_region_bytes_in(b, p + o0, x.region);
    let o1: int = o0 + 32;
    assert(w.subrange(o1, o1 + 4) =~= u32_bytes((x.coefs@.len() - 1) as u32));
    lemma_sub_in(b, p, w, o1, 4);
    lemma_u32_in(b, p + o1, (x.coefs@.len() - 1) as u32);
    let o2: int = o1 + 4;
    assert(w.subrange(o2, o2 + 8 * (x.coefs@.len() as int)) =~= u64s_bytes(x.coefs@));
    lemma_sub_in(b, p, w, o2, 8 * (x.coefs@.len() as int));
    lemma_u64s_in(b, p + o2, x.coefs@);
    reveal(MapPolynomial::read_from);
}

/// The payload bytes of a `ValuesPerRowOrCol`.
pub open spec fn values_per_row_or_col_bytes(x: ValuesPerRowOrCol) -> Seq<u8> {
    region_bytes(x.region) + u32_bytes(x.values@.len() as u32) + u32s_bytes(x.values@)
}

/// The payload bytes of a `ValuesPerRowOrCol`, wherever they stand in a buffer, fit, take
/// exactly their declared size, and read back as the same record.
pub proof fn lemma_values_per_row_or_col_bytes_in(b: Seq<u8>, p: int, x: ValuesPerRowOrCol)
    requires
        x.values@.len() <= u32::MAX,
        0 <= p,
        p + values_per_row_or_col_bytes(x).len() <= b.len(),
        b.subrange(p, p + values_per_row_or_col_bytes(x).len()) == values_per_row_or_col_bytes(x),
    ensures
        ValuesPerRowOrCol::fits(b, p),
        ValuesPerRowOrCol::wire_size(b, p) == values_per_row_or_col_bytes(x).len(),
        x.read_from(b, p),
{
    let w = values_per_row_or_col_bytes(x);
    lemma_bytes_len(Seq::empty(), x.values@, Seq::empty());
    let o0: int = 0;
    assert(w.subrange(o0, o0 + 32) =~= region_bytes(x.region));
    lemma_sub_in(b, p, w, o0, 32);
    lemma_region_bytes_in(b, p + o0, x.region);
    let o1: int = o0 + 32;
    assert(w.subrange(o1, o1 + 4) =~= u32_bytes(x.values@.len() as u32));
    lemma_sub_in(b, p, w, o1, 4);
    lemma_u32_in(b, p + o1, x.values@.len() as u32);
    let o2: int = o1 + 4;
    assert(w.subrange(o2, o2 + 4 * (x.values@.len() as int)) =~= u32s_bytes(x.values@));
    lemma_sub_in(b, p, w, o2, 4 * (x.values@.len() as int));
    lemma_u32s_in(b, p + o2, x.values@);
    reveal(ValuesPerRowOrCol::read_from);
}

/// The bytes of a `GainMap` before its gains.
pub open spec fn gain_map_header_bytes(x: GainMap) -> Seq<u8> {
    region_bytes(x.region) + u32_bytes(x.map_points_v) + u32_bytes(x.map_points_h) + u64_bytes(
        x.map_spacing_v,
    ) + u64_bytes(x.map_spacing_h) + u64_bytes(x.map_origin_v) + u64_bytes(x.map_origin_h)
        + u32_bytes(x.map_planes)
}

/// The payload bytes of a `GainMap`.
pub open spec fn gain_map_bytes(x: GainMap) -> Seq<u8> {
    gain_map_header_bytes(x) + u32s_bytes(x.map_gain@)
}

pub proof fn lemma_gain_map_header_in(b: Seq<u8>, p: int, x: GainMap)
    requires
        0 <= p,
        p + 76 <= b.len(),
        b.subrange(p, p + 76) == gain_map_header_bytes(x),
    ensures
        x.region.read_from(b, p),
        be_u32(b, p + 32) == x.map_points_v,
        be_u32(b, p + 36) == x.map_points_h,
        be_u64(b, p + 40) == x.map_spacing_v,
        be_u64(b, p + 48) == x.map_spacing_h,
        be_u64(b, p + 56) == x.map_origin_v,
        be_u64(b, p + 64) == x.map_origin_h,
        be_u32(b, p + 72) == x.map_planes,
{
    let h = gain_map_header_bytes(x);
    assert(h.subrange(0, 32) =~= region_bytes(x.region));
    lemma_sub_in(b, p, h, 0, 32);
    lemma_region_bytes_in(b, p, x.region);
    assert(h.subrange(32, 36) =~= u32_bytes(x.map_points_v));
    lemma_sub_in(b, p, h, 32, 4);
    lemma_u32_in(b, p + 32, x.map_points_v);
    assert(h.subrange(36, 40) =~= u32_bytes(x.map_points_h));
    lemma_sub_in(b, p, h, 36, 4);
    lemma_u32_in(b, p + 36, x.map_points_h);
    assert(h.subrange(40, 48) =~= u64_bytes(x.map_spacing_v));
    lemma_sub_in(b, p, h, 40, 8);
    lemma_u64_in(b, p + 40, x.map_spacing_v);
    assert(h.subrange(48, 56) =~= u64_bytes(x.map_spacing_h));
    lemma_sub_in(b, p, h, 48, 8);
    lemma_u64_in(b, p + 48, x.map_spacing_h);
    assert(h.subrange(56, 64) =~= u64_bytes(x.map_origin_v));
    lemma_sub_in(b, p, h, 56, 8);
    lemma_u64_in(b, p + 56, x.map_origin_v);
    assert(h.subrange(64, 72) =~= u64_bytes(x.map_origin_h));
    lemma_sub_in(b, p, h, 64, 8);
    lemma_u64_in(b, p + 64, x.map_origin_h);
    assert(h.subrange(72, 76) =~= u32_bytes(x.map_planes));
    lemma_sub_in(b, p, h, 72, 4);
    lemma_u32_in(b, p + 72, x.map_planes);
}

/// The payload bytes of a `GainMap`, wherever they stand in a buffer, fit,
/// take exactly their declared size, and read back as the same record.
pub proof fn lemma_gain_map_bytes_in(b: Seq<u8>, p: int, x: GainMap)
    requires
        x.map_gain@.len() == grid_size(x.map_points_v as int, x.map_points_h as int, x.map_planes as int),
        0 <= p,
        p + gain_map_bytes(x).len() <= b.len(),
        b.subrange(p, p + gain_map_bytes(x).len()) == gain_map_bytes(x),
    ensures
        GainMap::fits(b, p),
        GainMap::wire_size(b, p) == gain_map_bytes(x).len(),
        x.read_from(b, p),
{
    let w = gain_map_bytes(x);
    let n = x.map_gain@.len() as int;
    lemma_bytes_len(Seq::empty(), x.map_gain@, Seq::empty());
    assert(w.subrange(0, 76) =~= gain_map_header_bytes(x));
    lemma_sub_in(b, p, w, 0, 76);
    lemma_gain_map_header_in(b, p, x);
    assert(w.subrange(76, 76 + 4 * n) =~= u32s_bytes(x.map_gain@));
    lemma_sub_in(b, p, w, 76, 4 * n);
    lemma_u32s_in(b, p + 76, x.map_gain@);
    reveal(GainMap::read_from);
}

/// The payload bytes of a `WarpRectilinear`.
pub open spec fn warp_rectilinear_bytes(x: WarpRectilinear) -> Seq<u8> {
    u32_bytes(x.coefs@.len() as u32) + rectilinear_coefs_bytes(x.coefs@) + u64_bytes(x.center_x) + u64_bytes(x.center_y)
}

/// The payload bytes of a `WarpRectilinear`, wherever they stand in a buffer, fit, take
/// exactly their declared size, and read back as the same record.
pub proof fn lemma_warp_rectilinear_bytes_in(b: Seq<u8>, p: int, x: WarpRectilinear)
    requires
        x.coefs@.len() <= u32::MAX,
        0 <= p,
        p + warp_rectilinear_bytes(x).len() <= b.len(),
        b.subrange(p, p + warp_rectilinear_bytes(x).len()) == warp_rectilinear_bytes(x),
    ensures
        WarpRectilinear::fits(b, p),
        WarpRectilinear::wire_size(b, p) == warp_rectilinear_bytes(x).len(),
        x.read_from(b, p),
{
    let w = warp_rectilinear_bytes(x);
    lemma_rectilinear_coefs_bytes_len(x.coefs@);
    let o0: int = 0;
    assert(w.subrange(o0, o0 + 4) =~= u32_bytes(x.coefs@.len() as u32));
    lemma_sub_in(b, p, w, o0, 4);
    lemma_u32_in(b, p + o0, x.coefs@.len() as u32);
    let o1: int = o0 + 4;
    assert(w.subrange(o1, o1 + 48 * (x.coefs@.len() as int)) =~= rectilinear_coefs_bytes(x.coefs@));
    lemma_sub_in(b, p, w, o1, 48 * (x.coefs@.len() as int));
    lemma_rectilinear_coefs_bytes_in(b, p + o1, x.coefs@);
    let o2: int = o1 + 48 * (x.coefs@.len() as int);
    assert(w.subrange(o2, o2 + 8) =~= u64_bytes(x.center_x));
    lemma_sub_in(b, p, w, o2, 8);
    lemma_u64_in(b, p + o2, x.center_x);
    let o3: int = o2 + 8;
    assert(w.subrange(o3, o3 + 8) =~= u64_bytes(x.center_y));
    lemma_sub_in(b, p, w, o3, 8);
    lemma_u64_in(b, p + o3, x.center_y);
    reveal(WarpRectilinear::read_from);
}

/// The payload bytes of a `WarpFisheye`.
pub open spec fn warp_fisheye_bytes(x: WarpFisheye) -> Seq<u8> {
    u32_bytes(x.coefs@.len() as u32) + fisheye_coefs_bytes(x.coefs@) + u64_bytes(x.center_x) + u64_bytes(x.center_y)
}

/// The payload bytes of a `WarpFisheye`, wherever they stand in a buffer, fit, take
/// exactly their declared size, and read back as the same record.
pub proof fn lemma_warp_fisheye_bytes_in(b: Seq<u8>, p: int, x: WarpFisheye)
    requires
        x.coefs@.len() <= u32::MAX,
        0 <= p,
        p + warp_fisheye_bytes(x).len() <= b.len(),
        b.subrange(p, p + warp_fisheye_bytes(x).len()) == warp_fisheye_bytes(x),
    ensures
        WarpFisheye::fits(b, p),
        WarpFisheye::wire_size(b, p) == warp_fisheye_bytes(x).len(),
        x.read_from(b, p),
{
    let w = warp_fisheye_bytes(x);
    lemma_fisheye_coefs_bytes_len(x.coefs@);
    let o0: int = 0;
    assert(w.subrange(o0, o0 + 4) =~= u32_bytes(x.coefs@.len() as u32));
    lemma_sub_in(b, p, w, o0, 4);
    lemma_u32_in(b, p + o0, x.coefs@.len() as u32);
    let o1: int = o0 + 4;
    assert(w.subrange(o1, o1 + 32 * (x.coefs@.len() as int)) =~= fisheye_coefs_bytes(x.coefs@));
    lemma_sub_in(b, p, w, o1, 32 * (x.coefs@.len() as int));
    lemma_fisheye_coefs_bytes_in(b, p + o1, x.coefs@);
    let o2: int = o1 + 32 * (x.coefs@.len() as int);
    assert(w.subrange(o2, o2 + 8) =~= u64_bytes(x.center_x));
    lemma_sub_in(b, p, w, o2, 8);
    lemma_u64_in(b, p + o2, x.center_x);
    let o3: int = o2 + 8;
    assert(w.subrange(o3, o3 + 8) =~= u64_bytes(x.center_y));
    lemma_sub_in(b, p, w, o3, 8);
    lemma_u64_in(b, p + o3, x.center_y);
    reveal(WarpFisheye::read_from);
}

/// The payload bytes of a `WarpRectilinear2`.
pub open spec fn warp_rectilinear2_bytes(x: WarpRectilinear2) -> Seq<u8> {
    u32_bytes(x.coefs@.len() as u32) + rectilinear2_coefs_bytes(x.coefs@) + u64_bytes(x.center_x) + u64_bytes(x.center_y) + u32_bytes(x.reciprocal_radial)
}

/// The payload bytes of a `WarpRectilinear2`, wherever they stand in a buffer, fit, take
/// exactly their declared size, and read back as the same record.
pub proof fn lemma_warp_rectilinear2_bytes_in(b: Seq<u8>, p: int, x: WarpRectilinear2)
    requires
        x.coefs@.len() <= u32::MAX,
        0 <= p,
        p + warp_rectilinear2_bytes(x).len() <= b.len(),
        b.subrange(p, p + warp_rectilinear2_bytes(x).len()) == warp_rectilinear2_bytes(x),
    ensures
        WarpRectilinear2::fits(b, p),
        WarpRectilinear2::wire_size(b, p) == warp_rectilinear2_bytes(x).len(),
        x.read_from(b, p),
{
    let w = warp_rectilinear2_bytes(x);
    lemma_rectilinear2_coefs_bytes_len(x.coefs@);
    let o0: int = 0;
    assert(w.subrange(o0, o0 + 4) =~= u32_bytes(x.coefs@.len() as u32));
    lemma_sub_in(b, p, w, o0, 4);
    lemma_u32_in(b, p + o0, x.coefs@.len() as u32);
    let o1: int = o0 + 4;
    assert(w.subrange(o1, o1 + 136 * (x.coefs@.len() as int)) =~= rectilinear2_coefs_bytes(x.coefs@));
    lemma_sub_in(b, p, w, o1, 136 * (x.coefs@.len() as int));
    lemma_rectilinear2_coefs_bytes_in(b, p + o1, x.coefs@);
    let o2: int = o1 + 136 * (x.coefs@.len() as int);
    assert(w.subrange(o2, o2 + 8) =~= u64_bytes(x.center_x));
    lemma_sub_in(b, p, w, o2, 8);
    lemma_u64_in(b, p + o2, x.center_x);
    let o3: int = o2 + 8;
    assert(w.subrange(o3, o3 + 8) =~= u64_bytes(x.center_y));
    lemma_sub_in(b, p, w, o3, 8);
    lemma_u64_in(b, p + o3, x.center_y);
    let o4: int = o3 + 8;
    assert(w.subrange(o4, o4 + 4) =~= u32_bytes(x.reciprocal_radial));
    lemma_sub_in(b, p, w, o4, 4);
    lemma_u32_in(b, p + o4, x.reciprocal_radial);
    reveal(WarpRectilinear2::read_from);
}


/// The payload bytes of an opcode.
pub open spec fn payload_bytes(op: DngOpcode) -> Seq<u8> {
    match op {
        DngOpcode::WarpRectilinear(x) => warp_rectilinear_bytes(x),
        DngOpcode::WarpFisheye(x) => warp_fisheye_bytes(x),
        DngOpcode::FixVignetteRadial(x) => fix_vignette_radial_bytes(x),
        DngOpcode::FixBadPixelsConstant(x) => fix_bad_pixels_constant_bytes(x),
        DngOpcode::FixBadPixelsList(x) => fix_bad_pixels_list_bytes(x),
        DngOpcode::TrimBounds(x) => trim_bounds_bytes(x),
        DngOpcode::MapTable(x) => map_table_bytes(x),
        DngOpcode::MapPolynomial(x) => map_polynomial_bytes(x),
        DngOpcode::GainMap(x) => gain_map_bytes(x),
        DngOpcode::DeltaPerRow(x) => values_per_row_or_col_bytes(x),
        DngOpcode::DeltaPerColumn(x) => values_per_row_or_col_bytes(x),
        DngOpcode::ScalePerRow(x) => values_per_row_or_col_bytes(x),
        DngOpcode::ScalePerColumn(x) => values_per_row_or_col_bytes(x),
        DngOpcode::WarpRectilinear2(x) => warp_rectilinear2_bytes(x),
    }
}

/// The opcode can be written: each count that the stream carries fits in 32
/// bits, and a gain map holds as many gains as its grid has points.
pub open spec fn encodable(op: DngOpcode) -> bool {
    match op {
        DngOpcode::WarpRectilinear(x) => x.coefs@.len() <= u32::MAX,
        DngOpcode::WarpFisheye(x) => x.coefs@.len() <= u32::MAX,
        DngOpcode::FixVignetteRadial(x) => true,
        DngOpcode::FixBadPixelsConstant(x) => true,
        DngOpcode::FixBadPixelsList(x) => x.bad_points@.len() <= u32::MAX && x.bad_rects@.len() <= u32::MAX,
        DngOpcode::TrimBounds(x) => true,
        DngOpcode::MapTable(x) => x.table@.len() <= u32::MAX,
        DngOpcode::MapPolynomial(x) => 1 <= x.coefs@.len() <= u32::MAX + 1,
        DngOpcode::GainMap(x) => x.map_gain@.len() == grid_size(
                x.map_points_v as int,
                x.map_points_h as int,
                x.map_planes as int,
            ),
        DngOpcode::DeltaPerRow(x) => x.values@.len() <= u32::MAX,
        DngOpcode::DeltaPerColumn(x) => x.values@.len() <= u32::MAX,
        DngOpcode::ScalePerRow(x) => x.values@.len() <= u32::MAX,
        DngOpcode::ScalePerColumn(x) => x.values@.len() <= u32::MAX,
        DngOpcode::WarpRectilinear2(x) => x.coefs@.len() <= u32::MAX,
    }
}

/// The payload bytes of a writable opcode, wherever they stand in a buffer,
/// lie wholly in it, take exactly the size that their decode consumes, and
/// describe that opcode field for field.
#[verifier::rlimit(40)]
pub proof fn lemma_payload_in(b: Seq<u8>, p: int, op: DngOpcode)
    requires
        encodable(op),
        0 <= p,
        p + payload_bytes(op).len() <= b.len(),
        b.subrange(p, p + payload_bytes(op).len()) == payload_bytes(op),
    ensures
        payload_fits(op.id(), b, p),
        payload_size(op.id(), b, p) == payload_bytes(op).len(),
        op.read_from(b, p),
{
    reveal(payload_fits);
    reveal(payload_size);
    reveal(DngOpcode::read_from);
    match op {
        DngOpcode::WarpRectilinear(x) => lemma_warp_rectilinear_bytes_in(b, p, x),
        DngOpcode::WarpFisheye(x) => lemma_warp_fisheye_bytes_in(b, p, x),
        DngOpcode::FixVignetteRadial(x) => lemma_fix_vignette_radial_bytes_in(b, p, x),
        DngOpcode::FixBadPixelsConstant(x) => lemma_fix_bad_pixels_constant_bytes_in(b, p, x),
        DngOpcode::FixBadPixelsList(x) => lemma_fix_bad_pixels_list_bytes_in(b, p, x),
        DngOpcode::TrimBounds(x) => lemma_trim_bounds_bytes_in(b, p, x),
        DngOpcode::MapTable(x) => lemma_map_table_bytes_in(b, p, x),
        DngOpcode::MapPolynomial(x) => lemma_map_polynomial_bytes_in(b, p, x),
        DngOpcode::GainMap(x) => lemma_gain_map_bytes_in(b, p, x),
        DngOpcode::DeltaPerRow(x) => lemma_values_per_row_or_col_bytes_in(b, p, x),
        DngOpcode::DeltaPerColumn(x) => lemma_values_per_row_or_col_bytes_in(b, p, x),
        DngOpcode::ScalePerRow(x) => lemma_values_per_row_or_col_bytes_in(b, p, x),
        DngOpcode::ScalePerColumn(x) => lemma_values_per_row_or_col_bytes_in(b, p, x),
        DngOpcode::WarpRectilinear2(x) => lemma_warp_rectilinear2_bytes_in(b, p, x),
    }
}

/// Round trip: the payload bytes of every writable opcode, of each kind, lie
/// wholly in the buffer, take exactly the size that their decode consumes,
/// and describe that opcode field for field, so that decoding them yields a
/// record equal to it.
pub proof fn lemma_round_trip(op: DngOpcode)
    requires
        encodable(op),
    ensures
        payload_fits(op.id(), payload_bytes(op), 0),
        payload_size(op.id(), payload_bytes(op), 0) == payload_bytes(op).len(),
        op.read_from(payload_bytes(op), 0),
{
    let w = payload_bytes(op);
    assert(w.subrange(0, w.len() as int) =~= w);
    lemma_payload_in(w, 0, op);
}

/// Decoding the payload bytes of a writable opcode, with its flags, succeeds,
/// consumes all of them, and yields a record of the same kind and flags whose
/// fields are those of the opcode.
pub proof fn lemma_decode_encoded(
    op: DngOpcode,
    r: Result<DngOpcode, DecodeError>,
    end: int,
)
    requires
        encodable(op),
        payload_decoded(r, op.id(), op.flags(), payload_bytes(op), 0, end),
    ensures
        r matches Ok(d) && d.id() == op.id() && d.flags() == op.flags() && d.read_from(
            payload_bytes(op),
            0,
        ) && op.read_from(payload_bytes(op), 0),
        end == payload_bytes(op).len(),
{
    lemma_round_trip(op);
}

/// The raw flags field that describes `f`.
pub open spec fn flag_bits(f: DngOpcodeFlags) -> u32 {
    if f.optional && f.preview_skip {
        3
    } else if f.optional {
        1
    } else if f.preview_skip {
        2
    } else {
        0
    }
}

/// The bytes of one entry: its header (identifier, version zero, flags and
/// payload length) and its payload.
pub open spec fn entry_bytes(op: DngOpcode) -> Seq<u8> {
    u32_bytes(op.id().code()) + u32_bytes(0) + u32_bytes(flag_bits(op.flags())) + u32_bytes(
        payload_bytes(op).len() as u32,
    ) + payload_bytes(op)
}

/// The bytes of the entries of `ops`, in order.
pub open spec fn entries_bytes(ops: Seq<DngOpcode>) -> Seq<u8>
    decreases ops.len(),
{
    if ops.len() == 0 {
        Seq::empty()
    } else {
        entry_bytes(ops[0]) + entries_bytes(ops.drop_first())
    }
}

/// The bytes of a whole opcode list: the entry count and the entries.
pub open spec fn list_bytes(ops: Seq<DngOpcode>) -> Seq<u8> {
    u32_bytes(ops.len() as u32) + entries_bytes(ops)
}

/// The opcode can be written as an entry: its payload can be written and its
/// length fits in the header's 32 bits.
pub open spec fn writable_entry(op: DngOpcode) -> bool {
    encodable(op) && payload_bytes(op).len() <= u32::MAX
}

proof fn lemma_flag_bits(f: DngOpcodeFlags)
    ensures
        DngOpcodeFlags::from_bits(flag_bits(f)) == f,
{
    assert(0u32 & 1 == 0 && 0u32 & 2 == 0 && 1u32 & 1 == 1 && 1u32 & 2 == 0 && 2u32 & 1 == 0
        && 2u32 & 2 == 2 && 3u32 & 1 == 1 && 3u32 & 2 == 2) by (bit_vector);
}

proof fn lemma_code_resolves(id: DngOpcodeId)
    ensures
        DngOpcodeId::from_code_spec(id.code() as int) == Some(id),
{
}

/// The entries of `ops`, wherever their bytes stand in a buffer, decode to
/// one opcode each, in order, with the kind, flags and fields of that opcode.
#[verifier::rlimit(60)]
#[verifier::spinoff_prover]
pub proof fn lemma_entries_in(b: Seq<u8>, p: int, ops: Seq<DngOpcode>)
    requires
        0 <= p,
        p + entries_bytes(ops).len() <= b.len(),
        b.subrange(p, p + entries_bytes(ops).len()) == entries_bytes(ops),
        forall|i: int| 0 <= i < ops.len() ==> writable_entry(#[trigger] ops[i]),
    ensures
        scan(b, p, ops.len()) matches Ok(offsets) && offsets.len() == ops.len() && forall|k: int|
            0 <= k < ops.len() ==> entry_at(b, offsets[k], #[trigger] ops[k]),
        walk_end(b, p, ops.len()) == p + entries_bytes(ops).len(),
    decreases ops.len(),
{
    if ops.len() > 0 {
        let op = ops[0];
        let rest = ops.drop_first();
        let e = entries_bytes(ops);
        let pb = payload_bytes(op);
        let len = pb.len() as int;
        assert(writable_entry(op));
        assert(e.subrange(0, 4) =~= u32_bytes(op.id().code()));
        lemma_sub_in(b, p, e, 0, 4);
        lemma_u32_in(b, p, op.id().code());
        assert(e.subrange(8, 12) =~= u32_bytes(flag_bits(op.flags())));
        lemma_sub_in(b, p, e, 8, 4);
        lemma_u32_in(b, p + 8, flag_bits(op.flags()));
        assert(e.subrange(12, 16) =~= u32_bytes(len as u32));
        lemma_sub_in(b, p, e, 12, 4);
        lemma_u32_in(b, p + 12, len as u32);
        assert(e.subrange(16, 16 + len) =~= pb);
        lemma_sub_in(b, p, e, 16, len);
        lemma_payload_in(b, p + 16, op);
        lemma_flag_bits(op.flags());
        lemma_code_resolves(op.id());
        let er = entries_bytes(rest);
        assert(e.subrange(16 + len, 16 + len + er.len()) =~= er);
        lemma_sub_in(b, p, e, 16 + len, er.len() as int);
        assert forall|i: int| 0 <= i < rest.len() implies writable_entry(#[trigger] rest[i]) by {
            assert(rest[i] == ops[i + 1]);
        }
        lemma_entries_in(b, p + 16 + len, rest);
        let tail = scan(b, p + 16 + len, rest.len())->Ok_0;
        assert((ops.len() - 1) as nat == rest.len());
        assert(walk_end(b, p, ops.len()) == walk_end(b, p + 16 + len, rest.len()));
        let offsets = seq![p + 16] + tail;
        assert(scan(b, p, ops.len()) == Ok::<Seq<int>, DecodeError>(offsets));
        assert forall|k: int| 0 <= k < ops.len() implies entry_at(b, offsets[k], #[trigger] ops[k]) by {
            if k > 0 {
                assert(ops[k] == rest[k - 1]);
                assert(offsets[k] == tail[k - 1]);
            }
        }
    }
}

/// Round trip over a whole list: the bytes of a list of writable opcodes
/// decode to as many opcodes, in order, each with the kind, flags and fields
/// of the opcode it was written from.
pub proof fn lemma_list_round_trip(ops: Seq<DngOpcode>)
    requires
        ops.len() <= u32::MAX,
        forall|i: int| 0 <= i < ops.len() ==> writable_entry(#[trigger] ops[i]),
    ensures
        list_offsets(list_bytes(ops)) matches Ok(offsets) && offsets.len() == ops.len() && forall|
            k: int,
        | 0 <= k < ops.len() ==> entry_at(list_bytes(ops), offsets[k], #[trigger] ops[k]),
{
    let b = list_bytes(ops);
    let e = entries_bytes(ops);
    assert(b.subrange(0, 4) =~= u32_bytes(ops.len() as u32));
    lemma_u32_in(b, 0, ops.len() as u32);
    assert(b.subrange(4, 4 + e.len() as int) =~= e);
    lemma_entries_in(b, 4, ops);
}

/// The bytes of an entry with identifier `id`, flags field `flags` and
/// payload `u`, of version zero.
pub open spec fn raw_entry_bytes(id: u32, flags: u32, u: Seq<u8>) -> Seq<u8> {
    u32_bytes(id) + u32_bytes(0) + u32_bytes(flags) + u32_bytes(u.len() as u32) + u
}

/// The bytes of the list of `ops` with an entry of identifier `id`, flags
/// `flags` and payload `u` inserted before the entry at `k`.
pub open spec fn list_bytes_with(
    ops: Seq<DngOpcode>,
    k: int,
    id: u32,
    flags: u32,
    u: Seq<u8>,
) -> Seq<u8> {
    u32_bytes((ops.len() + 1) as u32) + entries_bytes(ops.subrange(0, k)) + raw_entry_bytes(
        id,
        flags,
        u,
    ) + entries_bytes(ops.subrange(k, ops.len() as int))
}

/// Inserting an entry whose identifier is not recognised anywhere in a list
/// of writable opcodes changes nothing that the list decodes to: it is
/// skipped by exactly its payload length, and every opcode, the ones after it
/// included, still decodes with its kind, flags and fields.
#[verifier::rlimit(60)]
#[verifier::spinoff_prover]
pub proof fn lemma_list_with_unknown(
    ops: Seq<DngOpcode>,
    k: int,
    id: u32,
    flags: u32,
    u: Seq<u8>,
)
    requires
        ops.len() + 1 <= u32::MAX,
        0 <= k <= ops.len(),
        forall|i: int| 0 <= i < ops.len() ==> writable_entry(#[trigger] ops[i]),
        !(1 <= id <= 14),
        u.len() <= u32::MAX,
    ensures
        list_offsets(list_bytes_with(ops, k, id, flags, u)) matches Ok(offsets) && offsets.len()
            == ops.len() && forall|j: int|
            0 <= j < ops.len() ==> entry_at(
                list_bytes_with(ops, k, id, flags, u),
                offsets[j],
                #[trigger] ops[j],
            ),
{
    let b = list_bytes_with(ops, k, id, flags, u);
    let front = ops.subrange(0, k);
    let back = ops.subrange(k, ops.len() as int);
    let ef = entries_bytes(front);
    let eu = raw_entry_bytes(id, flags, u);
    let eb = entries_bytes(back);
    let q: int = 4 + ef.len() as int;
    let r: int = q + 16 + u.len() as int;
    assert(b.subrange(0, 4) =~= u32_bytes((ops.len() + 1) as u32));
    lemma_u32_in(b, 0, (ops.len() + 1) as u32);
    assert forall|i: int| 0 <= i < front.len() implies writable_entry(#[trigger] front[i]) by {
        assert(front[i] == ops[i]);
    }
    assert forall|i: int| 0 <= i < back.len() implies writable_entry(#[trigger] back[i]) by {
        assert(back[i] == ops[k + i]);
    }
    assert(b.subrange(4, q) =~= ef);
    lemma_entries_in(b, 4, front);
    assert(b.subrange(q, q + 4) =~= u32_bytes(id));
    lemma_u32_in(b, q, id);
    assert(b.subrange(q + 12, q + 16) =~= u32_bytes(u.len() as u32));
    lemma_u32_in(b, q + 12, u.len() as u32);
    assert(front.len() == k);
    lemma_list_skip_unknown(b, k as nat);
    assert(b.subrange(r, r + eb.len() as int) =~= eb);
    lemma_entries_in(b, r, back);
    assert((ops.len() + 1 - k - 1) as nat == back.len());
    let o1 = scan(b, 4, k as nat)->Ok_0;
    let o2 = scan(b, r, back.len())->Ok_0;
    let offsets = o1 + o2;
    assert(list_offsets(b) == Ok::<Seq<int>, DecodeError>(offsets));
    assert forall|j: int| 0 <= j < ops.len() implies entry_at(b, offsets[j], #[trigger] ops[j]) by {
        if j < k {
            assert(ops[j] == front[j]);
        } else {
            assert(ops[j] == back[j - k]);
            assert(offsets[j] == o2[j - k]);
        }
    }
}

} // verus!
