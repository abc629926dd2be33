use dngopcode::bytes::{take_u16, take_u32, take_u64};
use dngopcode::list::decode_opcode_list;
use dngopcode::opcode::{
    BadPoint, BadRect, DecodeError, DngOpcode, DngOpcodeFlags, DngOpcodeId, DngOpcodeRegion,
    WarpFisheyeCoef, WarpRectilinear2Coef, WarpRectilinearCoef,
};

fn u16s(out: &mut Vec<u8>, v: u16) {
    out.extend_from_slice(&v.to_be_bytes());
}

fn u32s(out: &mut Vec<u8>, v: u32) {
    out.extend_from_slice(&v.to_be_bytes());
}

fn f64s(out: &mut Vec<u8>, v: f64) {
    out.extend_from_slice(&v.to_bits().to_be_bytes());
}

fn f32s(out: &mut Vec<u8>, v: f32) {
    out.extend_from_slice(&v.to_bits().to_be_bytes());
}

fn entry(out: &mut Vec<u8>, id: u32, flags: u32, payload: &[u8]) {
    u32s(out, id);
    u32s(out, 0);
    u32s(out, flags);
    u32s(out, payload.len() as u32);
    out.extend_from_slice(payload);
}

fn list(entries: &[(u32, u32, Vec<u8>)]) -> Vec<u8> {
    let mut out = Vec::new();
    u32s(&mut out, entries.len() as u32);
    for (id, flags, payload) in entries {
        entry(&mut out, *id, *flags, payload);
    }
    out
}

fn region(out: &mut Vec<u8>, base: u32) {
    for k in 0..8 {
        u32s(out, base + k);
    }
}

fn single(id: u32, flags: u32, payload: Vec<u8>) -> DngOpcode {
    let mut ops = decode_opcode_list(&list(&[(id, flags, payload)])).unwrap();
    assert_eq!(ops.len(), 1);
    ops.pop().unwrap()
}

#[test]
fn trim_bounds_scenario() {
    let mut buf = Vec::new();
    u32s(&mut buf, 1);
    u32s(&mut buf, 6);
    u32s(&mut buf, 0);
    u32s(&mut buf, 1);
    u32s(&mut buf, 16);
    for v in [0u32, 0, 100, 200] {
        u32s(&mut buf, v);
    }
    let ops = decode_opcode_list(&buf).unwrap();
    assert_eq!(ops.len(), 1);
    match &ops[0] {
        DngOpcode::TrimBounds(t) => {
            assert!(t.flags.optional);
            assert!(!t.flags.preview_skip);
            assert_eq!((t.top, t.left, t.bottom, t.right), (0, 0, 100, 200));
        }
        other => panic!("unexpected {:?}", other),
    }
}

fn gain_map_payload(gains: usize) -> Vec<u8> {
    let mut p = Vec::new();
    region(&mut p, 1);
    u32s(&mut p, 2);
    u32s(&mut p, 3);
    f64s(&mut p, 0.5);
    f64s(&mut p, 0.25);
    f64s(&mut p, 0.0);
    f64s(&mut p, 1.0);
    u32s(&mut p, 1);
    for k in 0..gains {
        f32s(&mut p, 1.0 + k as f32);
    }
    p
}

#[test]
fn gain_map_short_grid_is_truncated() {
    let payload = gain_map_payload(5);
    let mut buf = Vec::new();
    u32s(&mut buf, 1);
    u32s(&mut buf, 9);
    u32s(&mut buf, 0);
    u32s(&mut buf, 0);
    u32s(&mut buf, 100);
    buf.extend_from_slice(&payload);
    assert_eq!(decode_opcode_list(&buf).unwrap_err(), DecodeError::Truncated);
}

#[test]
fn gain_map_round_trip() {
    match single(9, 2, gain_map_payload(6)) {
        DngOpcode::GainMap(g) => {
            assert!(!g.flags.optional);
            assert!(g.flags.preview_skip);
            assert_eq!(g.region.top, 1);
            assert_eq!(g.region.col_pitch, 8);
            assert_eq!((g.map_points_v, g.map_points_h, g.map_planes), (2, 3, 1));
            assert_eq!(g.map_spacing_v, 0.5f64.to_bits());
            assert_eq!(g.map_spacing_h, 0.25f64.to_bits());
            assert_eq!(g.map_origin_v, 0.0f64.to_bits());
            assert_eq!(g.map_origin_h, 1.0f64.to_bits());
            let gains: Vec<f32> = g.map_gain.iter().map(|b| f32::from_bits(*b)).collect();
            assert_eq!(gains, vec![1.0, 2.0, 3.0, 4.0, 5.0, 6.0]);
        }
        other => panic!("unexpected {:?}", other),
    }
}

#[test]
fn gain_map_huge_grid_is_truncated() {
    let mut p = Vec::new();
    region(&mut p, 0);
    u32s(&mut p, u32::MAX);
    u32s(&mut p, u32::MAX);
    for _ in 0..4 {
        f64s(&mut p, 0.0);
    }
    u32s(&mut p, u32::MAX);
    let buf = list(&[(9, 0, p)]);
    assert_eq!(decode_opcode_list(&buf).unwrap_err(), DecodeError::Truncated);
}

#[test]
fn empty_list() {
    let ops = decode_opcode_list(&[0, 0, 0, 0]).unwrap();
    assert!(ops.is_empty());
}

#[test]
fn size_mismatch_returns_no_records() {
    let mut good = Vec::new();
    for v in [1u32, 2, 3, 4] {
        u32s(&mut good, v);
    }
    let mut bad = good.clone();
    bad.extend_from_slice(&[0, 0, 0, 0]);
    let buf = list(&[(6, 0, good), (6, 0, bad)]);
    assert_eq!(decode_opcode_list(&buf).unwrap_err(), DecodeError::SizeMismatch);
}

#[test]
fn short_declared_length_is_a_mismatch() {
    let mut buf = Vec::new();
    u32s(&mut buf, 1);
    u32s(&mut buf, 4);
    u32s(&mut buf, 0);
    u32s(&mut buf, 0);
    u32s(&mut buf, 4);
    u32s(&mut buf, 7);
    u32s(&mut buf, 1);
    assert_eq!(decode_opcode_list(&buf).unwrap_err(), DecodeError::SizeMismatch);
}

#[test]
fn unknown_opcode_is_skipped() {
    let mut trim = Vec::new();
    for v in [5u32, 6, 7, 8] {
        u32s(&mut trim, v);
    }
    let buf = list(&[(99, 0, vec![1, 2, 3, 4, 5]), (0, 0, vec![]), (6, 3, trim)]);
    let ops = decode_opcode_list(&buf).unwrap();
    assert_eq!(ops.len(), 1);
    match &ops[0] {
        DngOpcode::TrimBounds(t) => {
            assert!(t.flags.optional && t.flags.preview_skip);
            assert_eq!((t.top, t.left, t.bottom, t.right), (5, 6, 7, 8));
        }
        other => panic!("unexpected {:?}", other),
    }
}

#[test]
fn unknown_opcode_past_the_end_is_truncated() {
    let mut buf = Vec::new();
    u32s(&mut buf, 1);
    u32s(&mut buf, 15);
    u32s(&mut buf, 0);
    u32s(&mut buf, 0);
    u32s(&mut buf, 8);
    u32s(&mut buf, 0);
    assert_eq!(decode_opcode_list(&buf).unwrap_err(), DecodeError::Truncated);
}

#[test]
fn truncated_count() {
    assert_eq!(decode_opcode_list(&[0, 0, 1]).unwrap_err(), DecodeError::Truncated);
}

#[test]
fn truncated_header() {
    let mut buf = Vec::new();
    u32s(&mut buf, 1);
    u32s(&mut buf, 6);
    u32s(&mut buf, 0);
    assert_eq!(decode_opcode_list(&buf).unwrap_err(), DecodeError::Truncated);
}

#[test]
fn count_larger_than_entries_is_truncated() {
    let mut buf = list(&[(6, 0, vec![0; 16])]);
    buf[3] = 2;
    assert_eq!(decode_opcode_list(&buf).unwrap_err(), DecodeError::Truncated);
}

#[test]
fn truncated_payload() {
    let mut buf = Vec::new();
    u32s(&mut buf, 1);
    u32s(&mut buf, 6);
    u32s(&mut buf, 0);
    u32s(&mut buf, 0);
    u32s(&mut buf, 16);
    u32s(&mut buf, 1);
    u32s(&mut buf, 2);
    assert_eq!(decode_opcode_list(&buf).unwrap_err(), DecodeError::Truncated);
}

#[test]
fn warp_rectilinear_round_trip() {
    let mut p = Vec::new();
    u32s(&mut p, 2);
    for plane in 0..2 {
        for k in 0..6 {
            f64s(&mut p, (plane * 10 + k) as f64);
        }
    }
    f64s(&mut p, 0.5);
    f64s(&mut p, 0.75);
    match single(1, 0, p) {
        DngOpcode::WarpRectilinear(w) => {
            assert_eq!(w.coefs.len(), 2);
            assert_eq!(f64::from_bits(w.coefs[1].kr[0]), 10.0);
            assert_eq!(f64::from_bits(w.coefs[1].kr[3]), 13.0);
            assert_eq!(f64::from_bits(w.coefs[1].kt[1]), 15.0);
            assert_eq!(f64::from_bits(w.coefs[0].kt[0]), 4.0);
            assert_eq!(f64::from_bits(w.center_x), 0.5);
            assert_eq!(f64::from_bits(w.center_y), 0.75);
        }
        other => panic!("unexpected {:?}", other),
    }
}

#[test]
fn warp_fisheye_round_trip() {
    let mut p = Vec::new();
    u32s(&mut p, 1);
    for k in 0..4 {
        f64s(&mut p, k as f64 + 0.5);
    }
    f64s(&mut p, 2.0);
    f64s(&mut p, 3.0);
    match single(2, 1, p) {
        DngOpcode::WarpFisheye(w) => {
            assert!(w.flags.optional);
            assert_eq!(w.coefs.len(), 1);
            assert_eq!(f64::from_bits(w.coefs[0].kr[2]), 2.5);
            assert_eq!(f64::from_bits(w.center_x), 2.0);
            assert_eq!(f64::from_bits(w.center_y), 3.0);
        }
        other => panic!("unexpected {:?}", other),
    }
}

#[test]
fn fix_vignette_radial_round_trip() {
    let mut p = Vec::new();
    for k in 0..7 {
        f64s(&mut p, k as f64 * 0.125);
    }
    match single(3, 0, p) {
        DngOpcode::FixVignetteRadial(v) => {
            assert_eq!(f64::from_bits(v.k[4]), 0.5);
            assert_eq!(f64::from_bits(v.center_x), 0.625);
            assert_eq!(f64::from_bits(v.center_y), 0.75);
        }
        other => panic!("unexpected {:?}", other),
    }
}

#[test]
fn fix_bad_pixels_constant_round_trip() {
    let mut p = Vec::new();
    u32s(&mut p, 65535);
    u32s(&mut p, 3);
    match single(4, 0, p) {
        DngOpcode::FixBadPixelsConstant(c) => {
            assert_eq!((c.constant, c.bayer_phase), (65535, 3));
        }
        other => panic!("unexpected {:?}", other),
    }
}

#[test]
fn fix_bad_pixels_list_round_trip() {
    let mut p = Vec::new();
    u32s(&mut p, 1);
    u32s(&mut p, 2);
    u32s(&mut p, 1);
    for v in [10u32, 20, 30, 40, 1, 2, 3, 4] {
        u32s(&mut p, v);
    }
    match single(5, 0, p) {
        DngOpcode::FixBadPixelsList(l) => {
            assert_eq!(l.bayer_phase, 1);
            assert_eq!(l.bad_points.len(), 2);
            assert_eq!((l.bad_points[0].row, l.bad_points[0].column), (10, 20));
            assert_eq!((l.bad_points[1].row, l.bad_points[1].column), (30, 40));
            assert_eq!(l.bad_rects.len(), 1);
            let r = l.bad_rects[0];
            assert_eq!((r.top, r.left, r.bottom, r.right), (1, 2, 3, 4));
        }
        other => panic!("unexpected {:?}", other),
    }
}

#[test]
fn map_table_round_trip() {
    let mut p = Vec::new();
    region(&mut p, 100);
    u32s(&mut p, 3);
    for v in [7u16, 0x1234, 0xffff] {
        u16s(&mut p, v);
    }
    match single(7, 0, p) {
        DngOpcode::MapTable(m) => {
            assert_eq!(m.region.top, 100);
            assert_eq!(m.region.planes, 105);
            assert_eq!(m.table, vec![7, 0x1234, 0xffff]);
        }
        other => panic!("unexpected {:?}", other),
    }
}

#[test]
fn map_polynomial_round_trip() {
    let mut p = Vec::new();
    region(&mut p, 0);
    u32s(&mut p, 2);
    for v in [1.0f64, -2.0, 0.5] {
        f64s(&mut p, v);
    }
    match single(8, 0, p) {
        DngOpcode::MapPolynomial(m) => {
            let c: Vec<f64> = m.coefs.iter().map(|b| f64::from_bits(*b)).collect();
            assert_eq!(c, vec![1.0, -2.0, 0.5]);
        }
        other => panic!("unexpected {:?}", other),
    }
}

#[test]
fn values_per_row_or_column_round_trip() {
    for id in 10u32..=13 {
        let mut p = Vec::new();
        region(&mut p, id);
        u32s(&mut p, 2);
        f32s(&mut p, 0.5);
        f32s(&mut p, -1.5);
        let op = single(id, 0, p);
        let v = match (&op, id) {
            (DngOpcode::DeltaPerRow(v), 10) => v,
            (DngOpcode::DeltaPerColumn(v), 11) => v,
            (DngOpcode::ScalePerRow(v), 12) => v,
            (DngOpcode::ScalePerColumn(v), 13) => v,
            _ => panic!("unexpected {:?}", op),
        };
        assert_eq!(v.region.top, id);
        let vals: Vec<f32> = v.values.iter().map(|b| f32::from_bits(*b)).collect();
        assert_eq!(vals, vec![0.5, -1.5]);
    }
}

#[test]
fn warp_rectilinear2_round_trip() {
    let mut p = Vec::new();
    u32s(&mut p, 1);
    for k in 0..17 {
        f64s(&mut p, k as f64);
    }
    f64s(&mut p, 0.5);
    f64s(&mut p, 0.25);
    u32s(&mut p, 1);
    match single(14, 0, p) {
        DngOpcode::WarpRectilinear2(w) => {
            assert_eq!(w.coefs.len(), 1);
            assert_eq!(f64::from_bits(w.coefs[0].kr[14]), 14.0);
            assert_eq!(f64::from_bits(w.coefs[0].kt[0]), 15.0);
            assert_eq!(f64::from_bits(w.coefs[0].kt[1]), 16.0);
            assert_eq!(f64::from_bits(w.center_x), 0.5);
            assert_eq!(f64::from_bits(w.center_y), 0.25);
            assert_eq!(w.reciprocal_radial, 1);
        }
        other => panic!("unexpected {:?}", other),
    }
}

#[test]
fn records_keep_stream_order() {
    let mut a = Vec::new();
    u32s(&mut a, 1);
    u32s(&mut a, 2);
    let mut b = Vec::new();
    for v in [1u32, 2, 3, 4] {
        u32s(&mut b, v);
    }
    let ops = decode_opcode_list(&list(&[(6, 0, b), (4, 0, a)])).unwrap();
    assert_eq!(ops.len(), 2);
    assert!(matches!(ops[0], DngOpcode::TrimBounds(_)));
    assert!(matches!(ops[1], DngOpcode::FixBadPixelsConstant(_)));
}

#[test]
fn flags_decode() {
    assert_eq!(DngOpcodeFlags::decode(0), DngOpcodeFlags { optional: false, preview_skip: false });
    assert_eq!(DngOpcodeFlags::decode(1), DngOpcodeFlags { optional: true, preview_skip: false });
    assert_eq!(DngOpcodeFlags::decode(2), DngOpcodeFlags { optional: false, preview_skip: true });
    assert_eq!(DngOpcodeFlags::decode(0xffff_fffc), DngOpcodeFlags { optional: false, preview_skip: false });
    assert_eq!(DngOpcodeFlags::decode(7), DngOpcodeFlags { optional: true, preview_skip: true });
}

#[test]
fn opcode_ids() {
    assert_eq!(DngOpcodeId::from_code(0), None);
    assert_eq!(DngOpcodeId::from_code(1), Some(DngOpcodeId::WarpRectilinear));
    assert_eq!(DngOpcodeId::from_code(9), Some(DngOpcodeId::GainMap));
    assert_eq!(DngOpcodeId::from_code(14), Some(DngOpcodeId::WarpRectilinear2));
    assert_eq!(DngOpcodeId::from_code(15), None);
}

#[test]
fn big_endian_reads() {
    let buf = [0x12u8, 0x34, 0x56, 0x78, 0x9a, 0xbc, 0xde, 0xf0, 0x01, 0x02];
    let mut pos: usize = 0;
    assert_eq!(take_u16(&buf, &mut pos), 0x1234);
    assert_eq!(pos, 2);
    let mut pos: usize = 0;
    assert_eq!(take_u32(&buf, &mut pos), 0x1234_5678);
    assert_eq!(pos, 4);
    assert_eq!(take_u16(&buf, &mut pos), 0x9abc);
    let mut pos: usize = 2;
    assert_eq!(take_u64(&buf, &mut pos), 0x5678_9abc_def0_0102);
    assert_eq!(pos, 10);
}

#[test]
fn encoded_opcode_list_round_trip() {
    let mut table = Vec::new();
    region(&mut table, 3);
    u32s(&mut table, 1);
    u16s(&mut table, 0xbeef);
    let mut fisheye = Vec::new();
    u32s(&mut fisheye, 0);
    f64s(&mut fisheye, 1.0);
    f64s(&mut fisheye, 2.0);
    let ops = decode_opcode_list(&list(&[(7, 1, table), (2, 2, fisheye)])).unwrap();
    assert_eq!(ops.len(), 2);
    match (&ops[0], &ops[1]) {
        (DngOpcode::MapTable(m), DngOpcode::WarpFisheye(w)) => {
            assert!(m.flags.optional && !m.flags.preview_skip);
            assert_eq!(m.region.bottom, 5);
            assert_eq!(m.table, vec![0xbeef]);
            assert!(w.coefs.is_empty());
            assert!(w.flags.preview_skip);
            assert_eq!(f64::from_bits(w.center_y), 2.0);
        }
        _ => panic!("unexpected {:?}", ops),
    }
}

#[test]
fn region_decode_needs_32_bytes() {
    let mut buf = Vec::new();
    region(&mut buf, 40);
    let mut pos: usize = 0;
    let r = DngOpcodeRegion::decode(&buf, &mut pos).unwrap();
    assert_eq!((r.top, r.left, r.plane, r.col_pitch), (40, 41, 44, 47));
    assert_eq!(pos, 32);
    let mut pos: usize = 1;
    assert_eq!(DngOpcodeRegion::decode(&buf, &mut pos).unwrap_err(), DecodeError::Truncated);
    assert_eq!(pos, 1);
    let mut pos: usize = 40;
    assert_eq!(DngOpcodeRegion::decode(&buf, &mut pos).unwrap_err(), DecodeError::Truncated);
}

#[test]
fn bad_point_and_rect_need_their_bytes() {
    let mut buf = Vec::new();
    for v in [9u32, 8, 7, 6] {
        u32s(&mut buf, v);
    }
    let mut pos: usize = 0;
    let p = BadPoint::decode(&buf, &mut pos).unwrap();
    assert_eq!((p.row, p.column, pos), (9, 8, 8));
    let mut pos: usize = 0;
    let r = BadRect::decode(&buf, &mut pos).unwrap();
    assert_eq!((r.top, r.left, r.bottom, r.right, pos), (9, 8, 7, 6, 16));
    let mut pos: usize = 9;
    assert_eq!(BadPoint::decode(&buf, &mut pos).unwrap_err(), DecodeError::Truncated);
    let mut pos: usize = 4;
    assert_eq!(BadRect::decode(&buf, &mut pos).unwrap_err(), DecodeError::Truncated);
}

#[test]
fn warp_coefficients_need_their_bytes() {
    let mut buf = Vec::new();
    for k in 0..17 {
        f64s(&mut buf, k as f64);
    }
    let mut pos: usize = 0;
    let c = WarpRectilinearCoef::decode(&buf, &mut pos).unwrap();
    assert_eq!(f64::from_bits(c.kt[1]), 5.0);
    assert_eq!(pos, 48);
    let mut pos: usize = 8;
    let f = WarpFisheyeCoef::decode(&buf, &mut pos).unwrap();
    assert_eq!(f64::from_bits(f.kr[0]), 1.0);
    assert_eq!(pos, 40);
    let mut pos: usize = 0;
    let c2 = WarpRectilinear2Coef::decode(&buf, &mut pos).unwrap();
    assert_eq!(f64::from_bits(c2.kt[1]), 16.0);
    assert_eq!(pos, 136);
    let mut pos: usize = 8;
    assert_eq!(WarpRectilinear2Coef::decode(&buf, &mut pos).unwrap_err(), DecodeError::Truncated);
    let mut pos: usize = 100;
    assert_eq!(WarpRectilinearCoef::decode(&buf, &mut pos).unwrap_err(), DecodeError::Truncated);
    let mut pos: usize = 112;
    assert_eq!(WarpFisheyeCoef::decode(&buf, &mut pos).unwrap_err(), DecodeError::Truncated);
}

#[test]
fn every_prefix_of_a_list_is_truncated() {
    let mut trim = Vec::new();
    for v in [1u32, 2, 3, 4] {
        u32s(&mut trim, v);
    }
    let buf = list(&[(6, 0, trim), (42, 0, vec![7, 7]), (4, 1, vec![0; 8])]);
    assert_eq!(decode_opcode_list(&buf).unwrap().len(), 2);
    for cut in 0..buf.len() {
        assert_eq!(decode_opcode_list(&buf[..cut]).unwrap_err(), DecodeError::Truncated, "cut {}", cut);
    }
}
