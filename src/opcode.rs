//! The records of an opcode list, and the decoder of each record's payload.
//!
//! Floating-point fields are carried as their IEEE-754 bit patterns, exactly
//! as they stand in the stream (`u64` for a double, `u32` for a single).

use crate::bytes::{
    be_u16, be_u32, be_u64, room_for, take_u16_vec, take_u32, take_u32_vec, take_u64,
    take_u64_array, take_u64_vec,
};
use vstd::prelude::*;

verus! {

/// Why an opcode list could not be decoded.
#[derive(Debug, Clone, Copy, PartialEq, Eq, Structural)]
pub enum DecodeError {
    /// A header or payload field runs past the end of the buffer.
    Truncated,
    /// A payload's decoded size differs from the size its header declares.
    SizeMismatch,
}

/// The opcode kinds this decoder recognises.
#[derive(Debug, Clone, Copy, PartialEq, Eq, Structural)]
pub enum DngOpcodeId {
    WarpRectilinear,
    WarpFisheye,
    FixVignetteRadial,
    FixBadPixelsConstant,
    FixBadPixelsList,
    TrimBounds,
    MapTable,
    MapPolynomial,
    GainMap,
    DeltaPerRow,
    DeltaPerColumn,
    ScalePerRow,
    ScalePerColumn,
    WarpRectilinear2,
}

impl DngOpcodeId {
    /// The numeric identifier of the kind in the stream.
    pub open spec fn code(self) -> u32 {
        match self {
            DngOpcodeId::WarpRectilinear => 1,
            DngOpcodeId::WarpFisheye => 2,
            DngOpcodeId::FixVignetteRadial => 3,
            DngOpcodeId::FixBadPixelsConstant => 4,
            DngOpcodeId::FixBadPixelsList => 5,
            DngOpcodeId::TrimBounds => 6,
            DngOpcodeId::MapTable => 7,
            DngOpcodeId::MapPolynomial => 8,
            DngOpcodeId::GainMap => 9,
            DngOpcodeId::DeltaPerRow => 10,
            DngOpcodeId::DeltaPerColumn => 11,
            DngOpcodeId::ScalePerRow => 12,
            DngOpcodeId::ScalePerColumn => 13,
            DngOpcodeId::WarpRectilinear2 => 14,
        }
    }

    /// The kind whose identifier is `v`, if there is one.
    pub open spec fn from_code_spec(v: int) -> Option<DngOpcodeId> {
        if v == 1 {
            Some(DngOpcodeId::WarpRectilinear)
        } else if v == 2 {
            Some(DngOpcodeId::WarpFisheye)
        } else if v == 3 {
            Some(DngOpcodeId::FixVignetteRadial)
        } else if v == 4 {
            Some(DngOpcodeId::FixBadPixelsConstant)
        } else if v == 5 {
            Some(DngOpcodeId::FixBadPixelsList)
        } else if v == 6 {
            Some(DngOpcodeId::TrimBounds)
        } else if v == 7 {
            Some(DngOpcodeId::MapTable)
        } else if v == 8 {
            Some(DngOpcodeId::MapPolynomial)
        } else if v == 9 {
            Some(DngOpcodeId::GainMap)
        } else if v == 10 {
            Some(DngOpcodeId::DeltaPerRow)
        } else if v == 11 {
            Some(DngOpcodeId::DeltaPerColumn)
        } else if v == 12 {
            Some(DngOpcodeId::ScalePerRow)
        } else if v == 13 {
            Some(DngOpcodeId::ScalePerColumn)
        } else if v == 14 {
            Some(DngOpcodeId::WarpRectilinear2)
        } else {
            None
        }
    }

    /// Resolves a numeric identifier; `None` for one that is not recognised.
    pub fn from_code(v: u32) -> (r: Option<DngOpcodeId>)
        ensures
            r == DngOpcodeId::from_code_spec(v as int),
            r.is_some() <==> 1 <= v <= 14,
            r matches Some(id) ==> id.code() == v,
    {
        match v {
            1 => Some(DngOpcodeId::WarpRectilinear),
            2 => Some(DngOpcodeId::WarpFisheye),
            3 => Some(DngOpcodeId::FixVignetteRadial),
            4 => Some(DngOpcodeId::FixBadPixelsConstant),
            5 => Some(DngOpcodeId::FixBadPixelsList),
            6 => Some(DngOpcodeId::TrimBounds),
            7 => Some(DngOpcodeId::MapTable),
            8 => Some(DngOpcodeId::MapPolynomial),
            9 => Some(DngOpcodeId::GainMap),
            10 => Some(DngOpcodeId::DeltaPerRow),
            11 => Some(DngOpcodeId::DeltaPerColumn),
            12 => Some(DngOpcodeId::ScalePerRow),
            13 => Some(DngOpcodeId::ScalePerColumn),
            14 => Some(DngOpcodeId::WarpRectilinear2),
            _ => None,
        }
    }
}

/// The two meaningful bits of an opcode's flags field.
#[derive(Debug, Clone, Copy, PartialEq, Eq, Structural)]
pub struct DngOpcodeFlags {
    pub optional: bool,
    pub preview_skip: bool,
}

impl DngOpcodeFlags {
    /// The flags that the raw field `v` describes.
    pub open spec fn from_bits(v: u32) -> DngOpcodeFlags {
        DngOpcodeFlags { optional: v & 1 != 0, preview_skip: v & 2 != 0 }
    }

    /// Decodes the low two bits of a flags field.
    pub fn decode(v: u32) -> (r: DngOpcodeFlags)
        ensures
            r == DngOpcodeFlags::from_bits(v),
    {
        DngOpcodeFlags { optional: v & 1 > 0, preview_skip: v & 2 > 0 }
    }
}

/// A strided sub-area of one or more pixel planes.
#[derive(Debug, Clone, Copy, PartialEq, Eq, Structural)]
pub struct DngOpcodeRegion {
    pub top: u32,
    pub left: u32,
    pub bottom: u32,
    pub right: u32,
    pub plane: u32,
    pub planes: u32,
    pub row_pitch: u32,
    pub col_pitch: u32,
}

impl DngOpcodeRegion {
    /// `self` is what the 32 bytes at `p` describe.
    pub open spec fn read_from(self, b: Seq<u8>, p: int) -> bool {
        &&& self.top as int == be_u32(b, p)
        &&& self.left as int == be_u32(b, p + 4)
        &&& self.bottom as int == be_u32(b, p + 8)
        &&& self.right as int == be_u32(b, p + 12)
        &&& self.plane as int == be_u32(b, p + 16)
        &&& self.planes as int == be_u32(b, p + 20)
        &&& self.row_pitch as int == be_u32(b, p + 24)
        &&& self.col_pitch as int == be_u32(b, p + 28)
    }

    /// Reads the eight fields of a region at the cursor.
    pub fn decode(buf: &[u8], pos: &mut usize) -> (r: Result<DngOpcodeRegion, DecodeError>)
        ensures
            match r {
                Ok(x) => *old(pos) + 32 <= buf@.len() && x.read_from(buf@, *old(pos) as int)
                    && *final(pos) == *old(pos) + 32,
                Err(e) => *old(pos) + 32 > buf@.len() && e == DecodeError::Truncated && *final(pos)
                    == *old(pos),
            },
    {
        if *pos > buf.len() || buf.len() - *pos < 32 {
            return Err(DecodeError::Truncated);
        }
        let top = take_u32(buf, pos);
        let left = take_u32(buf, pos);
        let bottom = take_u32(buf, pos);
        let right = take_u32(buf, pos);
        let plane = take_u32(buf, pos);
        let planes = take_u32(buf, pos);
        let row_pitch = take_u32(buf, pos);
        let col_pitch = take_u32(buf, pos);
        Ok(DngOpcodeRegion { top, left, bottom, right, plane, planes, row_pitch, col_pitch })
    }
}


/// Replaces a bad-pixel constant with interpolated values.
#[derive(Debug, Clone, Copy, PartialEq, Eq, Structural)]
pub struct FixBadPixelsConstant {
    pub flags: DngOpcodeFlags,
    pub constant: u32,
    pub bayer_phase: u32,
}

impl FixBadPixelsConstant {
    /// The number of bytes that the payload at `p` takes.
    pub open spec fn wire_size(b: Seq<u8>, p: int) -> int {
        8
    }

    /// Whether the payload at `p` lies wholly in `b`.
    pub open spec fn fits(b: Seq<u8>, p: int) -> bool {
        p + 8 <= b.len()
    }

    /// `self`'s fields are what the payload at `p` describes.
    #[verifier::opaque]
    pub open spec fn read_from(self, b: Seq<u8>, p: int) -> bool {
        &&& self.constant as int == be_u32(b, p)
        &&& self.bayer_phase as int == be_u32(b, p + 4)
    }

    /// Decodes the payload at the cursor: the record when its bytes are all
    /// there, truncation when they are not.
    pub fn decode(flags: DngOpcodeFlags, buf: &[u8], pos: &mut usize) -> (r: Result<
        FixBadPixelsConstant,
        DecodeError,
    >)
        requires
            *old(pos) <= buf@.len(),
        ensures
            match r {
                Ok(x) => Self::fits(buf@, *old(pos) as int) && x.flags == flags && x.read_from(
                    buf@,
                    *old(pos) as int,
                ) && *final(pos) == *old(pos) + Self::wire_size(buf@, *old(pos) as int),
                Err(e) => !Self::fits(buf@, *old(pos) as int) && e == DecodeError::Truncated,
            },
    {
        proof {
            reveal(FixBadPixelsConstant::read_from);
        }
        if buf.len() - *pos < 8 {
            return Err(DecodeError::Truncated);
        }
        let constant = take_u32(buf, pos);
        let bayer_phase = take_u32(buf, pos);
        Ok(FixBadPixelsConstant { flags, constant, bayer_phase })
    }
}

/// One bad pixel, by row and column.
#[derive(Debug, Clone, Copy, PartialEq, Eq, Structural)]
pub struct BadPoint {
    pub row: u32,
    pub column: u32,
}

impl BadPoint {
    /// `self`'s fields are what the bytes at `p` describe.
    pub open spec fn read_from(self, b: Seq<u8>, p: int) -> bool {
        &&& self.row as int == be_u32(b, p)
        &&& self.column as int == be_u32(b, p + 4)
    }

    /// Reads a point's 8 bytes at the cursor.
    pub fn decode(buf: &[u8], pos: &mut usize) -> (r: Result<BadPoint, DecodeError>)
        ensures
            match r {
                Ok(x) => *old(pos) + 8 <= buf@.len() && x.read_from(buf@, *old(pos) as int)
                    && *final(pos) == *old(pos) + 8,
                Err(e) => *old(pos) + 8 > buf@.len() && e == DecodeError::Truncated && *final(pos)
                    == *old(pos),
            },
    {
        if *pos > buf.len() || buf.len() - *pos < 8 {
            return Err(DecodeError::Truncated);
        }
        let row = take_u32(buf, pos);
        let column = take_u32(buf, pos);
        Ok(BadPoint { row, column })
    }
}

/// A rectangle of bad pixels.
#[derive(Debug, Clone, Copy, PartialEq, Eq, Structural)]
pub struct BadRect {
    pub top: u32,
    pub left: u32,
    pub bottom: u32,
    pub right: u32,
}

impl BadRect {
    /// `self`'s fields are what the bytes at `p` describe.
    pub open spec fn read_from(self, b: Seq<u8>, p: int) -> bool {
        &&& self.top as int == be_u32(b, p)
        &&& self.left as int == be_u32(b, p + 4)
        &&& self.bottom as int == be_u32(b, p + 8)
        &&& self.right as int == be_u32(b, p + 12)
    }

    /// Reads a rectangle's 16 bytes at the cursor.
    pub fn decode(buf: &[u8], pos: &mut usize) -> (r: Result<BadRect, DecodeError>)
        ensures
            match r {
                Ok(x) => *old(pos) + 16 <= buf@.len() && x.read_from(buf@, *old(pos) as int)
                    && *final(pos) == *old(pos) + 16,
                Err(e) => *old(pos) + 16 > buf@.len() && e == DecodeError::Truncated && *final(pos)
                    == *old(pos),
            },
    {
        if *pos > buf.len() || buf.len() - *pos < 16 {
            return Err(DecodeError::Truncated);
        }
        let top = take_u32(buf, pos);
        let left = take_u32(buf, pos);
        let bottom = take_u32(buf, pos);
        let right = take_u32(buf, pos);
        Ok(BadRect { top, left, bottom, right })
    }
}

/// Lists of bad points and bad rectangles to repair.
#[derive(Debug)]
pub struct FixBadPixelsList {
    pub flags: DngOpcodeFlags,
    pub bayer_phase: u32,
    pub bad_points: Vec<BadPoint>,
    pub bad_rects: Vec<BadRect>,
}

impl FixBadPixelsList {
    /// The number of bad points that the stream declares at `p`.
    pub open spec fn num_points(b: Seq<u8>, p: int) -> int {
        be_u32(b, p + 4)
    }

    /// The number of bad rectangles that the stream declares at `p`.
    pub open spec fn num_rects(b: Seq<u8>, p: int) -> int {
        be_u32(b, p + 8)
    }

    /// The number of bytes that the payload at `p` takes.
    pub open spec fn wire_size(b: Seq<u8>, p: int) -> int {
        12 + 8 * Self::num_points(b, p) + 16 * Self::num_rects(b, p)
    }

    /// Whether the payload at `p` lies wholly in `b`.
    pub open spec fn fits(b: Seq<u8>, p: int) -> bool {
        p + 12 <= b.len() && p + Self::wire_size(b, p) <= b.len()
    }

    /// `self`'s fields are what the bytes at `p` describe.
    #[verifier::opaque]
    pub open spec fn read_from(self, b: Seq<u8>, p: int) -> bool {
        let np = Self::num_points(b, p);
        let nr = Self::num_rects(b, p);
        &&& self.bayer_phase as int == be_u32(b, p)
        &&& self.bad_points@.len() == np
        &&& self.bad_rects@.len() == nr
        &&& forall|i: int| 0 <= i < np ==> #[trigger] self.bad_points@[i].read_from(b, p + 12 + 8 * i)
        &&& forall|i: int|
            0 <= i < nr ==> #[trigger] self.bad_rects@[i].read_from(b, p + 12 + 8 * np + 16 * i)
    }

    /// Decodes the payload at the cursor: the record when its bytes are all
    /// there, truncation when they are not.
    pub fn decode(flags: DngOpcodeFlags, buf: &[u8], pos: &mut usize) -> (r: Result<
        FixBadPixelsList,
        DecodeError,
    >)
        requires
            *old(pos) <= buf@.len(),
        ensures
            match r {
                Ok(x) => Self::fits(buf@, *old(pos) as int) && x.flags == flags && x.read_from(
                    buf@,
                    *old(pos) as int,
                ) && *final(pos) == *old(pos) + Self::wire_size(buf@, *old(pos) as int),
                Err(e) => !Self::fits(buf@, *old(pos) as int) && e == DecodeError::Truncated,
            },
    {
        proof {
            reveal(FixBadPixelsList::read_from);
        }
        let ghost p0 = *pos as int;
        if buf.len() - *pos < 12 {
            return Err(DecodeError::Truncated);
        }
        let bayer_phase = take_u32(buf, pos);
        let num_points = take_u32(buf, pos);
        let num_rects = take_u32(buf, pos);
        if !room_for(buf.len() - *pos, num_points as u64, 8, 0) {
            return Err(DecodeError::Truncated);
        }
        let rest: usize = buf.len() - *pos - 8 * (num_points as usize);
        if !room_for(rest, num_rects as u64, 16, 0) {
            return Err(DecodeError::Truncated);
        }
        let mut bad_points: Vec<BadPoint> = Vec::new();
        let mut i: u32 = 0;
        while i < num_points
            invariant
                i <= num_points,
                num_points as int == Self::num_points(buf@, p0),
                p0 + Self::wire_size(buf@, p0) <= buf@.len(),
                Self::num_rects(buf@, p0) == num_rects as int,
                *pos == p0 + 12 + 8 * i,
                bad_points@.len() == i,
                forall|j: int|
                    0 <= j < i ==> #[trigger] bad_points@[j].read_from(buf@, p0 + 12 + 8 * j),
            decreases num_points - i,
        {
            let v = match BadPoint::decode(buf, pos) {
                Ok(v) => v,
                Err(e) => return Err(e),
            };
            bad_points.push(v);
            i = i + 1;
        }
        let mut bad_rects: Vec<BadRect> = Vec::new();
        let mut i: u32 = 0;
        while i < num_rects
            invariant
                i <= num_rects,
                num_points as int == Self::num_points(buf@, p0),
                num_rects as int == Self::num_rects(buf@, p0),
                p0 + Self::wire_size(buf@, p0) <= buf@.len(),
                *pos == p0 + 12 + 8 * num_points + 16 * i,
                bad_rects@.len() == i,
                forall|j: int|
                    0 <= j < i ==> #[trigger] bad_rects@[j].read_from(
                        buf@,
                        p0 + 12 + 8 * num_points + 16 * j,
                    ),
            decreases num_rects - i,
        {
            let v = match BadRect::decode(buf, pos) {
                Ok(v) => v,
                Err(e) => return Err(e),
            };
            bad_rects.push(v);
            i = i + 1;
        }
        Ok(FixBadPixelsList { flags, bayer_phase, bad_points, bad_rects })
    }
}

/// Bounds to which the image is trimmed.
#[derive(Debug, Clone, Copy, PartialEq, Eq, Structural)]
pub struct TrimBounds {
    pub flags: DngOpcodeFlags,
    pub top: u32,
    pub left: u32,
    pub bottom: u32,
    pub right: u32,
}

impl TrimBounds {
    /// The number of bytes that the payload at `p` takes.
    pub open spec fn wire_size(b: Seq<u8>, p: int) -> int {
        16
    }

    /// Whether the payload at `p` lies wholly in `b`.
    pub open spec fn fits(b: Seq<u8>, p: int) -> bool {
        p + 16 <= b.len()
    }

    /// `self`'s fields are what the bytes at `p` describe.
    #[verifier::opaque]
    pub open spec fn read_from(self, b: Seq<u8>, p: int) -> bool {
        &&& self.top as int == be_u32(b, p)
        &&& self.left as int == be_u32(b, p + 4)
        &&& self.bottom as int == be_u32(b, p + 8)
        &&& self.right as int == be_u32(b, p + 12)
    }

    /// Decodes the payload at the cursor: the record when its bytes are all
    /// there, truncation when they are not.
    pub fn decode(flags: DngOpcodeFlags, buf: &[u8], pos: &mut usize) -> (r: Result<
        TrimBounds,
        DecodeError,
    >)
        requires
            *old(pos) <= buf@.len(),
        ensures
            match r {
                Ok(x) => Self::fits(buf@, *old(pos) as int) && x.flags == flags && x.read_from(
                    buf@,
                    *old(pos) as int,
                ) && *final(pos) == *old(pos) + Self::wire_size(buf@, *old(pos) as int),
                Err(e) => !Self::fits(buf@, *old(pos) as int) && e == DecodeError::Truncated,
            },
    {
        proof {
            reveal(TrimBounds::read_from);
        }
        if buf.len() - *pos < 16 {
            return Err(DecodeError::Truncated);
        }
        let top = take_u32(buf, pos);
        let left = take_u32(buf, pos);
        let bottom = take_u32(buf, pos);
        let right = take_u32(buf, pos);
        Ok(TrimBounds { flags, top, left, bottom, right })
    }
}


/// A lookup table applied to the samples of a region.
#[derive(Debug)]
pub struct MapTable {
    pub flags: DngOpcodeFlags,
    pub region: DngOpcodeRegion,
    pub table: Vec<u16>,
}

impl MapTable {
    /// The number of table entries.
    pub open spec fn count(b: Seq<u8>, p: int) -> int {
        be_u32(b, p + 32)
    }

    /// The number of bytes that the payload at `p` takes.
    pub open spec fn wire_size(b: Seq<u8>, p: int) -> int {
        36 + 2 * Self::count(b, p)
    }

    /// Whether the payload at `p` lies wholly in `b`.
    pub open spec fn fits(b: Seq<u8>, p: int) -> bool {
        p + 36 <= b.len() && p + Self::wire_size(b, p) <= b.len()
    }

    /// `self`'s fields are what the bytes at `p` describe.
    #[verifier::opaque]
    pub open spec fn read_from(self, b: Seq<u8>, p: int) -> bool {
        &&& self.region.read_from(b, p)
        &&& self.table@.len() == Self::count(b, p)
        &&& forall|i: int|
            0 <= i < Self::count(b, p) ==> self.table@[i] as int == be_u16(b, p + 36 + 2 * i)
    }

    /// Decodes the payload at the cursor: the record when its bytes are all
    /// there, truncation when they are not.
    pub fn decode(flags: DngOpcodeFlags, buf: &[u8], pos: &mut usize) -> (r: Result<
        MapTable,
        DecodeError,
    >)
        requires
            *old(pos) <= buf@.len(),
        ensures
            match r {
                Ok(x) => Self::fits(buf@, *old(pos) as int) && x.flags == flags && x.read_from(
                    buf@,
                    *old(pos) as int,
                ) && *final(pos) == *old(pos) + Self::wire_size(buf@, *old(pos) as int),
                Err(e) => !Self::fits(buf@, *old(pos) as int) && e == DecodeError::Truncated,
            },
    {
        proof {
            reveal(MapTable::read_from);
        }
        if buf.len() - *pos < 36 {
            return Err(DecodeError::Truncated);
        }
        let region = match DngOpcodeRegion::decode(buf, pos) {
            Ok(region) => region,
            Err(e) => return Err(e),
        };
        let len = take_u32(buf, pos);
        if !room_for(buf.len() - *pos, len as u64, 2, 0) {
            return Err(DecodeError::Truncated);
        }
        let table = take_u16_vec(buf, pos, len as usize);
        Ok(MapTable { flags, region, table })
    }
}

/// A polynomial applied to the samples of a region; coefficients are double bit patterns.
#[derive(Debug)]
pub struct MapPolynomial {
    pub flags: DngOpcodeFlags,
    pub region: DngOpcodeRegion,
    pub coefs: Vec<u64>,
}

impl MapPolynomial {
    /// The number of coefficients: one more than the degree.
    pub open spec fn count(b: Seq<u8>, p: int) -> int {
        be_u32(b, p + 32) + 1
    }

    /// The number of bytes that the payload at `p` takes.
    pub open spec fn wire_size(b: Seq<u8>, p: int) -> int {
        36 + 8 * Self::count(b, p)
    }

    /// Whether the payload at `p` lies wholly in `b`.
    pub open spec fn fits(b: Seq<u8>, p: int) -> bool {
        p + 36 <= b.len() && p + Self::wire_size(b, p) <= b.len()
    }

    /// `self`'s fields are what the bytes at `p` describe.
    #[verifier::opaque]
    pub open spec fn read_from(self, b: Seq<u8>, p: int) -> bool {
        &&& self.region.read_from(b, p)
        &&& self.coefs@.len() == Self::count(b, p)
        &&& forall|i: int|
            0 <= i < Self::count(b, p) ==> self.coefs@[i] as int == be_u64(b, p + 36 + 8 * i)
    }

    /// Decodes the payload at the cursor: the record when its bytes are all
    /// there, truncation when they are not.
    pub fn decode(flags: DngOpcodeFlags, buf: &[u8], pos: &mut usize) -> (r: Result<
        MapPolynomial,
        DecodeError,
    >)
        requires
            *old(pos) <= buf@.len(),
        ensures
            match r {
                Ok(x) => Self::fits(buf@, *old(pos) as int) && x.flags == flags && x.read_from(
                    buf@,
                    *old(pos) as int,
                ) && *final(pos) == *old(pos) + Self::wire_size(buf@, *old(pos) as int),
                Err(e) => !Self::fits(buf@, *old(pos) as int) && e == DecodeError::Truncated,
            },
    {
        proof {
            reveal(MapPolynomial::read_from);
        }
        if buf.len() - *pos < 36 {
            return Err(DecodeError::Truncated);
        }
        let region = match DngOpcodeRegion::decode(buf, pos) {
            Ok(region) => region,
            Err(e) => return Err(e),
        };
        let len = take_u32(buf, pos);
        if !room_for(buf.len() - *pos, len as u64 + 1, 8, 0) {
            return Err(DecodeError::Truncated);
        }
        let coefs = take_u64_vec(buf, pos, len as usize + 1);
        Ok(MapPolynomial { flags, region, coefs })
    }
}

/// A per-row or per-column vector of deltas or scales over a region; values are single bit patterns.
#[derive(Debug)]
pub struct ValuesPerRowOrCol {
    pub flags: DngOpcodeFlags,
    pub region: DngOpcodeRegion,
    pub values: Vec<u32>,
}

impl ValuesPerRowOrCol {
    /// The number of values.
    pub open spec fn count(b: Seq<u8>, p: int) -> int {
        be_u32(b, p + 32)
    }

    /// The number of bytes that the payload at `p` takes.
    pub open spec fn wire_size(b: Seq<u8>, p: int) -> int {
        36 + 4 * Self::count(b, p)
    }

    /// Whether the payload at `p` lies wholly in `b`.
    pub open spec fn fits(b: Seq<u8>, p: int) -> bool {
        p + 36 <= b.len() && p + Self::wire_size(b, p) <= b.len()
    }

    /// `self`'s fields are what the bytes at `p` describe.
    #[verifier::opaque]
    pub open spec fn read_from(self, b: Seq<u8>, p: int) -> bool {
        &&& self.region.read_from(b, p)
        &&& self.values@.len() == Self::count(b, p)
        &&& forall|i: int|
            0 <= i < Self::count(b, p) ==> self.values@[i] as int == be_u32(b, p + 36 + 4 * i)
    }

    /// Decodes the payload at the cursor: the record when its bytes are all
    /// there, truncation when they are not.
    pub fn decode(flags: DngOpcodeFlags, buf: &[u8], pos: &mut usize) -> (r: Result<
        ValuesPerRowOrCol,
        DecodeError,
    >)
        requires
            *old(pos) <= buf@.len(),
        ensures
            match r {
                Ok(x) => Self::fits(buf@, *old(pos) as int) && x.flags == flags && x.read_from(
                    buf@,
                    *old(pos) as int,
                ) && *final(pos) == *old(pos) + Self::wire_size(buf@, *old(pos) as int),
                Err(e) => !Self::fits(buf@, *old(pos) as int) && e == DecodeError::Truncated,
            },
    {
        proof {
            reveal(ValuesPerRowOrCol::read_from);
        }
        if buf.len() - *pos < 36 {
            return Err(DecodeError::Truncated);
        }
        let region = match DngOpcodeRegion::decode(buf, pos) {
            Ok(region) => region,
            Err(e) => return Err(e),
        };
        let len = take_u32(buf, pos);
        if !room_for(buf.len() - *pos, len as u64, 4, 0) {
            return Err(DecodeError::Truncated);
        }
        let values = take_u32_vec(buf, pos, len as usize);
        Ok(ValuesPerRowOrCol { flags, region, values })
    }
}

/// The number of gains in a grid: points down, times points across, times
/// planes.
#[verifier::opaque]
pub open spec fn grid_size(points_v: int, points_h: int, planes: int) -> int {
    points_v * points_h * planes
}

/// A grid of gains over a region; spacings and origins are double bit
/// patterns, gains are single bit patterns.
#[derive(Debug)]
pub struct GainMap {
    pub flags: DngOpcodeFlags,
    pub region: DngOpcodeRegion,
    pub map_points_v: u32,
    pub map_points_h: u32,
    pub map_spacing_v: u64,
    pub map_spacing_h: u64,
    pub map_origin_v: u64,
    pub map_origin_h: u64,
    pub map_planes: u32,
    pub map_gain: Vec<u32>,
}

impl GainMap {
    /// The number of gains that the stream declares at `p`.
    pub open spec fn count(b: Seq<u8>, p: int) -> int {
        grid_size(be_u32(b, p + 32), be_u32(b, p + 36), be_u32(b, p + 72))
    }

    /// The number of bytes that the payload at `p` takes.
    pub open spec fn wire_size(b: Seq<u8>, p: int) -> int {
        76 + 4 * Self::count(b, p)
    }

    /// Whether the payload at `p` lies wholly in `b`.
    pub open spec fn fits(b: Seq<u8>, p: int) -> bool {
        p + 76 <= b.len() && p + Self::wire_size(b, p) <= b.len()
    }

    /// `self`'s fields are what the bytes at `p` describe.
    #[verifier::opaque]
    pub open spec fn read_from(self, b: Seq<u8>, p: int) -> bool {
        &&& self.region.read_from(b, p)
        &&& self.map_points_v as int == be_u32(b, p + 32)
        &&& self.map_points_h as int == be_u32(b, p + 36)
        &&& self.map_spacing_v as int == be_u64(b, p + 40)
        &&& self.map_spacing_h as int == be_u64(b, p + 48)
        &&& self.map_origin_v as int == be_u64(b, p + 56)
        &&& self.map_origin_h as int == be_u64(b, p + 64)
        &&& self.map_planes as int == be_u32(b, p + 72)
        &&& self.map_gain@.len() == Self::count(b, p)
        &&& forall|i: int|
            0 <= i < Self::count(b, p) ==> self.map_gain@[i] as int == be_u32(b, p + 76 + 4 * i)
    }

    /// Decodes the payload at the cursor: the record when its bytes are all
    /// there, truncation when they are not.
    pub fn decode(flags: DngOpcodeFlags, buf: &[u8], pos: &mut usize) -> (r: Result<
        GainMap,
        DecodeError,
    >)
        requires
            *old(pos) <= buf@.len(),
        ensures
            match r {
                Ok(x) => Self::fits(buf@, *old(pos) as int) && x.flags == flags && x.read_from(
                    buf@,
                    *old(pos) as int,
                ) && *final(pos) == *old(pos) + Self::wire_size(buf@, *old(pos) as int),
                Err(e) => !Self::fits(buf@, *old(pos) as int) && e == DecodeError::Truncated,
            },
    {
        proof {
            reveal(GainMap::read_from);
            reveal(grid_size);
        }
        let ghost p0 = *pos as int;
        if buf.len() - *pos < 76 {
            return Err(DecodeError::Truncated);
        }
        let region = match DngOpcodeRegion::decode(buf, pos) {
            Ok(region) => region,
            Err(e) => return Err(e),
        };
        let map_points_v = take_u32(buf, pos);
        let map_points_h = take_u32(buf, pos);
        let map_spacing_v = take_u64(buf, pos);
        let map_spacing_h = take_u64(buf, pos);
        let map_origin_v = take_u64(buf, pos);
        let map_origin_h = take_u64(buf, pos);
        let map_planes = take_u32(buf, pos);
        proof {
            let (v, h) = (map_points_v as int, map_points_h as int);
            assert(v * h <= u32::MAX as int * u32::MAX as int) by (nonlinear_arith)
                requires
                    0 <= v <= u32::MAX,
                    0 <= h <= u32::MAX,
            ;
        }
        let grid: u64 = map_points_v as u64 * map_points_h as u64;
        let n: u64 = match grid.checked_mul(map_planes as u64) {
            Some(n) => n,
            None => {
                proof {
                    assert(4 * (grid as int * map_planes as int) > buf@.len()) by (nonlinear_arith)
                        requires
                            grid as int * map_planes as int > u64::MAX,
                            buf@.len() <= usize::MAX,
                    ;
                }
                return Err(DecodeError::Truncated);
            },
        };
        if !room_for(buf.len() - *pos, n, 4, 0) {
            return Err(DecodeError::Truncated);
        }
        let map_gain = take_u32_vec(buf, pos, n as usize);
        Ok(
            GainMap {
                flags,
                region,
                map_points_v,
                map_points_h,
                map_spacing_v,
                map_spacing_h,
                map_origin_v,
                map_origin_h,
                map_planes,
                map_gain,
            },
        )
    }
}


/// Radial and tangential coefficients of one plane (double bit patterns).
#[derive(Debug, Clone, Copy)]
pub struct WarpRectilinearCoef {
    pub kr: [u64; 4],
    pub kt: [u64; 2],
}

impl WarpRectilinearCoef {
    /// `self`'s fields are what the bytes at `p` describe.
    pub open spec fn read_from(self, b: Seq<u8>, p: int) -> bool {
        &&& forall|i: int| 0 <= i < 4 ==> self.kr@[i] as int == be_u64(b, p + 8 * i)
        &&& forall|i: int| 0 <= i < 2 ==> self.kt@[i] as int == be_u64(b, p + 32 + 8 * i)
    }

    /// Reads one plane's 48 bytes of coefficients at the cursor.
    pub fn decode(buf: &[u8], pos: &mut usize) -> (r: Result<WarpRectilinearCoef, DecodeError>)
        ensures
            match r {
                Ok(x) => *old(pos) + 48 <= buf@.len() && x.read_from(buf@, *old(pos) as int)
                    && *final(pos) == *old(pos) + 48,
                Err(e) => *old(pos) + 48 > buf@.len() && e == DecodeError::Truncated && *final(pos)
                    == *old(pos),
            },
    {
        if *pos > buf.len() || buf.len() - *pos < 48 {
            return Err(DecodeError::Truncated);
        }
        let kr: [u64; 4] = take_u64_array(buf, pos);
        let kt: [u64; 2] = take_u64_array(buf, pos);
        Ok(WarpRectilinearCoef { kr, kt })
    }
}

/// Rectilinear lens-warp correction; the center is given as double bit patterns.
#[derive(Debug)]
pub struct WarpRectilinear {
    pub flags: DngOpcodeFlags,
    pub center_x: u64,
    pub center_y: u64,
    pub coefs: Vec<WarpRectilinearCoef>,
}

impl WarpRectilinear {
    /// The number of coefficient sets, one per plane.
    pub open spec fn count(b: Seq<u8>, p: int) -> int {
        be_u32(b, p)
    }

    /// The number of bytes that the payload at `p` takes.
    pub open spec fn wire_size(b: Seq<u8>, p: int) -> int {
        4 + 48 * Self::count(b, p) + 16
    }

    /// Whether the payload at `p` lies wholly in `b`.
    pub open spec fn fits(b: Seq<u8>, p: int) -> bool {
        p + 4 <= b.len() && p + Self::wire_size(b, p) <= b.len()
    }

    /// `self`'s fields are what the bytes at `p` describe.
    #[verifier::opaque]
    pub open spec fn read_from(self, b: Seq<u8>, p: int) -> bool {
        let n = Self::count(b, p);
        &&& self.coefs@.len() == n
        &&& forall|i: int| 0 <= i < n ==> #[trigger] self.coefs@[i].read_from(b, p + 4 + 48 * i)
        &&& self.center_x as int == be_u64(b, p + 4 + 48 * n)
        &&& self.center_y as int == be_u64(b, p + 12 + 48 * n)
    }

    /// Decodes the payload at the cursor: the record when its bytes are all
    /// there, truncation when they are not.
    pub fn decode(flags: DngOpcodeFlags, buf: &[u8], pos: &mut usize) -> (r: Result<
        WarpRectilinear,
        DecodeError,
    >)
        requires
            *old(pos) <= buf@.len(),
        ensures
            match r {
                Ok(x) => Self::fits(buf@, *old(pos) as int) && x.flags == flags && x.read_from(
                    buf@,
                    *old(pos) as int,
                ) && *final(pos) == *old(pos) + Self::wire_size(buf@, *old(pos) as int),
                Err(e) => !Self::fits(buf@, *old(pos) as int) && e == DecodeError::Truncated,
            },
    {
        proof {
            reveal(WarpRectilinear::read_from);
        }
        let ghost p0 = *pos as int;
        if buf.len() - *pos < 4 {
            return Err(DecodeError::Truncated);
        }
        let n = take_u32(buf, pos);
        if !room_for(buf.len() - *pos, n as u64, 48, 16) {
            return Err(DecodeError::Truncated);
        }
        let mut coefs: Vec<WarpRectilinearCoef> = Vec::new();
        let mut i: u32 = 0;
        while i < n
            invariant
                i <= n,
                n as int == Self::count(buf@, p0),
                p0 + Self::wire_size(buf@, p0) <= buf@.len(),
                *pos == p0 + 4 + 48 * i,
                coefs@.len() == i,
                forall|j: int|
                    0 <= j < i ==> #[trigger] coefs@[j].read_from(buf@, p0 + 4 + 48 * j),
            decreases n - i,
        {
            let c = match WarpRectilinearCoef::decode(buf, pos) {
                Ok(c) => c,
                Err(e) => return Err(e),
            };
            coefs.push(c);
            i = i + 1;
        }
        let center_x = take_u64(buf, pos);
        let center_y = take_u64(buf, pos);
        Ok(WarpRectilinear { flags, center_x, center_y, coefs })
    }
}

/// Radial coefficients of one plane (double bit patterns).
#[derive(Debug, Clone, Copy)]
pub struct WarpFisheyeCoef {
    pub kr: [u64; 4],
}

impl WarpFisheyeCoef {
    /// `self`'s fields are what the bytes at `p` describe.
    pub open spec fn read_from(self, b: Seq<u8>, p: int) -> bool {
        &&& forall|i: int| 0 <= i < 4 ==> self.kr@[i] as int == be_u64(b, p + 8 * i)
    }

    /// Reads one plane's 32 bytes of coefficients at the cursor.
    pub fn decode(buf: &[u8], pos: &mut usize) -> (r: Result<WarpFisheyeCoef, DecodeError>)
        ensures
            match r {
                Ok(x) => *old(pos) + 32 <= buf@.len() && x.read_from(buf@, *old(pos) as int)
                    && *final(pos) == *old(pos) + 32,
                Err(e) => *old(pos) + 32 > buf@.len() && e == DecodeError::Truncated && *final(pos)
                    == *old(pos),
            },
    {
        if *pos > buf.len() || buf.len() - *pos < 32 {
            return Err(DecodeError::Truncated);
        }
        let kr: [u64; 4] = take_u64_array(buf, pos);
        Ok(WarpFisheyeCoef { kr })
    }
}

/// Fisheye lens-warp correction; the center is given as double bit patterns.
#[derive(Debug)]
pub struct WarpFisheye {
    pub flags: DngOpcodeFlags,
    pub center_x: u64,
    pub center_y: u64,
    pub coefs: Vec<WarpFisheyeCoef>,
}

impl WarpFisheye {
    /// The number of coefficient sets, one per plane.
    pub open spec fn count(b: Seq<u8>, p: int) -> int {
        be_u32(b, p)
    }

    /// The number of bytes that the payload at `p` takes.
    pub open spec fn wire_size(b: Seq<u8>, p: int) -> int {
        4 + 32 * Self::count(b, p) + 16
    }

    /// Whether the payload at `p` lies wholly in `b`.
    pub open spec fn fits(b: Seq<u8>, p: int) -> bool {
        p + 4 <= b.len() && p + Self::wire_size(b, p) <= b.len()
    }

    /// `self`'s fields are what the bytes at `p` describe.
    #[verifier::opaque]
    pub open spec fn read_from(self, b: Seq<u8>, p: int) -> bool {
        let n = Self::count(b, p);
        &&& self.coefs@.len() == n
        &&& forall|i: int| 0 <= i < n ==> #[trigger] self.coefs@[i].read_from(b, p + 4 + 32 * i)
        &&& self.center_x as int == be_u64(b, p + 4 + 32 * n)
        &&& self.center_y as int == be_u64(b, p + 12 + 32 * n)
    }

    /// Decodes the payload at the cursor: the record when its bytes are all
    /// there, truncation when they are not.
    pub fn decode(flags: DngOpcodeFlags, buf: &[u8], pos: &mut usize) -> (r: Result<
        WarpFisheye,
        DecodeError,
    >)
        requires
            *old(pos) <= buf@.len(),
        ensures
            match r {
                Ok(x) => Self::fits(buf@, *old(pos) as int) && x.flags == flags && x.read_from(
                    buf@,
                    *old(pos) as int,
                ) && *final(pos) == *old(pos) + Self::wire_size(buf@, *old(pos) as int),
                Err(e) => !Self::fits(buf@, *old(pos) as int) && e == DecodeError::Truncated,
            },
    {
        proof {
            reveal(WarpFisheye::read_from);
        }
        let ghost p0 = *pos as int;
        if buf.len() - *pos < 4 {
            return Err(DecodeError::Truncated);
        }
        let n = take_u32(buf, pos);
        if !room_for(buf.len() - *pos, n as u64, 32, 16) {
            return Err(DecodeError::Truncated);
        }
        let mut coefs: Vec<WarpFisheyeCoef> = Vec::new();
        let mut i: u32 = 0;
        while i < n
            invariant
                i <= n,
                n as int == Self::count(buf@, p0),
                p0 + Self::wire_size(buf@, p0) <= buf@.len(),
                *pos == p0 + 4 + 32 * i,
                coefs@.len() == i,
                forall|j: int|
                    0 <= j < i ==> #[trigger] coefs@[j].read_from(buf@, p0 + 4 + 32 * j),
            decreases n - i,
        {
            let c = match WarpFisheyeCoef::decode(buf, pos) {
                Ok(c) => c,
                Err(e) => return Err(e),
            };
            coefs.push(c);
            i = i + 1;
        }
        let center_x = take_u64(buf, pos);
        let center_y = take_u64(buf, pos);
        Ok(WarpFisheye { flags, center_x, center_y, coefs })
    }
}

/// Extended radial and tangential coefficients of one plane (double bit patterns).
#[derive(Debug, Clone, Copy)]
pub struct WarpRectilinear2Coef {
    pub kr: [u64; 15],
    pub kt: [u64; 2],
}

impl WarpRectilinear2Coef {
    /// `self`'s fields are what the bytes at `p` describe.
    pub open spec fn read_from(self, b: Seq<u8>, p: int) -> bool {
        &&& forall|i: int| 0 <= i < 15 ==> self.kr@[i] as int == be_u64(b, p + 8 * i)
        &&& forall|i: int| 0 <= i < 2 ==> self.kt@[i] as int == be_u64(b, p + 120 + 8 * i)
    }

    /// Reads one plane's 136 bytes of coefficients at the cursor.
    pub fn decode(buf: &[u8], pos: &mut usize) -> (r: Result<WarpRectilinear2Coef, DecodeError>)
        ensures
            match r {
                Ok(x) => *old(pos) + 136 <= buf@.len() && x.read_from(buf@, *old(pos) as int)
                    && *final(pos) == *old(pos) + 136,
                Err(e) => *old(pos) + 136 > buf@.len() && e == DecodeError::Truncated && *final(pos)
                    == *old(pos),
            },
    {
        if *pos > buf.len() || buf.len() - *pos < 136 {
            return Err(DecodeError::Truncated);
        }
        let kr: [u64; 15] = take_u64_array(buf, pos);
        let kt: [u64; 2] = take_u64_array(buf, pos);
        Ok(WarpRectilinear2Coef { kr, kt })
    }
}

/// Extended rectilinear lens-warp correction; the center is given as double bit patterns.
#[derive(Debug)]
pub struct WarpRectilinear2 {
    pub flags: DngOpcodeFlags,
    pub center_x: u64,
    pub center_y: u64,
    pub reciprocal_radial: u32,
    pub coefs: Vec<WarpRectilinear2Coef>,
}

impl WarpRectilinear2 {
    /// The number of coefficient sets, one per plane.
    pub open spec fn count(b: Seq<u8>, p: int) -> int {
        be_u32(b, p)
    }

    /// The number of bytes that the payload at `p` takes.
    pub open spec fn wire_size(b: Seq<u8>, p: int) -> int {
        4 + 136 * Self::count(b, p) + 20
    }

    /// Whether the payload at `p` lies wholly in `b`.
    pub open spec fn fits(b: Seq<u8>, p: int) -> bool {
        p + 4 <= b.len() && p + Self::wire_size(b, p) <= b.len()
    }

    /// `self`'s fields are what the bytes at `p` describe.
    #[verifier::opaque]
    pub open spec fn read_from(self, b: Seq<u8>, p: int) -> bool {
        let n = Self::count(b, p);
        &&& self.coefs@.len() == n
        &&& forall|i: int| 0 <= i < n ==> #[trigger] self.coefs@[i].read_from(b, p + 4 + 136 * i)
        &&& self.center_x as int == be_u64(b, p + 4 + 136 * n)
        &&& self.center_y as int == be_u64(b, p + 12 + 136 * n)
        &&& self.reciprocal_radial as int == be_u32(b, p + 20 + 136 * n)
    }

    /// Decodes the payload at the cursor: the record when its bytes are all
    /// there, truncation when they are not.
    pub fn decode(flags: DngOpcodeFlags, buf: &[u8], pos: &mut usize) -> (r: Result<
        WarpRectilinear2,
        DecodeError,
    >)
        requires
            *old(pos) <= buf@.len(),
        ensures
            match r {
                Ok(x) => Self::fits(buf@, *old(pos) as int) && x.flags == flags && x.read_from(
                    buf@,
                    *old(pos) as int,
                ) && *final(pos) == *old(pos) + Self::wire_size(buf@, *old(pos) as int),
                Err(e) => !Self::fits(buf@, *old(pos) as int) && e == DecodeError::Truncated,
            },
    {
        proof {
            reveal(WarpRectilinear2::read_from);
        }
        let ghost p0 = *pos as int;
        if buf.len() - *pos < 4 {
            return Err(DecodeError::Truncated);
        }
        let n = take_u32(buf, pos);
        if !room_for(buf.len() - *pos, n as u64, 136, 20) {
            return Err(DecodeError::Truncated);
        }
        let mut coefs: Vec<WarpRectilinear2Coef> = Vec::new();
        let mut i: u32 = 0;
        while i < n
            invariant
                i <= n,
                n as int == Self::count(buf@, p0),
                p0 + Self::wire_size(buf@, p0) <= buf@.len(),
                *pos == p0 + 4 + 136 * i,
                coefs@.len() == i,
                forall|j: int|
                    0 <= j < i ==> #[trigger] coefs@[j].read_from(buf@, p0 + 4 + 136 * j),
            decreases n - i,
        {
            let c = match WarpRectilinear2Coef::decode(buf, pos) {
                Ok(c) => c,
                Err(e) => return Err(e),
            };
            coefs.push(c);
            i = i + 1;
        }
        let center_x = take_u64(buf, pos);
        let center_y = take_u64(buf, pos);
        let reciprocal_radial = take_u32(buf, pos);
        Ok(WarpRectilinear2 { flags, center_x, center_y, reciprocal_radial, coefs })
    }
}

/// Radial vignette correction: five coefficients and a center, all double
/// bit patterns.
#[derive(Debug, Clone, Copy)]
pub struct FixVignetteRadial {
    pub flags: DngOpcodeFlags,
    pub k: [u64; 5],
    pub center_x: u64,
    pub center_y: u64,
}

impl FixVignetteRadial {
    /// The number of bytes that the payload at `p` takes.
    pub open spec fn wire_size(b: Seq<u8>, p: int) -> int {
        56
    }

    /// Whether the payload at `p` lies wholly in `b`.
    pub open spec fn fits(b: Seq<u8>, p: int) -> bool {
        p + 56 <= b.len()
    }

    /// `self`'s fields are what the bytes at `p` describe.
    #[verifier::opaque]
    pub open spec fn read_from(self, b: Seq<u8>, p: int) -> bool {
        &&& forall|i: int| 0 <= i < 5 ==> self.k@[i] as int == be_u64(b, p + 8 * i)
        &&& self.center_x as int == be_u64(b, p + 40)
        &&& self.center_y as int == be_u64(b, p + 48)
    }

    /// Decodes the payload at the cursor: the record when its bytes are all
    /// there, truncation when they are not.
    pub fn decode(flags: DngOpcodeFlags, buf: &[u8], pos: &mut usize) -> (r: Result<
        FixVignetteRadial,
        DecodeError,
    >)
        requires
            *old(pos) <= buf@.len(),
        ensures
            match r {
                Ok(x) => Self::fits(buf@, *old(pos) as int) && x.flags == flags && x.read_from(
                    buf@,
                    *old(pos) as int,
                ) && *final(pos) == *old(pos) + Self::wire_size(buf@, *old(pos) as int),
                Err(e) => !Self::fits(buf@, *old(pos) as int) && e == DecodeError::Truncated,
            },
    {
        proof {
            reveal(FixVignetteRadial::read_from);
        }
        if buf.len() - *pos < 56 {
            return Err(DecodeError::Truncated);
        }
        let k: [u64; 5] = take_u64_array(buf, pos);
        let center_x = take_u64(buf, pos);
        let center_y = take_u64(buf, pos);
        Ok(FixVignetteRadial { flags, k, center_x, center_y })
    }
}


/// One decoded opcode: a closed union over the recognised kinds.
#[derive(Debug)]
pub enum DngOpcode {
    WarpRectilinear(WarpRectilinear),
    WarpFisheye(WarpFisheye),
    FixVignetteRadial(FixVignetteRadial),
    FixBadPixelsConstant(FixBadPixelsConstant),
    FixBadPixelsList(FixBadPixelsList),
    TrimBounds(TrimBounds),
    MapTable(MapTable),
    MapPolynomial(MapPolynomial),
    GainMap(GainMap),
    DeltaPerRow(ValuesPerRowOrCol),
    DeltaPerColumn(ValuesPerRowOrCol),
    ScalePerRow(ValuesPerRowOrCol),
    ScalePerColumn(ValuesPerRowOrCol),
    WarpRectilinear2(WarpRectilinear2),
}

/// Whether the payload of a `kind` opcode at `p` lies wholly in `b`.
#[verifier::opaque]
pub open spec fn payload_fits(kind: DngOpcodeId, b: Seq<u8>, p: int) -> bool {
    match kind {
        DngOpcodeId::WarpRectilinear => WarpRectilinear::fits(b, p),
        DngOpcodeId::WarpFisheye => WarpFisheye::fits(b, p),
        DngOpcodeId::FixVignetteRadial => FixVignetteRadial::fits(b, p),
        DngOpcodeId::FixBadPixelsConstant => FixBadPixelsConstant::fits(b, p),
        DngOpcodeId::FixBadPixelsList => FixBadPixelsList::fits(b, p),
        DngOpcodeId::TrimBounds => TrimBounds::fits(b, p),
        DngOpcodeId::MapTable => MapTable::fits(b, p),
        DngOpcodeId::MapPolynomial => MapPolynomial::fits(b, p),
        DngOpcodeId::GainMap => GainMap::fits(b, p),
        DngOpcodeId::DeltaPerRow => ValuesPerRowOrCol::fits(b, p),
        DngOpcodeId::DeltaPerColumn => ValuesPerRowOrCol::fits(b, p),
        DngOpcodeId::ScalePerRow => ValuesPerRowOrCol::fits(b, p),
        DngOpcodeId::ScalePerColumn => ValuesPerRowOrCol::fits(b, p),
        DngOpcodeId::WarpRectilinear2 => WarpRectilinear2::fits(b, p),
    }
}

/// The number of bytes that the payload of a `kind` opcode at `p` takes.
#[verifier::opaque]
pub open spec fn payload_size(kind: DngOpcodeId, b: Seq<u8>, p: int) -> int {
    match kind {
        DngOpcodeId::WarpRectilinear => WarpRectilinear::wire_size(b, p),
        DngOpcodeId::WarpFisheye => WarpFisheye::wire_size(b, p),
        DngOpcodeId::FixVignetteRadial => FixVignetteRadial::wire_size(b, p),
        DngOpcodeId::FixBadPixelsConstant => FixBadPixelsConstant::wire_size(b, p),
        DngOpcodeId::FixBadPixelsList => FixBadPixelsList::wire_size(b, p),
        DngOpcodeId::TrimBounds => TrimBounds::wire_size(b, p),
        DngOpcodeId::MapTable => MapTable::wire_size(b, p),
        DngOpcodeId::MapPolynomial => MapPolynomial::wire_size(b, p),
        DngOpcodeId::GainMap => GainMap::wire_size(b, p),
        DngOpcodeId::DeltaPerRow => ValuesPerRowOrCol::wire_size(b, p),
        DngOpcodeId::DeltaPerColumn => ValuesPerRowOrCol::wire_size(b, p),
        DngOpcodeId::ScalePerRow => ValuesPerRowOrCol::wire_size(b, p),
        DngOpcodeId::ScalePerColumn => ValuesPerRowOrCol::wire_size(b, p),
        DngOpcodeId::WarpRectilinear2 => WarpRectilinear2::wire_size(b, p),
    }
}

impl DngOpcode {
    /// The kind of the opcode.
    pub open spec fn id(self) -> DngOpcodeId {
        match self {
            DngOpcode::WarpRectilinear(_) => DngOpcodeId::WarpRectilinear,
            DngOpcode::WarpFisheye(_) => DngOpcodeId::WarpFisheye,
            DngOpcode::FixVignetteRadial(_) => DngOpcodeId::FixVignetteRadial,
            DngOpcode::FixBadPixelsConstant(_) => DngOpcodeId::FixBadPixelsConstant,
            DngOpcode::FixBadPixelsList(_) => DngOpcodeId::FixBadPixelsList,
            DngOpcode::TrimBounds(_) => DngOpcodeId::TrimBounds,
            DngOpcode::MapTable(_) => DngOpcodeId::MapTable,
            DngOpcode::MapPolynomial(_) => DngOpcodeId::MapPolynomial,
            DngOpcode::GainMap(_) => DngOpcodeId::GainMap,
            DngOpcode::DeltaPerRow(_) => DngOpcodeId::DeltaPerRow,
            DngOpcode::DeltaPerColumn(_) => DngOpcodeId::DeltaPerColumn,
            DngOpcode::ScalePerRow(_) => DngOpcodeId::ScalePerRow,
            DngOpcode::ScalePerColumn(_) => DngOpcodeId::ScalePerColumn,
            DngOpcode::WarpRectilinear2(_) => DngOpcodeId::WarpRectilinear2,
        }
    }

    /// The flags that the opcode carries.
    pub open spec fn flags(self) -> DngOpcodeFlags {
        match self {
            DngOpcode::WarpRectilinear(x) => x.flags,
            DngOpcode::WarpFisheye(x) => x.flags,
            DngOpcode::FixVignetteRadial(x) => x.flags,
            DngOpcode::FixBadPixelsConstant(x) => x.flags,
            DngOpcode::FixBadPixelsList(x) => x.flags,
            DngOpcode::TrimBounds(x) => x.flags,
            DngOpcode::MapTable(x) => x.flags,
            DngOpcode::MapPolynomial(x) => x.flags,
            DngOpcode::GainMap(x) => x.flags,
            DngOpcode::DeltaPerRow(x) => x.flags,
            DngOpcode::DeltaPerColumn(x) => x.flags,
            DngOpcode::ScalePerRow(x) => x.flags,
            DngOpcode::ScalePerColumn(x) => x.flags,
            DngOpcode::WarpRectilinear2(x) => x.flags,
        }
    }

    /// The opcode's fields are what the payload at `p` describes.
    #[verifier::opaque]
    pub open spec fn read_from(self, b: Seq<u8>, p: int) -> bool {
        match self {
            DngOpcode::WarpRectilinear(x) => x.read_from(b, p),
            DngOpcode::WarpFisheye(x) => x.read_from(b, p),
            DngOpcode::FixVignetteRadial(x) => x.read_from(b, p),
            DngOpcode::FixBadPixelsConstant(x) => x.read_from(b, p),
            DngOpcode::FixBadPixelsList(x) => x.read_from(b, p),
            DngOpcode::TrimBounds(x) => x.read_from(b, p),
            DngOpcode::MapTable(x) => x.read_from(b, p),
            DngOpcode::MapPolynomial(x) => x.read_from(b, p),
            DngOpcode::GainMap(x) => x.read_from(b, p),
            DngOpcode::DeltaPerRow(x) => x.read_from(b, p),
            DngOpcode::DeltaPerColumn(x) => x.read_from(b, p),
            DngOpcode::ScalePerRow(x) => x.read_from(b, p),
            DngOpcode::ScalePerColumn(x) => x.read_from(b, p),
            DngOpcode::WarpRectilinear2(x) => x.read_from(b, p),
        }
    }

    /// Decodes the payload of a `kind` opcode at the cursor.
    pub fn decode(kind: DngOpcodeId, flags: DngOpcodeFlags, buf: &[u8], pos: &mut usize) -> (r:
        Result<DngOpcode, DecodeError>)
        requires
            *old(pos) <= buf@.len(),
        ensures
            payload_decoded(r, kind, flags, buf@, *old(pos) as int, *final(pos) as int),
    {
        match kind {
            DngOpcodeId::WarpRectilinear => decode_warp_rectilinear(flags, buf, pos),
            DngOpcodeId::WarpFisheye => decode_warp_fisheye(flags, buf, pos),
            DngOpcodeId::FixVignetteRadial => decode_fix_vignette_radial(flags, buf, pos),
            DngOpcodeId::FixBadPixelsConstant => decode_fix_bad_pixels_constant(flags, buf, pos),
            DngOpcodeId::FixBadPixelsList => decode_fix_bad_pixels_list(flags, buf, pos),
            DngOpcodeId::TrimBounds => decode_trim_bounds(flags, buf, pos),
            DngOpcodeId::MapTable => decode_map_table(flags, buf, pos),
            DngOpcodeId::MapPolynomial => decode_map_polynomial(flags, buf, pos),
            DngOpcodeId::GainMap => decode_gain_map(flags, buf, pos),
            DngOpcodeId::DeltaPerRow => decode_delta_per_row(flags, buf, pos),
            DngOpcodeId::DeltaPerColumn => decode_delta_per_column(flags, buf, pos),
            DngOpcodeId::ScalePerRow => decode_scale_per_row(flags, buf, pos),
            DngOpcodeId::ScalePerColumn => decode_scale_per_column(flags, buf, pos),
            DngOpcodeId::WarpRectilinear2 => decode_warp_rectilinear2(flags, buf, pos),
        }
    }
}

/// `r` is the outcome of decoding, into the flags `flags`, the payload of a
/// `kind` opcode that starts at `p` in `b`, after which the cursor stands at
/// `end`: the record that the bytes describe when they are all there, and
/// truncation when they are not.
pub open spec fn payload_decoded(
    r: Result<DngOpcode, DecodeError>,
    kind: DngOpcodeId,
    flags: DngOpcodeFlags,
    b: Seq<u8>,
    p: int,
    end: int,
) -> bool {
    match r {
        Ok(op) => payload_fits(kind, b, p) && op.id() == kind && op.flags() == flags
            && op.read_from(b, p) && end == p + payload_size(kind, b, p) && p <= end <= b.len(),
        Err(e) => !payload_fits(kind, b, p) && e == DecodeError::Truncated,
    }
}

/// Decodes the payload of a `WarpRectilinear` opcode at the cursor.
fn decode_warp_rectilinear(flags: DngOpcodeFlags, buf: &[u8], pos: &mut usize) -> (r: Result<
    DngOpcode,
    DecodeError,
>)
    requires
        *old(pos) <= buf@.len(),
    ensures
        payload_decoded(r, DngOpcodeId::WarpRectilinear, flags, buf@, *old(pos) as int, *final(pos) as int),
{
    let ghost b = buf@;
    let ghost p = *pos as int;
    proof {
        reveal(payload_fits);
        reveal(payload_size);
    }
    match WarpRectilinear::decode(flags, buf, pos) {
        Ok(x) => {
            proof {
                assert(DngOpcode::WarpRectilinear(x).read_from(b, p)) by {
                    reveal(DngOpcode::read_from);
                }
            }
            Ok(DngOpcode::WarpRectilinear(x))
        },
        Err(e) => Err(e),
    }
}

/// Decodes the payload of a `WarpFisheye` opcode at the cursor.
fn decode_warp_fisheye(flags: DngOpcodeFlags, buf: &[u8], pos: &mut usize) -> (r: Result<
    DngOpcode,
    DecodeError,
>)
    requires
        *old(pos) <= buf@.len(),
    ensures
        payload_decoded(r, DngOpcodeId::WarpFisheye, flags, buf@, *old(pos) as int, *final(pos) as int),
{
    let ghost b = buf@;
    let ghost p = *pos as int;
    proof {
        reveal(payload_fits);
        reveal(payload_size);
    }
    match WarpFisheye::decode(flags, buf, pos) {
        Ok(x) => {
            proof {
                assert(DngOpcode::WarpFisheye(x).read_from(b, p)) by {
                    reveal(DngOpcode::read_from);
                }
            }
            Ok(DngOpcode::WarpFisheye(x))
        },
        Err(e) => Err(e),
    }
}

/// Decodes the payload of a `FixVignetteRadial` opcode at the cursor.
fn decode_fix_vignette_radial(flags: DngOpcodeFlags, buf: &[u8], pos: &mut usize) -> (r: Result<
    DngOpcode,
    DecodeError,
>)
    requires
        *old(pos) <= buf@.len(),
    ensures
        payload_decoded(r, DngOpcodeId::FixVignetteRadial, flags, buf@, *old(pos) as int, *final(pos) as int),
{
    let ghost b = buf@;
    let ghost p = *pos as int;
    proof {
        reveal(payload_fits);
        reveal(payload_size);
    }
    match FixVignetteRadial::decode(flags, buf, pos) {
        Ok(x) => {
            proof {
                assert(DngOpcode::FixVignetteRadial(x).read_from(b, p)) by {
                    reveal(DngOpcode::read_from);
                }
            }
            Ok(DngOpcode::FixVignetteRadial(x))
        },
        Err(e) => Err(e),
    }
}

/// Decodes the payload of a `FixBadPixelsConstant` opcode at the cursor.
fn decode_fix_bad_pixels_constant(flags: DngOpcodeFlags, buf: &[u8], pos: &mut usize) -> (r: Result<
    DngOpcode,
    DecodeError,
>)
    requires
        *old(pos) <= buf@.len(),
    ensures
        payload_decoded(r, DngOpcodeId::FixBadPixelsConstant, flags, buf@, *old(pos) as int, *final(pos) as int),
{
    let ghost b = buf@;
    let ghost p = *pos as int;
    proof {
        reveal(payload_fits);
        reveal(payload_size);
    }
    match FixBadPixelsConstant::decode(flags, buf, pos) {
        Ok(x) => {
            proof {
                assert(DngOpcode::FixBadPixelsConstant(x).read_from(b, p)) by {
                    reveal(DngOpcode::read_from);
                }
            }
            Ok(DngOpcode::FixBadPixelsConstant(x))
        },
        Err(e) => Err(e),
    }
}

/// Decodes the payload of a `FixBadPixelsList` opcode at the cursor.
fn decode_fix_bad_pixels_list(flags: DngOpcodeFlags, buf: &[u8], pos: &mut usize) -> (r: Result<
    DngOpcode,
    DecodeError,
>)
    requires
        *old(pos) <= buf@.len(),
    ensures
        payload_decoded(r, DngOpcodeId::FixBadPixelsList, flags, buf@, *old(pos) as int, *final(pos) as int),
{
    let ghost b = buf@;
    let ghost p = *pos as int;
    proof {
        reveal(payload_fits);
        reveal(payload_size);
    }
    match FixBadPixelsList::decode(flags, buf, pos) {
        Ok(x) => {
            proof {
                assert(DngOpcode::FixBadPixelsList(x).read_from(b, p)) by {
                    reveal(DngOpcode::read_from);
                }
            }
            Ok(DngOpcode::FixBadPixelsList(x))
        },
        Err(e) => Err(e),
    }
}

/// Decodes the payload of a `TrimBounds` opcode at the cursor.
fn decode_trim_bounds(flags: DngOpcodeFlags, buf: &[u8], pos: &mut usize) -> (r: Result<
    DngOpcode,
    DecodeError,
>)
    requires
        *old(pos) <= buf@.len(),
    ensures
        payload_decoded(r, DngOpcodeId::TrimBounds, flags, buf@, *old(pos) as int, *final(pos) as int),
{
    let ghost b = buf@;
    let ghost p = *pos as int;
    proof {
        reveal(payload_fits);
        reveal(payload_size);
    }
    match TrimBounds::decode(flags, buf, pos) {
        Ok(x) => {
            proof {
                assert(DngOpcode::TrimBounds(x).read_from(b, p)) by {
                    reveal(DngOpcode::read_from);
                }
            }
            Ok(DngOpcode::TrimBounds(x))
        },
        Err(e) => Err(e),
    }
}

/// Decodes the payload of a `MapTable` opcode at the cursor.
fn decode_map_table(flags: DngOpcodeFlags, buf: &[u8], pos: &mut usize) -> (r: Result<
    DngOpcode,
    DecodeError,
>)
    requires
        *old(pos) <= buf@.len(),
    ensures
        payload_decoded(r, DngOpcodeId::MapTable, flags, buf@, *old(pos) as int, *final(pos) as int),
{
    let ghost b = buf@;
    let ghost p = *pos as int;
    proof {
        reveal(payload_fits);
        reveal(payload_size);
    }
    match MapTable::decode(flags, buf, pos) {
        Ok(x) => {
            proof {
                assert(DngOpcode::MapTable(x).read_from(b, p)) by {
                    reveal(DngOpcode::read_from);
                }
            }
            Ok(DngOpcode::MapTable(x))
        },
        Err(e) => Err(e),
    }
}

/// Decodes the payload of a `MapPolynomial` opcode at the cursor.
fn decode_map_polynomial(flags: DngOpcodeFlags, buf: &[u8], pos: &mut usize) -> (r: Result<
    DngOpcode,
    DecodeError,
>)
    requires
        *old(pos) <= buf@.len(),
    ensures
        payload_decoded(r, DngOpcodeId::MapPolynomial, flags, buf@, *old(pos) as int, *final(pos) as int),
{
    let ghost b = buf@;
    let ghost p = *pos as int;
    proof {
        reveal(payload_fits);
        reveal(payload_size);
    }
    match MapPolynomial::decode(flags, buf, pos) {
        Ok(x) => {
            proof {
                assert(DngOpcode::MapPolynomial(x).read_from(b, p)) by {
                    reveal(DngOpcode::read_from);
                }
            }
            Ok(DngOpcode::MapPolynomial(x))
        },
        Err(e) => Err(e),
    }
}

/// Decodes the payload of a `GainMap` opcode at the cursor.
fn decode_gain_map(flags: DngOpcodeFlags, buf: &[u8], pos: &mut usize) -> (r: Result<
    DngOpcode,
    DecodeError,
>)
    requires
        *old(pos) <= buf@.len(),
    ensures
        payload_decoded(r, DngOpcodeId::GainMap, flags, buf@, *old(pos) as int, *final(pos) as int),
{
    let ghost b = buf@;
    let ghost p = *pos as int;
    proof {
        reveal(payload_fits);
        reveal(payload_size);
    }
    match GainMap::decode(flags, buf, pos) {
        Ok(x) => {
            proof {
                reveal(grid_size);
                let (v, h, n) = (be_u32(b, p + 32), be_u32(b, p + 36), be_u32(b, p + 72));
                assert(v * h * n >= 0) by (nonlinear_arith)
                    requires
                        v >= 0,
                        h >= 0,
                        n >= 0,
                ;
            }
            proof {
                assert(DngOpcode::GainMap(x).read_from(b, p)) by {
                    reveal(DngOpcode::read_from);
                }
            }
            Ok(DngOpcode::GainMap(x))
        },
        Err(e) => Err(e),
    }
}

/// Decodes the payload of a `DeltaPerRow` opcode at the cursor.
fn decode_delta_per_row(flags: DngOpcodeFlags, buf: &[u8], pos: &mut usize) -> (r: Result<
    DngOpcode,
    DecodeError,
>)
    requires
        *old(pos) <= buf@.len(),
    ensures
        payload_decoded(r, DngOpcodeId::DeltaPerRow, flags, buf@, *old(pos) as int, *final(pos) as int),
{
    let ghost b = buf@;
    let ghost p = *pos as int;
    proof {
        reveal(payload_fits);
        reveal(payload_size);
    }
    match ValuesPerRowOrCol::decode(flags, buf, pos) {
        Ok(x) => {
            proof {
                assert(DngOpcode::DeltaPerRow(x).read_from(b, p)) by {
                    reveal(DngOpcode::read_from);
                }
            }
            Ok(DngOpcode::DeltaPerRow(x))
        },
        Err(e) => Err(e),
    }
}

/// Decodes the payload of a `DeltaPerColumn` opcode at the cursor.
fn decode_delta_per_column(flags: DngOpcodeFlags, buf: &[u8], pos: &mut usize) -> (r: Result<
    DngOpcode,
    DecodeError,
>)
    requires
        *old(pos) <= buf@.len(),
    ensures
        payload_decoded(r, DngOpcodeId::DeltaPerColumn, flags, buf@, *old(pos) as int, *final(pos) as int),
{
    let ghost b = buf@;
    let ghost p = *pos as int;
    proof {
        reveal(payload_fits);
        reveal(payload_size);
    }
    match ValuesPerRowOrCol::decode(flags, buf, pos) {
        Ok(x) => {
            proof {
                assert(DngOpcode::DeltaPerColumn(x).read_from(b, p)) by {
                    reveal(DngOpcode::read_from);
                }
            }
            Ok(DngOpcode::DeltaPerColumn(x))
        },
        Err(e) => Err(e),
    }
}

/// Decodes the payload of a `ScalePerRow` opcode at the cursor.
fn decode_scale_per_row(flags: DngOpcodeFlags, buf: &[u8], pos: &mut usize) -> (r: Result<
    DngOpcode,
    DecodeError,
>)
    requires
        *old(pos) <= buf@.len(),
    ensures
        payload_decoded(r, DngOpcodeId::ScalePerRow, flags, buf@, *old(pos) as int, *final(pos) as int),
{
    let ghost b = buf@;
    let ghost p = *pos as int;
    proof {
        reveal(payload_fits);
        reveal(payload_size);
    }
    match ValuesPerRowOrCol::decode(flags, buf, pos) {
        Ok(x) => {
            proof {
                assert(DngOpcode::ScalePerRow(x).read_from(b, p)) by {
                    reveal(DngOpcode::read_from);
                }
            }
            Ok(DngOpcode::ScalePerRow(x))
        },
        Err(e) => Err(e),
    }
}

/// Decodes the payload of a `ScalePerColumn` opcode at the cursor.
fn decode_scale_per_column(flags: DngOpcodeFlags, buf: &[u8], pos: &mut usize) -> (r: Result<
    DngOpcode,
    DecodeError,
>)
    requires
        *old(pos) <= buf@.len(),
    ensures
        payload_decoded(r, DngOpcodeId::ScalePerColumn, flags, buf@, *old(pos) as int, *final(pos) as int),
{
    let ghost b = buf@;
    let ghost p = *pos as int;
    proof {
        reveal(payload_fits);
        reveal(payload_size);
    }
    match ValuesPerRowOrCol::decode(flags, buf, pos) {
        Ok(x) => {
            proof {
                assert(DngOpcode::ScalePerColumn(x).read_from(b, p)) by {
                    reveal(DngOpcode::read_from);
                }
            }
            Ok(DngOpcode::ScalePerColumn(x))
        },
        Err(e) => Err(e),
    }
}

/// Decodes the payload of a `WarpRectilinear2` opcode at the cursor.
fn decode_warp_rectilinear2(flags: DngOpcodeFlags, buf: &[u8], pos: &mut usize) -> (r: Result<
    DngOpcode,
    DecodeError,
>)
    requires
        *old(pos) <= buf@.len(),
    ensures
        payload_decoded(r, DngOpcodeId::WarpRectilinear2, flags, buf@, *old(pos) as int, *final(pos) as int),
{
    let ghost b = buf@;
    let ghost p = *pos as int;
    proof {
        reveal(payload_fits);
        reveal(payload_size);
    }
    match WarpRectilinear2::decode(flags, buf, pos) {
        Ok(x) => {
            proof {
                assert(DngOpcode::WarpRectilinear2(x).read_from(b, p)) by {
                    reveal(DngOpcode::read_from);
                }
            }
            Ok(DngOpcode::WarpRectilinear2(x))
        },
        Err(e) => Err(e),
    }
}

} // verus!
