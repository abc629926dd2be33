//! The frame reader: the entry count, each entry's header, dispatch on the
//! opcode kind, the exact-size rule of each payload and the skipping of kinds that
//! are not recognised.

use crate::bytes::{be_u32, take_u32};
use crate::opcode::{
    payload_fits, payload_size, DecodeError, DngOpcode, DngOpcodeFlags,
    DngOpcodeId,
};
use vstd::prelude::*;

verus! {

/// `r` with the payload offsets `s` put in front of its own, if it holds any.
pub open spec fn prepend(s: Seq<int>, r: Result<Seq<int>, DecodeError>) -> Result<
    Seq<int>,
    DecodeError,
> {
    match r {
        Ok(t) => Ok(s + t),
        Err(e) => Err(e),
    }
}

/// The payload offsets of the recognised opcodes among the `n` entries that
/// start at `p`, in stream order; or the error that stops the decode.
///
/// Each entry is a 16-byte header (identifier, version, flags, payload
/// length) and its payload. A recognised payload must lie in the buffer and
/// take exactly the declared length; the payload of an opcode that is not
/// recognised is skipped by its declared length, which must lie in the
/// buffer too.
pub open spec fn scan(b: Seq<u8>, p: int, n: nat) -> Result<Seq<int>, DecodeError>
    decreases n,
{
    if n == 0 {
        Ok(Seq::empty())
    } else if p + 16 > b.len() {
        Err(DecodeError::Truncated)
    } else {
        let start = p + 16;
        let len = be_u32(b, p + 12);
        match DngOpcodeId::from_code_spec(be_u32(b, p)) {
            Some(kind) => if !payload_fits(kind, b, start) {
                Err(DecodeError::Truncated)
            } else if payload_size(kind, b, start) != len {
                Err(DecodeError::SizeMismatch)
            } else {
                prepend(seq![start], scan(b, start + len, (n - 1) as nat))
            },
            None => if start + len > b.len() {
                Err(DecodeError::Truncated)
            } else {
                scan(b, start + len, (n - 1) as nat)
            },
        }
    }
}

/// The payload offsets of the recognised opcodes of the list `b`, or the
/// error that stops its decode: the list is a big-endian 32-bit entry count
/// followed by that many entries.
pub open spec fn list_offsets(b: Seq<u8>) -> Result<Seq<int>, DecodeError> {
    if b.len() < 4 {
        Err(DecodeError::Truncated)
    } else {
        scan(b, 4, be_u32(b, 0) as nat)
    }
}

/// `op` is the opcode whose payload starts at `s`, as its header and payload
/// describe it.
pub open spec fn entry_at(b: Seq<u8>, s: int, op: DngOpcode) -> bool {
    &&& op.id().code() as int == be_u32(b, s - 16)
    &&& op.flags() == DngOpcodeFlags::from_bits(be_u32(b, s - 8) as u32)
    &&& op.read_from(b, s)
}

/// Decodes a whole opcode list: the recognised opcodes in stream order, or
/// the first error, in which case nothing decoded before it is returned.
pub fn decode_opcode_list(opcode_list: &[u8]) -> (r: Result<Vec<DngOpcode>, DecodeError>)
    ensures
        match r {
            Ok(ops) => list_offsets(opcode_list@) matches Ok(offsets) && ops@.len()
                == offsets.len() && forall|k: int|
                0 <= k < offsets.len() ==> entry_at(opcode_list@, offsets[k], #[trigger] ops@[k]),
            Err(e) => list_offsets(opcode_list@) == Err::<Seq<int>, DecodeError>(e),
        },
{
    let buf = opcode_list;
    let ghost b = buf@;
    if buf.len() < 4 {
        return Err(DecodeError::Truncated);
    }
    let mut pos: usize = 0;
    let count = take_u32(buf, &mut pos);
    let mut ops: Vec<DngOpcode> = Vec::new();
    let ghost mut done: Seq<int> = Seq::empty();
    proof {
        match scan(b, 4, count as nat) {
            Ok(t) => assert(done + t =~= t),
            Err(_) => {},
        }
    }
    let mut i: u32 = 0;
    while i < count
        invariant
            b == buf@,
            b == opcode_list@,
            i <= count,
            pos <= buf@.len(),
            list_offsets(b) == prepend(done, scan(b, pos as int, (count - i) as nat)),
            ops@.len() == done.len(),
            forall|k: int| 0 <= k < done.len() ==> entry_at(b, done[k], #[trigger] ops@[k]),
        decreases count - i,
    {
        if buf.len() - pos < 16 {
            assert(scan(b, pos as int, (count - i) as nat) == Err::<Seq<int>, DecodeError>(
                DecodeError::Truncated,
            ));
            return Err(DecodeError::Truncated);
        }
        let ghost head = pos as int;
        let id = take_u32(buf, &mut pos);
        let _spec_version = take_u32(buf, &mut pos);
        let raw_flags = take_u32(buf, &mut pos);
        let len = take_u32(buf, &mut pos);
        let start: usize = pos;
        let ghost rest = scan(b, start + len, (count - i - 1) as nat);
        match DngOpcodeId::from_code(id) {
            Some(kind) => {
                let flags = DngOpcodeFlags::decode(raw_flags);
                let decoded = DngOpcode::decode(kind, flags, buf, &mut pos);
                match decoded {
                    Ok(op) => {
                        if pos - start != len as usize {
                            return Err(DecodeError::SizeMismatch);
                        }
                        proof {
                            match rest {
                                Ok(t) => assert(done + (seq![start as int] + t) =~= done.push(
                                    start as int,
                                ) + t),
                                Err(_) => {},
                            }
                            done = done.push(start as int);
                        }
                        ops.push(op);
                    },
                    Err(e) => {
                        assert(scan(b, head, (count - i) as nat) == Err::<Seq<int>, DecodeError>(
                            DecodeError::Truncated,
                        ));
                        return Err(e);
                    },
                }
            },
            None => {
                if buf.len() - pos < len as usize {
                    assert(scan(b, head, (count - i) as nat) == Err::<Seq<int>, DecodeError>(
                        DecodeError::Truncated,
                    ));
                    return Err(DecodeError::Truncated);
                }
                pos = pos + len as usize;
            },
        }
        i = i + 1;
    }
    proof {
        assert(done + Seq::<int>::empty() =~= done);
    }
    Ok(ops)
}

} // verus!
