use vstd::prelude::*;
use vstd::bytes::*;

use crate::error::{AppError, AppResult};

verus! {

/// Creates the byte sequences of jump patches.
pub struct Patcher;

/// The bytes `FF 25 00 00 00 00` of `jmp [rip+0]`.
pub open spec fn abs_jmp_prefix() -> Seq<u8> {
    seq![0xFFu8, 0x25u8, 0x00u8, 0x00u8, 0x00u8, 0x00u8]
}

/// A 64-bit absolute indirect jump to `target`: `jmp [rip+0]` followed by the
/// eight little-endian bytes of the target.
pub open spec fn abs_jmp_bytes(target: u64) -> Seq<u8> {
    abs_jmp_prefix() + spec_u64_to_le_bytes(target)
}


/// The value of a `u64` read as a two's-complement `i64`.
pub open spec fn signed64(x: u64) -> int {
    if x < 0x8000_0000_0000_0000 {
        x as int
    } else {
        x - 0x1_0000_0000_0000_0000
    }
}

/// The rel32 displacement of a 5-byte `jmp rel32` placed at `from` that lands
/// on `to`: `to - from - 5`, both addresses read as signed 64-bit values.
pub open spec fn rel32_displacement(from: u64, to: u64) -> int {
    signed64(to) - signed64(from) - 5
}

/// Whether a displacement fits a signed 32-bit immediate.
pub open spec fn fits_i32(d: int) -> bool {
    -0x8000_0000 <= d <= 0x7FFF_FFFF
}

/// The 32-bit two's-complement pattern of a displacement that fits `i32`.
pub open spec fn u32_of_i32(d: int) -> u32 {
    if d >= 0 {
        d as u32
    } else {
        (d + 0x1_0000_0000) as u32
    }
}

/// A 32-bit pattern read back as a signed displacement.
pub open spec fn i32_of_u32(u: u32) -> int {
    if u < 0x8000_0000 {
        u as int
    } else {
        u - 0x1_0000_0000
    }
}

/// `count` NOP bytes (`0x90`).
pub open spec fn nops(count: nat) -> Seq<u8> {
    Seq::new(count, |i: int| 0x90u8)
}

/// The patch `E9 <rel32 little-endian> <NOP padding>` of `total_len` bytes for a
/// displacement `d`.
pub open spec fn jmp_patch_bytes(d: int, total_len: nat) -> Seq<u8> {
    seq![0xE9u8] + spec_u32_to_le_bytes(u32_of_i32(d)) + nops((total_len - 5) as nat)
}

/// Appends `bytes` to `code`.
pub fn push_bytes(code: &mut Vec<u8>, bytes: &Vec<u8>)
    ensures
        final(code)@ == old(code)@ + bytes@,
{
    let mut i: usize = 0;
    while i < bytes.len()
        invariant
            i <= bytes@.len(),
            code@ == old(code)@ + bytes@.subrange(0, i as int),
        decreases bytes@.len() - i,
    {
        code.push(bytes[i]);
        i = i + 1;
        assert(code@ == old(code)@ + bytes@.subrange(0, i as int));
    }
    assert(bytes@.subrange(0, bytes@.len() as int) == bytes@);
}

impl Patcher {
    /// Calculate the rel32 displacement `to - from - 5` of a `jmp rel32` at
    /// `from_addr` that lands on `to_addr`; fails when it does not fit in ±2 GiB.
    pub fn rel32(from_addr: u64, to_addr: u64) -> (res: AppResult<i32>)
        ensures
            fits_i32(rel32_displacement(from_addr, to_addr)) ==> (res matches Ok(d) && d
                == rel32_displacement(from_addr, to_addr)),
            !fits_i32(rel32_displacement(from_addr, to_addr)) ==> res == Err::<i32, AppError>(
                AppError::RelJmpOutOfRange { from: from_addr, to: to_addr },
            ),
    {
        let from_i: i128 = if from_addr < 0x8000_0000_0000_0000 {
            from_addr as i128
        } else {
            from_addr as i128 - 0x1_0000_0000_0000_0000i128
        };
        let to_i: i128 = if to_addr < 0x8000_0000_0000_0000 {
            to_addr as i128
        } else {
            to_addr as i128 - 0x1_0000_0000_0000_0000i128
        };
        let displacement: i128 = to_i - from_i - 5;
        if displacement < -0x8000_0000i128 || displacement > 0x7FFF_FFFFi128 {
            return Err(AppError::RelJmpOutOfRange { from: from_addr, to: to_addr });
        }
        Ok(displacement as i32)
    }

    /// Create a `jmp rel32` patch from `from_addr` to `to_addr`, padded with NOPs
    /// to `total_len` bytes (at least 5).
    pub fn jmp_patch(from_addr: u64, to_addr: u64, total_len: usize) -> (res: AppResult<Vec<u8>>)
        ensures
            total_len < 5 ==> (res matches Err(AppError::InvalidHookConfig(msg)) && msg@
                == "patch length must be >= 5 bytes"@),
            total_len >= 5 && !fits_i32(rel32_displacement(from_addr, to_addr)) ==> res
                == Err::<Vec<u8>, AppError>(
                AppError::RelJmpOutOfRange { from: from_addr, to: to_addr },
            ),
            total_len >= 5 && fits_i32(rel32_displacement(from_addr, to_addr)) ==> (res matches Ok(
                patch,
            ) && patch@ == jmp_patch_bytes(rel32_displacement(from_addr, to_addr), total_len as nat)),
    {
        if total_len < 5 {
            return Err(
                AppError::InvalidHookConfig(String::from_str("patch length must be >= 5 bytes")),
            );
        }
        let rel = match Self::rel32(from_addr, to_addr) {
            Ok(d) => d,
            Err(e) => return Err(e),
        };
        let bits: u32 = if rel >= 0 {
            rel as u32
        } else {
            (rel as i64 + 0x1_0000_0000i64) as u32
        };
        let mut patch: Vec<u8> = Vec::with_capacity(total_len);
        patch.push(0xE9u8);
        let disp_bytes = u32_to_le_bytes(bits);
        push_bytes(&mut patch, &disp_bytes);
        let ghost head = patch@;
        while patch.len() < total_len
            invariant
                5 <= patch@.len() <= total_len,
                patch@.subrange(0, 5) == head,
                forall|i: int| 5 <= i < patch@.len() ==> patch@[i] == 0x90u8,
            decreases total_len - patch@.len(),
        {
            patch.push(0x90u8);
        }
        assert(patch@ =~= jmp_patch_bytes(rel32_displacement(from_addr, to_addr), total_len as nat));
        Ok(patch)
    }
    /// Create a 64-bit absolute jump (`FF 25 00000000` + 8-byte target).
    pub fn abs_jmp(target: u64) -> (patch: Vec<u8>)
        ensures
            patch@ == abs_jmp_bytes(target),
            patch@.len() == 14,
    {
        let mut patch: Vec<u8> = Vec::with_capacity(14);
        let prefix: Vec<u8> = vec![0xFFu8, 0x25u8, 0x00u8, 0x00u8, 0x00u8, 0x00u8];
        push_bytes(&mut patch, &prefix);
        let t = u64_to_le_bytes(target);
        push_bytes(&mut patch, &t);
        assert(prefix@ == abs_jmp_prefix());
        patch
    }
}

} // verus!
