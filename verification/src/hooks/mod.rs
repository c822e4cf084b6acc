//! Hook planning: the writes that set up the shared block, the caves and the
//! jump patches. Performing them in the game process is left to the caller.

pub mod cave;
pub mod inject;

use vstd::prelude::*;

use crate::error::{AppError, AppResult};
use crate::scanner::{
    camera_pattern_bytes, entity_pattern_bytes, first_match_index, lemma_first_match_exists,
    map_pattern_bytes, pattern_found, position_pattern_bytes, ScanResults,
};
use crate::text::hex_upper;
use crate::app::BLOCK_READ_START;
use cave::{
    cave_cam_bytes, cave_entity_bytes, cave_map_bytes, cave_position_bytes, CaveGenerator,
};
use inject::{
    abs_jmp_bytes, abs_jmp_prefix, fits_i32, i32_of_u32, jmp_patch_bytes, nops, rel32_displacement,
    signed64, u32_of_i32, Patcher,
};
use crate::scanner::wrap_u64;
use vstd::bytes::{
    lemma_auto_spec_u32_to_from_le_bytes, lemma_auto_spec_u64_to_from_le_bytes, spec_u32_from_le_bytes,
    spec_u32_to_le_bytes, spec_u64_from_le_bytes, spec_u64_to_le_bytes,
};

verus! {

/// A write of `bytes` at `address` in the game process.
pub struct MemoryWrite {
    pub address: u64,
    pub bytes: Vec<u8>,
}

/// A hook point: where to patch, how many bytes the jump replaces and where in
/// the block its cave lives.
pub struct HookConfig {
    /// Name of the hook (ENTITY, POSITION, MAP, CAM).
    pub name: &'static str,
    /// Address to hook.
    pub address: u64,
    /// Size of the original instruction that the jump replaces.
    pub size: usize,
    /// Offset of the cave in the block.
    pub cave_offset: u64,
}

/// A write seen as an address and a byte sequence.
pub open spec fn write_view(w: MemoryWrite) -> (u64, Seq<u8>) {
    (w.address, w.bytes@)
}

/// The views of a list of writes.
pub open spec fn writes_view(ws: Seq<MemoryWrite>) -> Seq<(u64, Seq<u8>)> {
    ws.map_values(|w: MemoryWrite| write_view(w))
}

/// `n` zero bytes.
pub open spec fn zeros(n: nat) -> Seq<u8> {
    Seq::new(n, |i: int| 0u8)
}

/// The block layout: data areas, then one cave region per hook.
pub open spec fn storage_writes_spec(block: u64) -> Seq<(u64, Seq<u8>)> {
    seq![
        (block, zeros(64)),
        ((block + 0x40) as u64, zeros(16)),
        ((block + 0x90) as u64, zeros(4)),
    ]
}

/// The four caves at their offsets in the block at `block`, each returning right
/// behind the instruction that its hook overwrites.
pub open spec fn cave_writes_spec(block: u64, r: ScanResults) -> Seq<(u64, Seq<u8>)> {
    seq![
        ((block + 0x100) as u64, cave_entity_bytes(block, (r.entity + 8) as u64)),
        ((block + 0x180) as u64, cave_position_bytes(block, (r.position + 7) as u64)),
        ((block + 0x200) as u64, cave_map_bytes((block + 0x40) as u64, (r.map + 7) as u64)),
        ((block + 0x280) as u64, cave_cam_bytes((block + 0x90) as u64, (r.camera + 9) as u64)),
    ]
}

/// The hook table: (address, replaced bytes, cave offset) for each hook.
pub open spec fn hook_table_spec(r: ScanResults) -> Seq<(u64, usize, u64)> {
    seq![
        (r.entity, 8usize, 0x100u64),
        (r.position, 7usize, 0x180u64),
        (r.map, 7usize, 0x200u64),
        (r.camera, 9usize, 0x280u64),
    ]
}

/// Hook addresses leave room for the replaced instruction.
pub open spec fn results_in_range(r: ScanResults) -> bool {
    &&& r.entity + 8 <= u64::MAX
    &&& r.position + 7 <= u64::MAX
    &&& r.map + 7 <= u64::MAX
    &&& r.camera + 9 <= u64::MAX
}

/// The writes that patch one hook: straight to its cave, or through a trampoline
/// that jumps absolutely to the cave.
pub open spec fn hook_patch_spec(address: u64, size: usize, cave: u64, trampoline: Option<u64>) -> Seq<
    (u64, Seq<u8>),
> {
    match trampoline {
        None => seq![(address, jmp_patch_bytes(rel32_displacement(address, cave), size as nat))],
        Some(t) => seq![
            (t, abs_jmp_bytes(cave)),
            (address, jmp_patch_bytes(rel32_displacement(address, t), size as nat)),
        ],
    }
}


/// Where a `jmp rel32` patch placed at `from` lands.
pub open spec fn rel32_jump_target(from: u64, patch: Seq<u8>) -> u64 {
    wrap_u64(from + 5 + i32_of_u32(spec_u32_from_le_bytes(patch.subrange(1, 5))))
}

/// Where an absolute jump (`jmp [rip+0]` + target) sends execution.
pub open spec fn abs_jump_target(code: Seq<u8>) -> u64 {
    spec_u64_from_le_bytes(code.subrange(6, 14))
}

/// A jump patch is `total_len` bytes long, starts with the `jmp rel32` opcode,
/// pads with NOPs, and lands exactly on its target.
pub proof fn lemma_jmp_patch_lands(from: u64, to: u64, total_len: nat)
    requires
        total_len >= 5,
        fits_i32(rel32_displacement(from, to)),
    ensures
        ({
            let p = jmp_patch_bytes(rel32_displacement(from, to), total_len);
            &&& p.len() == total_len
            &&& p[0] == 0xE9u8
            &&& forall|i: int| 5 <= i < total_len ==> p[i] == 0x90u8
            &&& rel32_jump_target(from, p) == to
        }),
{
    let d = rel32_displacement(from, to);
    let u = u32_of_i32(d);
    let p = jmp_patch_bytes(d, total_len);
    lemma_auto_spec_u32_to_from_le_bytes();
    assert(spec_u32_to_le_bytes(u).len() == 4);
    assert(p.subrange(1, 5) =~= spec_u32_to_le_bytes(u));
    assert(i32_of_u32(u) == d);
    assert forall|i: int| 5 <= i < total_len implies p[i] == 0x90u8 by {
        assert(p[i] == nops((total_len - 5) as nat)[i - 5]);
    }
    let x = from + 5 + d;
    assert(x == to + (from - signed64(from)) - (to - signed64(to)));
    if from < 0x8000_0000_0000_0000 {
        if to < 0x8000_0000_0000_0000 {
            assert(x == to);
        } else {
            assert(x == to - 0x1_0000_0000_0000_0000);
        }
    } else {
        if to < 0x8000_0000_0000_0000 {
            assert(x == to + 0x1_0000_0000_0000_0000);
        } else {
            assert(x == to);
        }
    }
}

/// An absolute jump is 14 bytes, `FF 25 00000000`, and sends execution to its target.
pub proof fn lemma_abs_jmp_target(target: u64)
    ensures
        abs_jmp_bytes(target).len() == 14,
        abs_jmp_bytes(target).subrange(0, 6) == abs_jmp_prefix(),
        abs_jump_target(abs_jmp_bytes(target)) == target,
{
    lemma_auto_spec_u64_to_from_le_bytes();
    assert(spec_u64_to_le_bytes(target).len() == 8);
    assert(abs_jmp_bytes(target).subrange(6, 14) =~= spec_u64_to_le_bytes(target));
    assert(abs_jmp_bytes(target).subrange(0, 6) =~= abs_jmp_prefix());
}


/// The caves fill their regions without overlapping each other, the data areas
/// or the end of the block, and each cave ends with an absolute jump back to the
/// instruction right behind the bytes that its hook overwrites.
pub proof fn lemma_block_layout(block: u64, r: ScanResults)
    requires
        block + CaveGenerator::BLOCK_SIZE <= u64::MAX,
        results_in_range(r),
    ensures
        ({
            let caves = cave_writes_spec(block, r);
            let data = storage_writes_spec(block);
            let table = hook_table_spec(r);
            &&& forall|i: int| 0 <= i < 2 ==> data[i].0 + data[i].1.len() <= #[trigger] data[i + 1].0
            &&& data[2].0 + data[2].1.len() <= caves[0].0
            &&& forall|i: int| 0 <= i < 3 ==> caves[i].0 + caves[i].1.len() <= #[trigger] caves[i + 1].0
            &&& caves[3].0 + caves[3].1.len() <= block + CaveGenerator::BLOCK_SIZE
            &&& forall|i: int|
                0 <= i < 4 ==> {
                    let code = #[trigger] caves[i].1;
                    &&& code.len() >= 14
                    &&& caves[i].0 == block + table[i].2
                    &&& code.subrange(code.len() - 14, code.len() as int) == abs_jmp_bytes(
                        (table[i].0 + table[i].1) as u64,
                    )
                }
        }),
{
    lemma_auto_spec_u64_to_from_le_bytes();
    let caves = cave_writes_spec(block, r);
    let table = hook_table_spec(r);
    assert(spec_u64_to_le_bytes(block).len() == 8);
    assert(spec_u64_to_le_bytes((block + 0x40) as u64).len() == 8);
    assert(spec_u64_to_le_bytes((block + 0x90) as u64).len() == 8);
    assert(spec_u64_to_le_bytes((r.entity + 8) as u64).len() == 8);
    assert(spec_u64_to_le_bytes((r.position + 7) as u64).len() == 8);
    assert(spec_u64_to_le_bytes((r.map + 7) as u64).len() == 8);
    assert(spec_u64_to_le_bytes((r.camera + 9) as u64).len() == 8);
    let e = caves[0].1;
    assert(e.len() == 77);
    assert(e.subrange(63, 77) =~= abs_jmp_bytes((r.entity + 8) as u64));
    let p = caves[1].1;
    assert(p.len() == 61);
    assert(p.subrange(47, 61) =~= abs_jmp_bytes((r.position + 7) as u64));
    let m = caves[2].1;
    assert(m.len() == 47);
    assert(m.subrange(33, 47) =~= abs_jmp_bytes((r.map + 7) as u64));
    let c = caves[3].1;
    assert(c.len() == 39);
    assert(c.subrange(25, 39) =~= abs_jmp_bytes((r.camera + 9) as u64));
    let data = storage_writes_spec(block);
    assert(zeros(64).len() == 64 && zeros(16).len() == 16 && zeros(4).len() == 4);
    assert forall|i: int| 0 <= i < 2 implies data[i].0 + data[i].1.len() <= #[trigger] data[i + 1].0 by {
        if i == 0 {
        } else if i == 1 {
        } else {
        }
    }
    assert forall|i: int| 0 <= i < 3 implies caves[i].0 + caves[i].1.len() <= #[trigger] caves[i + 1].0 by {
        if i == 0 {
        } else if i == 1 {
        } else {
        }
    }
    assert forall|i: int| 0 <= i < 4 implies {
        let code = #[trigger] caves[i].1;
        &&& code.len() >= 14
        &&& caves[i].0 == block + table[i].2
        &&& code.subrange(code.len() - 14, code.len() as int) == abs_jmp_bytes(
            (table[i].0 + table[i].1) as u64,
        )
    } by {
        if i == 0 {
        } else if i == 1 {
        } else if i == 2 {
        } else {
        }
    }
}


/// Patching a hook sends execution to its cave: directly with a rel32 jump, or
/// (far mode) through a trampoline whose absolute jump reaches the cave. The
/// patch at the hook replaces exactly the hooked instruction's bytes.
pub proof fn lemma_hook_patch_reaches_cave(
    address: u64,
    size: usize,
    cave: u64,
    trampoline: Option<u64>,
)
    requires
        size >= 5,
        fits_i32(
            rel32_displacement(
                address,
                match trampoline {
                    None => cave,
                    Some(t) => t,
                },
            ),
        ),
    ensures
        ({
            let ws = hook_patch_spec(address, size, cave, trampoline);
            match trampoline {
                None => {
                    &&& ws.len() == 1
                    &&& ws[0].0 == address
                    &&& ws[0].1.len() == size
                    &&& ws[0].1[0] == 0xE9u8
                    &&& rel32_jump_target(address, ws[0].1) == cave
                },
                Some(t) => {
                    &&& ws.len() == 2
                    &&& ws[0].0 == t
                    &&& abs_jump_target(ws[0].1) == cave
                    &&& ws[1].0 == address
                    &&& ws[1].1.len() == size
                    &&& ws[1].1[0] == 0xE9u8
                    &&& rel32_jump_target(address, ws[1].1) == t
                },
            }
        }),
{
    match trampoline {
        None => {
            lemma_jmp_patch_lands(address, cave, size as nat);
        },
        Some(t) => {
            lemma_jmp_patch_lands(address, t, size as nat);
            lemma_abs_jmp_target(cave);
        },
    }
}


/// The bytes that a jump overwrites at the first match of `pat` (offset `off`,
/// `len` bytes) are the pattern's own bytes there.
pub proof fn lemma_hooked_bytes(data: Seq<u8>, pat: Seq<u8>, off: int, len: int)
    requires
        pattern_found(data, pat),
        0 <= off,
        0 <= len,
        off + len <= pat.len(),
    ensures
        ({
            let i = first_match_index(data, pat);
            &&& 0 <= i && i + pat.len() <= data.len()
            &&& data.subrange(i + off, i + off + len) == pat.subrange(off, off + len)
        }),
{
    lemma_first_match_exists(data, pat);
    let i = first_match_index(data, pat);
    assert(data.subrange(i, i + pat.len()) == pat);
    assert(data.subrange(i + off, i + off + len) =~= data.subrange(i, i + pat.len()).subrange(
        off,
        off + len,
    ));
}

/// Each cave replays exactly the instruction bytes that its hook's jump
/// overwrites: the bytes of the scanned pattern from the hook offset on, as
/// many as the hook replaces. So hooking leaves the game's own work unchanged.
pub proof fn lemma_caves_replay_hooked_instructions(data: Seq<u8>, block: u64, r: ScanResults)
    requires
        block + CaveGenerator::BLOCK_SIZE <= u64::MAX,
        results_in_range(r),
        pattern_found(data, entity_pattern_bytes()),
        pattern_found(data, position_pattern_bytes()),
        pattern_found(data, map_pattern_bytes()),
        pattern_found(data, camera_pattern_bytes()),
    ensures
        ({
            let caves = cave_writes_spec(block, r);
            let e = first_match_index(data, entity_pattern_bytes());
            let p = first_match_index(data, position_pattern_bytes());
            let m = first_match_index(data, map_pattern_bytes());
            let c = first_match_index(data, camera_pattern_bytes());
            &&& data.subrange(e + 3, e + 3 + 8) == caves[0].1.subrange(55, 63)
            &&& data.subrange(p, p + 7) == caves[1].1.subrange(40, 47)
            &&& data.subrange(m + 4, m + 4 + 7) == caves[2].1.subrange(0, 7)
            &&& data.subrange(c, c + 9) == caves[3].1.subrange(11, 20)
        }),
{
    lemma_auto_spec_u64_to_from_le_bytes();
    lemma_hooked_bytes(data, entity_pattern_bytes(), 3, 8);
    lemma_hooked_bytes(data, position_pattern_bytes(), 0, 7);
    lemma_hooked_bytes(data, map_pattern_bytes(), 4, 7);
    lemma_hooked_bytes(data, camera_pattern_bytes(), 0, 9);
    let caves = cave_writes_spec(block, r);
    assert(spec_u64_to_le_bytes(block).len() == 8);
    assert(spec_u64_to_le_bytes((block + 0x40) as u64).len() == 8);
    assert(spec_u64_to_le_bytes((block + 0x90) as u64).len() == 8);
    assert(spec_u64_to_le_bytes((r.entity + 8) as u64).len() == 8);
    assert(spec_u64_to_le_bytes((r.position + 7) as u64).len() == 8);
    assert(spec_u64_to_le_bytes((r.map + 7) as u64).len() == 8);
    assert(spec_u64_to_le_bytes((r.camera + 9) as u64).len() == 8);
    assert(entity_pattern_bytes().subrange(3, 11) =~= caves[0].1.subrange(55, 63));
    assert(position_pattern_bytes().subrange(0, 7) =~= caves[1].1.subrange(40, 47));
    assert(map_pattern_bytes().subrange(4, 11) =~= caves[2].1.subrange(0, 7));
    assert(camera_pattern_bytes().subrange(0, 9) =~= caves[3].1.subrange(11, 20));
}

/// The map cave raises the marker flag: it loads the data address into RCX
/// (`push rcx; mov rcx, imm64`), then stores the 32-bit little-endian immediate 1
/// at RCX + 0x0C (`mov dword [rcx+0x0C], imm32`). With the data area at block
/// offset 0x40 that is the word the per-tick reading takes as the marker flag
/// (0x2C bytes into the read starting at 0x20), and 1 is the value that marks a
/// game marker as present.
pub proof fn lemma_map_cave_sets_marker_flag(data_addr: u64, return_addr: u64)
    ensures
        ({
            let code = cave_map_bytes(data_addr, return_addr);
            &&& code.subrange(7, 10) == seq![0x51u8, 0x48u8, 0xB9u8]
            &&& spec_u64_from_le_bytes(code.subrange(10, 18)) == data_addr
            &&& code.subrange(25, 28) == seq![0xC7u8, 0x41u8, 0x0Cu8]
            &&& code[28] + 0x100 * code[29] + 0x1_0000 * code[30] + 0x100_0000 * code[31] == 1
        }),
        CaveGenerator::OFF_MAP_DATA + 0x0C == BLOCK_READ_START + 0x2C,
{
    lemma_auto_spec_u64_to_from_le_bytes();
    let code = cave_map_bytes(data_addr, return_addr);
    assert(spec_u64_to_le_bytes(data_addr).len() == 8);
    assert(code.subrange(10, 18) =~= spec_u64_to_le_bytes(data_addr));
    assert(code.subrange(7, 10) =~= seq![0x51u8, 0x48u8, 0xB9u8]);
    assert(code.subrange(25, 28) =~= seq![0xC7u8, 0x41u8, 0x0Cu8]);
}

/// The caves write each value where the per-tick reading of the block (which
/// starts at `BLOCK_READ_START`) takes it from:
/// - the entity cave loads the block address into RCX, keeps the entity
///   reference at RCX + 0x18 and stores the three position floats with
///   `vmovss [rcx+d8], xmm0` at the read's offsets 0x00, 0x04, 0x08;
/// - the position cave loads the block address into RAX and compares the
///   entity against the reference at RAX + 0x18; both of its conditional jumps
///   land on the path that replays the hooked store;
/// - the map cave loads the marker area (read offset 0x20) into RCX and stores
///   x, y with `vmovsd [rcx], xmm0` and z with `mov [rcx+0x08], eax`;
/// - the camera cave loads the heading word (read offset 0x70) into RCX and
///   stores the heading with `vmovss [rcx], xmm2`.
pub proof fn lemma_caves_feed_the_block_reading(block: u64, r: ScanResults)
    requires
        block + CaveGenerator::BLOCK_SIZE <= u64::MAX,
        results_in_range(r),
    ensures
        ({
            let caves = cave_writes_spec(block, r);
            let e = caves[0].1;
            let p = caves[1].1;
            let m = caves[2].1;
            let c = caves[3].1;
            &&& e.subrange(1, 3) == seq![0x48u8, 0xB9u8]
            &&& spec_u64_from_le_bytes(e.subrange(3, 11)) == block
            &&& e.subrange(11, 15) == seq![0x48u8, 0x89u8, 0x41u8, 0x18u8]
            &&& e.subrange(23, 27) == seq![0xC5u8, 0xFAu8, 0x11u8, 0x41u8]
            &&& e.subrange(36, 40) == seq![0xC5u8, 0xFAu8, 0x11u8, 0x41u8]
            &&& e.subrange(49, 53) == seq![0xC5u8, 0xFAu8, 0x11u8, 0x41u8]
            &&& e[27] as int == BLOCK_READ_START + 0x00
            &&& e[40] as int == BLOCK_READ_START + 0x04
            &&& e[53] as int == BLOCK_READ_START + 0x08
            &&& p.subrange(1, 3) == seq![0x48u8, 0xB8u8]
            &&& spec_u64_from_le_bytes(p.subrange(3, 11)) == block
            &&& p.subrange(18, 21) == seq![0x48u8, 0x3Bu8, 0x48u8]
            &&& p[21] == e[14]
            &&& p[16] == 0x7Eu8 && p[22] == 0x75u8
            &&& 18 + p[17] == 39 && 24 + p[23] == 39
            &&& p[39] == 0x58u8 && p.subrange(40, 47) == position_pattern_bytes()
            &&& spec_u64_from_le_bytes(m.subrange(10, 18)) == block + BLOCK_READ_START + 0x20
            &&& m.subrange(18, 22) == seq![0xC5u8, 0xFBu8, 0x11u8, 0x01u8]
            &&& m.subrange(22, 24) == seq![0x89u8, 0x41u8]
            &&& m[24] as int == 0x28 - 0x20
            &&& spec_u64_from_le_bytes(c.subrange(3, 11)) == block + BLOCK_READ_START + 0x70
            &&& c.subrange(20, 24) == seq![0xC5u8, 0xFAu8, 0x11u8, 0x11u8]
        }),
{
    lemma_auto_spec_u64_to_from_le_bytes();
    let caves = cave_writes_spec(block, r);
    assert(spec_u64_to_le_bytes(block).len() == 8);
    assert(spec_u64_to_le_bytes((block + 0x40) as u64).len() == 8);
    assert(spec_u64_to_le_bytes((block + 0x90) as u64).len() == 8);
    assert(spec_u64_to_le_bytes((r.entity + 8) as u64).len() == 8);
    assert(spec_u64_to_le_bytes((r.position + 7) as u64).len() == 8);
    assert(spec_u64_to_le_bytes((r.map + 7) as u64).len() == 8);
    assert(spec_u64_to_le_bytes((r.camera + 9) as u64).len() == 8);
    let e = caves[0].1;
    let p = caves[1].1;
    let m = caves[2].1;
    let c = caves[3].1;
    assert(e.subrange(3, 11) =~= spec_u64_to_le_bytes(block));
    assert(p.subrange(3, 11) =~= spec_u64_to_le_bytes(block));
    assert(m.subrange(10, 18) =~= spec_u64_to_le_bytes((block + 0x40) as u64));
    assert(c.subrange(3, 11) =~= spec_u64_to_le_bytes((block + 0x90) as u64));
    assert(e.subrange(1, 3) =~= seq![0x48u8, 0xB9u8]);
    assert(e.subrange(11, 15) =~= seq![0x48u8, 0x89u8, 0x41u8, 0x18u8]);
    assert(e.subrange(23, 27) =~= seq![0xC5u8, 0xFAu8, 0x11u8, 0x41u8]);
    assert(e.subrange(36, 40) =~= seq![0xC5u8, 0xFAu8, 0x11u8, 0x41u8]);
    assert(e.subrange(49, 53) =~= seq![0xC5u8, 0xFAu8, 0x11u8, 0x41u8]);
    assert(p.subrange(1, 3) =~= seq![0x48u8, 0xB8u8]);
    assert(p.subrange(18, 21) =~= seq![0x48u8, 0x3Bu8, 0x48u8]);
    assert(p.subrange(40, 47) =~= position_pattern_bytes());
    assert(m.subrange(18, 22) =~= seq![0xC5u8, 0xFBu8, 0x11u8, 0x01u8]);
    assert(m.subrange(22, 24) =~= seq![0x89u8, 0x41u8]);
    assert(c.subrange(20, 24) =~= seq![0xC5u8, 0xFAu8, 0x11u8, 0x11u8]);
}

fn zero_bytes(n: usize) -> (v: Vec<u8>)
    ensures
        v@ == zeros(n as nat),
{
    let mut v: Vec<u8> = Vec::with_capacity(n);
    while v.len() < n
        invariant
            v@.len() <= n,
            forall|i: int| 0 <= i < v@.len() ==> v@[i] == 0u8,
        decreases n - v@.len(),
    {
        v.push(0u8);
    }
    assert(v@ =~= zeros(n as nat));
    v
}

/// Data storage writes: 64 bytes of position data, 16 bytes of marker data and a
/// zero camera heading, all zeroed.
pub fn storage_writes(block_base: u64) -> (ws: Vec<MemoryWrite>)
    requires
        block_base + CaveGenerator::OFF_CAM_DATA <= u64::MAX,
    ensures
        writes_view(ws@) == storage_writes_spec(block_base),
{
    let mut ws: Vec<MemoryWrite> = Vec::new();
    ws.push(MemoryWrite { address: block_base, bytes: zero_bytes(64) });
    ws.push(MemoryWrite { address: block_base + CaveGenerator::OFF_MAP_DATA, bytes: zero_bytes(16) });
    ws.push(MemoryWrite { address: block_base + CaveGenerator::OFF_CAM_DATA, bytes: zero_bytes(4) });
    assert(writes_view(ws@) =~= storage_writes_spec(block_base));
    ws
}

fn cave_write(block_base: u64, offset: u64, code: Vec<u8>) -> (res: AppResult<MemoryWrite>)
    requires
        block_base + CaveGenerator::BLOCK_SIZE <= u64::MAX,
        block_base + offset + code@.len() <= u64::MAX,
    ensures
        offset + code@.len() <= CaveGenerator::BLOCK_SIZE ==> (res matches Ok(w) && w.address
            == block_base + offset && w.bytes@ == code@),
        offset + code@.len() > CaveGenerator::BLOCK_SIZE ==> (res matches Err(e) && e is HookFailed),
{
    let addr = block_base + offset;
    let end = addr + code.len() as u64;
    if end > block_base + CaveGenerator::BLOCK_SIZE {
        let mut msg = String::from_str("Cave exceeds allocated block: end=0x");
        let h = hex_upper(end);
        msg.append(h.as_str());
        return Err(AppError::HookFailed(msg));
    }
    Ok(MemoryWrite { address: addr, bytes: code })
}

/// The cave writes for a block at `block_base`: each cave at its offset,
/// reading into its data area and returning behind its hooked instruction.
/// The caves always fit their regions, so this never fails.
pub fn cave_writes(block_base: u64, results: &ScanResults) -> (res: AppResult<Vec<MemoryWrite>>)
    requires
        block_base + CaveGenerator::BLOCK_SIZE <= u64::MAX,
        results_in_range(*results),
    ensures
        res matches Ok(ws) && writes_view(ws@) == cave_writes_spec(block_base, *results),
{
    let mut ws: Vec<MemoryWrite> = Vec::new();
    let entity = CaveGenerator::build_cave_entity(
        block_base + CaveGenerator::OFF_TRAVEL_DATA,
        results.entity + CaveGenerator::HOOK_ENTITY_SIZE as u64,
    );
    match cave_write(block_base, CaveGenerator::OFF_CAVE_ENTITY, entity) {
        Ok(w) => ws.push(w),
        Err(e) => return Err(e),
    }
    let position = CaveGenerator::build_cave_position(
        block_base + CaveGenerator::OFF_TRAVEL_DATA,
        results.position + CaveGenerator::HOOK_POSITION_SIZE as u64,
    );
    match cave_write(block_base, CaveGenerator::OFF_CAVE_POSITION, position) {
        Ok(w) => ws.push(w),
        Err(e) => return Err(e),
    }
    let map = CaveGenerator::build_cave_map(
        block_base + CaveGenerator::OFF_MAP_DATA,
        results.map + CaveGenerator::HOOK_MAP_SIZE as u64,
    );
    match cave_write(block_base, CaveGenerator::OFF_CAVE_MAP, map) {
        Ok(w) => ws.push(w),
        Err(e) => return Err(e),
    }
    let cam = CaveGenerator::build_cave_cam(
        block_base + CaveGenerator::OFF_CAM_DATA,
        results.camera + CaveGenerator::HOOK_CAM_SIZE as u64,
    );
    match cave_write(block_base, CaveGenerator::OFF_CAVE_CAM, cam) {
        Ok(w) => ws.push(w),
        Err(e) => return Err(e),
    }
    assert(writes_view(ws@) =~= cave_writes_spec(block_base, *results));
    Ok(ws)
}

/// The four hooks in patch order.
pub fn hook_configs(results: &ScanResults) -> (hooks: Vec<HookConfig>)
    ensures
        hooks@.map_values(|h: HookConfig| (h.address, h.size, h.cave_offset)) == hook_table_spec(
            *results,
        ),
        hooks@[0].name@ == "ENTITY"@,
        hooks@[1].name@ == "POSITION"@,
        hooks@[2].name@ == "MAP"@,
        hooks@[3].name@ == "CAM"@,
{
    let mut hooks: Vec<HookConfig> = Vec::new();
    hooks.push(HookConfig {
        name: "ENTITY",
        address: results.entity,
        size: CaveGenerator::HOOK_ENTITY_SIZE,
        cave_offset: CaveGenerator::OFF_CAVE_ENTITY,
    });
    hooks.push(HookConfig {
        name: "POSITION",
        address: results.position,
        size: CaveGenerator::HOOK_POSITION_SIZE,
        cave_offset: CaveGenerator::OFF_CAVE_POSITION,
    });
    hooks.push(HookConfig {
        name: "MAP",
        address: results.map,
        size: CaveGenerator::HOOK_MAP_SIZE,
        cave_offset: CaveGenerator::OFF_CAVE_MAP,
    });
    hooks.push(HookConfig {
        name: "CAM",
        address: results.camera,
        size: CaveGenerator::HOOK_CAM_SIZE,
        cave_offset: CaveGenerator::OFF_CAVE_CAM,
    });
    assert(hooks@.map_values(|h: HookConfig| (h.address, h.size, h.cave_offset)) =~= hook_table_spec(
        *results,
    ));
    hooks
}

/// The writes that patch `hook`: a rel32 jump to its cave, or, when a
/// trampoline was allocated (far mode), an absolute jump to the cave in the
/// trampoline and a rel32 jump to the trampoline at the hook.
pub fn hook_patch_writes(hook: &HookConfig, block_base: u64, trampoline: Option<u64>) -> (res:
    AppResult<Vec<MemoryWrite>>)
    requires
        block_base + hook.cave_offset <= u64::MAX,
    ensures
        hook.size < 5 ==> (res matches Err(AppError::InvalidHookConfig(msg)) && msg@
            == "patch length must be >= 5 bytes"@),
        hook.size >= 5 ==> ({
            let cave = (block_base + hook.cave_offset) as u64;
            let target = match trampoline {
                None => cave,
                Some(t) => t,
            };
            &&& fits_i32(rel32_displacement(hook.address, target)) ==> (res matches Ok(ws)
                && writes_view(ws@) == hook_patch_spec(hook.address, hook.size, cave, trampoline))
            &&& !fits_i32(rel32_displacement(hook.address, target)) ==> res == Err::<
                Vec<MemoryWrite>,
                AppError,
            >(AppError::RelJmpOutOfRange { from: hook.address, to: target })
        }),
{
    let cave_addr = block_base + hook.cave_offset;
    let mut ws: Vec<MemoryWrite> = Vec::new();
    match trampoline {
        Some(tramp_addr) => {
            ws.push(MemoryWrite { address: tramp_addr, bytes: Patcher::abs_jmp(cave_addr) });
            match Patcher::jmp_patch(hook.address, tramp_addr, hook.size) {
                Ok(patch) => ws.push(MemoryWrite { address: hook.address, bytes: patch }),
                Err(e) => return Err(e),
            }
        },
        None => {
            match Patcher::jmp_patch(hook.address, cave_addr, hook.size) {
                Ok(patch) => ws.push(MemoryWrite { address: hook.address, bytes: patch }),
                Err(e) => return Err(e),
            }
        },
    }
    assert(writes_view(ws@) =~= hook_patch_spec(hook.address, hook.size, cave_addr, trampoline));
    Ok(ws)
}

/// The hook addresses near which the block is tried, in order: entity,
/// position, map, camera.
pub fn allocation_anchors(results: &ScanResults) -> (anchors: Vec<u64>)
    ensures
        anchors@ == seq![results.entity, results.position, results.map, results.camera],
{
    let anchors: Vec<u64> = vec![results.entity, results.position, results.map, results.camera];
    anchors
}

} // verus!
