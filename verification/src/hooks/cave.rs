//! Code caves that copy live game state into the shared data block.
//!
//! Each cave saves the register it borrows, loads the block address, copies
//! the captured values, restores the register, replays the instruction that
//! the hook overwrote and jumps back behind the hook.

use vstd::prelude::*;
use vstd::bytes::*;

use super::inject::{abs_jmp_bytes, push_bytes, Patcher};

verus! {

/// Generator of the four code caves.
pub struct CaveGenerator;

impl CaveGenerator {
    /// Size of the shared block (data followed by the caves).
    pub const BLOCK_SIZE: u64 = 0x1000;
    /// 64 bytes of position data.
    pub const OFF_TRAVEL_DATA: u64 = 0x000;
    /// 16 bytes of marker data.
    pub const OFF_MAP_DATA: u64 = 0x040;
    /// 4 bytes of camera heading.
    pub const OFF_CAM_DATA: u64 = 0x090;
    /// Entity cave.
    pub const OFF_CAVE_ENTITY: u64 = 0x100;
    /// Position cave.
    pub const OFF_CAVE_POSITION: u64 = 0x180;
    /// Map cave.
    pub const OFF_CAVE_MAP: u64 = 0x200;
    /// Camera cave.
    pub const OFF_CAVE_CAM: u64 = 0x280;

    /// Sizes of the hooked instructions that the jumps replace.
    pub const HOOK_ENTITY_SIZE: usize = 8;
    pub const HOOK_POSITION_SIZE: usize = 7;
    pub const HOOK_MAP_SIZE: usize = 7;
    pub const HOOK_CAM_SIZE: usize = 9;
}

/// Entity cave: copies the entity reference and three position floats.
pub open spec fn cave_entity_bytes(block_addr: u64, return_addr: u64) -> Seq<u8> {
    seq![0x51u8, 0x48u8, 0xB9u8] + spec_u64_to_le_bytes(block_addr) + seq![
        0x48u8, 0x89u8, 0x41u8, 0x18u8,
        0xC5u8, 0xFAu8, 0x10u8, 0x80u8, 0x90u8, 0x00u8, 0x00u8, 0x00u8,
        0xC5u8, 0xFAu8, 0x11u8, 0x41u8, 0x20u8,
        0xC5u8, 0xFAu8, 0x10u8, 0x80u8, 0x94u8, 0x00u8, 0x00u8, 0x00u8,
        0xC5u8, 0xFAu8, 0x11u8, 0x41u8, 0x24u8,
        0xC5u8, 0xFAu8, 0x10u8, 0x80u8, 0x98u8, 0x00u8, 0x00u8, 0x00u8,
        0xC5u8, 0xFAu8, 0x11u8, 0x41u8, 0x28u8,
        0x59u8,
        0xC5u8, 0xF8u8, 0x11u8, 0x88u8, 0xB0u8, 0x01u8, 0x00u8, 0x00u8,
    ] + abs_jmp_bytes(return_addr)
}

/// Position cave: writes only for the tracked entity, then replays the store.
pub open spec fn cave_position_bytes(block_addr: u64, return_addr: u64) -> Seq<u8> {
    seq![0x50u8, 0x48u8, 0xB8u8] + spec_u64_to_le_bytes(block_addr) + seq![
        0x48u8, 0x83u8, 0x78u8, 0x10u8, 0x00u8,
        0x7Eu8, 0x15u8,
        0x48u8, 0x3Bu8, 0x48u8, 0x18u8,
        0x75u8, 0x0Fu8,
        0x58u8,
    ] + abs_jmp_bytes(return_addr) + seq![
        0x58u8,
        0x0Fu8, 0x11u8, 0x99u8, 0x90u8, 0x00u8, 0x00u8, 0x00u8,
    ] + abs_jmp_bytes(return_addr)
}

/// Map cave: replays two instructions, then stores the marker and sets its flag.
pub open spec fn cave_map_bytes(block_addr: u64, return_addr: u64) -> Seq<u8> {
    seq![
        0xC5u8, 0xFBu8, 0x11u8, 0x02u8,
        0x8Bu8, 0x47u8, 0x08u8,
        0x51u8, 0x48u8, 0xB9u8,
    ] + spec_u64_to_le_bytes(block_addr) + seq![
        0xC5u8, 0xFBu8, 0x11u8, 0x01u8,
        0x89u8, 0x41u8, 0x08u8,
        0xC7u8, 0x41u8, 0x0Cu8, 0x01u8, 0x00u8, 0x00u8, 0x00u8,
        0x59u8,
    ] + abs_jmp_bytes(return_addr)
}

/// Camera cave: replays the heading store and copies the heading.
pub open spec fn cave_cam_bytes(block_addr: u64, return_addr: u64) -> Seq<u8> {
    seq![0x51u8, 0x48u8, 0xB9u8] + spec_u64_to_le_bytes(block_addr) + seq![
        0xC4u8, 0xC1u8, 0x7Au8, 0x11u8, 0x97u8, 0xA4u8, 0x04u8, 0x00u8, 0x00u8,
        0xC5u8, 0xFAu8, 0x11u8, 0x11u8,
        0x59u8,
    ] + abs_jmp_bytes(return_addr)
}

impl CaveGenerator {
    /// Generate the entity cave for the block at `block_addr`, returning to
    /// `return_addr`.
    pub fn build_cave_entity(block_addr: u64, return_addr: u64) -> (code: Vec<u8>)
        ensures
            code@ == cave_entity_bytes(block_addr, return_addr),
            code@.len() == 77,
    {
        let mut code: Vec<u8> = Vec::new();
        push_bytes(&mut code, &vec![0x51u8, 0x48u8, 0xB9u8]);
        push_bytes(&mut code, &u64_to_le_bytes(block_addr));
        push_bytes(&mut code, &vec![
            0x48u8, 0x89u8, 0x41u8, 0x18u8,
            0xC5u8, 0xFAu8, 0x10u8, 0x80u8, 0x90u8, 0x00u8, 0x00u8, 0x00u8,
            0xC5u8, 0xFAu8, 0x11u8, 0x41u8, 0x20u8,
            0xC5u8, 0xFAu8, 0x10u8, 0x80u8, 0x94u8, 0x00u8, 0x00u8, 0x00u8,
            0xC5u8, 0xFAu8, 0x11u8, 0x41u8, 0x24u8,
            0xC5u8, 0xFAu8, 0x10u8, 0x80u8, 0x98u8, 0x00u8, 0x00u8, 0x00u8,
            0xC5u8, 0xFAu8, 0x11u8, 0x41u8, 0x28u8,
            0x59u8,
            0xC5u8, 0xF8u8, 0x11u8, 0x88u8, 0xB0u8, 0x01u8, 0x00u8, 0x00u8,
        ]);
        push_bytes(&mut code, &Patcher::abs_jmp(return_addr));
        code
    }

    /// Generate the position cave.
    pub fn build_cave_position(block_addr: u64, return_addr: u64) -> (code: Vec<u8>)
        ensures
            code@ == cave_position_bytes(block_addr, return_addr),
            code@.len() == 61,
    {
        let mut code: Vec<u8> = Vec::new();
        push_bytes(&mut code, &vec![0x50u8, 0x48u8, 0xB8u8]);
        push_bytes(&mut code, &u64_to_le_bytes(block_addr));
        push_bytes(&mut code, &vec![
            0x48u8, 0x83u8, 0x78u8, 0x10u8, 0x00u8,
            0x7Eu8, 0x15u8,
            0x48u8, 0x3Bu8, 0x48u8, 0x18u8,
            0x75u8, 0x0Fu8,
            0x58u8,
        ]);
        push_bytes(&mut code, &Patcher::abs_jmp(return_addr));
        push_bytes(&mut code, &vec![
            0x58u8,
            0x0Fu8, 0x11u8, 0x99u8, 0x90u8, 0x00u8, 0x00u8, 0x00u8,
        ]);
        push_bytes(&mut code, &Patcher::abs_jmp(return_addr));
        code
    }

    /// Generate the map cave.
    pub fn build_cave_map(block_addr: u64, return_addr: u64) -> (code: Vec<u8>)
        ensures
            code@ == cave_map_bytes(block_addr, return_addr),
            code@.len() == 47,
    {
        let mut code: Vec<u8> = Vec::new();
        push_bytes(&mut code, &vec![
            0xC5u8, 0xFBu8, 0x11u8, 0x02u8,
            0x8Bu8, 0x47u8, 0x08u8,
            0x51u8, 0x48u8, 0xB9u8,
        ]);
        push_bytes(&mut code, &u64_to_le_bytes(block_addr));
        push_bytes(&mut code, &vec![
            0xC5u8, 0xFBu8, 0x11u8, 0x01u8,
            0x89u8, 0x41u8, 0x08u8,
            0xC7u8, 0x41u8, 0x0Cu8, 0x01u8, 0x00u8, 0x00u8, 0x00u8,
            0x59u8,
        ]);
        push_bytes(&mut code, &Patcher::abs_jmp(return_addr));
        code
    }

    /// Generate the camera cave.
    pub fn build_cave_cam(block_addr: u64, return_addr: u64) -> (code: Vec<u8>)
        ensures
            code@ == cave_cam_bytes(block_addr, return_addr),
            code@.len() == 39,
    {
        let mut code: Vec<u8> = Vec::new();
        push_bytes(&mut code, &vec![0x51u8, 0x48u8, 0xB9u8]);
        push_bytes(&mut code, &u64_to_le_bytes(block_addr));
        push_bytes(&mut code, &vec![
            0xC4u8, 0xC1u8, 0x7Au8, 0x11u8, 0x97u8, 0xA4u8, 0x04u8, 0x00u8, 0x00u8,
            0xC5u8, 0xFAu8, 0x11u8, 0x11u8,
            0x59u8,
        ]);
        push_bytes(&mut code, &Patcher::abs_jmp(return_addr));
        code
    }
}

} // verus!
