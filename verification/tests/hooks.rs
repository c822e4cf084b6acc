use crimson_desert_tomtom::hooks::cave::CaveGenerator;
use crimson_desert_tomtom::hooks::inject::Patcher;
use crimson_desert_tomtom::hooks::{
    allocation_anchors, cave_writes, hook_configs, hook_patch_writes, storage_writes, HookConfig,
};
use crimson_desert_tomtom::scanner::ScanResults;
use crimson_desert_tomtom::error::AppError;

fn results() -> ScanResults {
    ScanResults {
        entity: 0x14000_1000,
        position: 0x14000_2000,
        map: 0x14000_3000,
        camera: 0x14000_4000,
        world_offset: 0x14500_0000,
    }
}

fn le_u64(b: &[u8]) -> u64 {
    u64::from_le_bytes([b[0], b[1], b[2], b[3], b[4], b[5], b[6], b[7]])
}

#[test]
fn test_cave_entity_generation() {
    let cave = CaveGenerator::build_cave_entity(0x400000, 0x500000);
    // Just verify it generates some code
    assert!(!cave.is_empty());
    assert!(cave.len() > 50); // Should have substantial code
}

#[test]
fn test_cave_sizes_reasonable() {
    let cave_entity = CaveGenerator::build_cave_entity(0x400000, 0x500000);
    let cave_position = CaveGenerator::build_cave_position(0x400000, 0x500000);
    let cave_map = CaveGenerator::build_cave_map(0x400000, 0x500000);
    let cave_cam = CaveGenerator::build_cave_cam(0x400000, 0x500000);

    // All caves should fit in their allocated regions
    assert!(cave_entity.len() <= 128);
    assert!(cave_position.len() <= 128);
    assert!(cave_map.len() <= 128);
    assert!(cave_cam.len() <= 256);
}

#[test]
fn test_rel32_near() {
    let disp = Patcher::rel32(0x400000, 0x400010).unwrap();
    assert_eq!(disp, 11);
}

#[test]
fn test_rel32_backward() {
    let disp = Patcher::rel32(0x400010, 0x400000).unwrap();
    assert_eq!(disp, -21);
}

#[test]
fn test_rel32_out_of_range() {
    let from = 0x0;
    let to = 0x100000000u64; // 4GB away
    let result = Patcher::rel32(from, to);
    assert!(result.is_err());
}

#[test]
fn test_jmp_patch_exact() {
    let patch = Patcher::jmp_patch(0x400000, 0x400010, 5).unwrap();
    assert_eq!(patch.len(), 5);
    assert_eq!(patch[0], 0xE9);
    let rel32 = i32::from_le_bytes([patch[1], patch[2], patch[3], patch[4]]);
    assert_eq!(rel32, 11);
}

#[test]
fn test_jmp_patch_with_nops() {
    let patch = Patcher::jmp_patch(0x400000, 0x400010, 8).unwrap();
    assert_eq!(patch.len(), 8);
    assert_eq!(patch[0], 0xE9);
    assert_eq!(patch[5], 0x90);
    assert_eq!(patch[6], 0x90);
    assert_eq!(patch[7], 0x90);
}

#[test]
fn test_abs_jmp() {
    let patch = Patcher::abs_jmp(0x123456789ABCDEF0);
    assert_eq!(patch.len(), 14);
    assert_eq!(&patch[0..6], b"\xFF\x25\x00\x00\x00\x00");
    let target = u64::from_le_bytes([
        patch[6], patch[7], patch[8], patch[9], patch[10], patch[11], patch[12], patch[13],
    ]);
    assert_eq!(target, 0x123456789ABCDEF0);
}

#[test]
fn test_jmp_patch_too_small() {
    let result = Patcher::jmp_patch(0x400000, 0x400010, 4);
    assert!(result.is_err());
}

#[test]
fn test_hook_config_sizes() {
    assert_eq!(CaveGenerator::HOOK_ENTITY_SIZE, 8);
    assert_eq!(CaveGenerator::HOOK_POSITION_SIZE, 7);
    assert_eq!(CaveGenerator::HOOK_MAP_SIZE, 7);
    assert_eq!(CaveGenerator::HOOK_CAM_SIZE, 9);
}

#[test]
fn test_block_offsets_no_overlap() {
    assert!(CaveGenerator::OFF_TRAVEL_DATA < CaveGenerator::OFF_MAP_DATA);
    assert!(CaveGenerator::OFF_MAP_DATA < CaveGenerator::OFF_CAM_DATA);
    assert!(CaveGenerator::OFF_CAM_DATA < CaveGenerator::OFF_CAVE_ENTITY);
    assert!(CaveGenerator::OFF_CAVE_ENTITY < CaveGenerator::OFF_CAVE_POSITION);
    assert!(CaveGenerator::OFF_CAVE_POSITION < CaveGenerator::OFF_CAVE_MAP);
    assert!(CaveGenerator::OFF_CAVE_MAP < CaveGenerator::OFF_CAVE_CAM);
}

#[test]
fn rel32_limits_are_inclusive() {
    // to - from - 5 == i32::MAX fits, one more does not
    assert_eq!(Patcher::rel32(0x1000, 0x1000 + 5 + 0x7FFF_FFFF).unwrap(), i32::MAX);
    assert!(Patcher::rel32(0x1000, 0x1000 + 5 + 0x8000_0000).is_err());
    assert_eq!(Patcher::rel32(0x9000_0000, 0x9000_0000 + 5 - 0x8000_0000).unwrap(), i32::MIN);
    match Patcher::rel32(0x0, 0x100000000) {
        Err(AppError::RelJmpOutOfRange { from, to }) => {
            assert_eq!(from, 0);
            assert_eq!(to, 0x100000000);
        }
        _ => panic!("expected RelJmpOutOfRange"),
    }
}

#[test]
fn rel32_across_the_sign_boundary() {
    // addresses above 2^63 are read as negative numbers
    let from = 0xFFFF_FFFF_FFFF_FFF0u64;
    let to = 0x10u64;
    assert_eq!(Patcher::rel32(from, to).unwrap(), 0x20 - 5);
}

#[test]
fn jmp_patch_lands_on_target() {
    for (from, to) in [(0x400000u64, 0x400010u64), (0x7FF6_0000_1000, 0x7FF6_1234_5678), (0x5000_0000, 0x1000)] {
        let patch = Patcher::jmp_patch(from, to, 7).unwrap();
        let rel = i32::from_le_bytes([patch[1], patch[2], patch[3], patch[4]]);
        assert_eq!(from.wrapping_add(5).wrapping_add(rel as i64 as u64), to);
        assert_eq!(&patch[5..], &[0x90, 0x90]);
    }
}

#[test]
fn jmp_patch_out_of_range_is_error() {
    assert!(matches!(
        Patcher::jmp_patch(0, 0x1_0000_0000, 8),
        Err(AppError::RelJmpOutOfRange { .. })
    ));
    assert!(matches!(
        Patcher::jmp_patch(0, 0x10, 4),
        Err(AppError::InvalidHookConfig(_))
    ));
}

#[test]
fn caves_embed_block_and_return_addresses() {
    let block = 0x7FF0_0000_0000u64;
    let ret = 0x1400_1234u64;
    let e = CaveGenerator::build_cave_entity(block, ret);
    assert_eq!(e.len(), 77);
    assert_eq!(&e[0..3], &[0x51, 0x48, 0xB9]);
    assert_eq!(le_u64(&e[3..11]), block);
    assert_eq!(&e[e.len() - 14..e.len() - 8], &[0xFF, 0x25, 0, 0, 0, 0]);
    assert_eq!(le_u64(&e[e.len() - 8..]), ret);

    let p = CaveGenerator::build_cave_position(block, ret);
    assert_eq!(p.len(), 61);
    assert_eq!(le_u64(&p[3..11]), block);
    assert_eq!(le_u64(&p[p.len() - 8..]), ret);
    assert_eq!(le_u64(&p[p.len() - 8 - 8 - 14..p.len() - 8 - 14]), ret);

    let m = CaveGenerator::build_cave_map(block, ret);
    assert_eq!(m.len(), 47);
    assert_eq!(&m[0..7], &[0xC5, 0xFB, 0x11, 0x02, 0x8B, 0x47, 0x08]);
    assert_eq!(le_u64(&m[10..18]), block);
    assert_eq!(le_u64(&m[m.len() - 8..]), ret);

    let c = CaveGenerator::build_cave_cam(block, ret);
    assert_eq!(c.len(), 39);
    assert_eq!(le_u64(&c[3..11]), block);
    assert_eq!(le_u64(&c[c.len() - 8..]), ret);
}

#[test]
fn storage_writes_zero_the_data_areas() {
    let ws = storage_writes(0x10000);
    assert_eq!(ws.len(), 3);
    assert_eq!((ws[0].address, ws[0].bytes.len()), (0x10000, 64));
    assert_eq!((ws[1].address, ws[1].bytes.len()), (0x10040, 16));
    assert_eq!((ws[2].address, ws[2].bytes.len()), (0x10090, 4));
    assert!(ws.iter().all(|w| w.bytes.iter().all(|b| *b == 0)));
}

#[test]
fn cave_writes_place_caves_and_return_behind_hooks() {
    let r = results();
    let block = 0x1_3000_0000u64;
    let ws = cave_writes(block, &r).unwrap();
    let hooks = hook_configs(&r);
    assert_eq!(ws.len(), 4);
    assert_eq!(hooks.len(), 4);
    for (w, h) in ws.iter().zip(hooks.iter()) {
        assert_eq!(w.address, block + h.cave_offset);
        let n = w.bytes.len();
        assert_eq!(le_u64(&w.bytes[n - 8..]), h.address + h.size as u64);
        assert!(w.address + n as u64 <= block + CaveGenerator::BLOCK_SIZE);
    }
    // entity and position caves read into the travel data, map and camera into theirs
    assert_eq!(le_u64(&ws[0].bytes[3..11]), block);
    assert_eq!(le_u64(&ws[1].bytes[3..11]), block);
    assert_eq!(le_u64(&ws[2].bytes[10..18]), block + 0x40);
    assert_eq!(le_u64(&ws[3].bytes[3..11]), block + 0x90);
}

#[test]
fn hook_table_matches_sizes_and_offsets() {
    let hooks = hook_configs(&results());
    let names: Vec<&str> = hooks.iter().map(|h| h.name).collect();
    assert_eq!(names, vec!["ENTITY", "POSITION", "MAP", "CAM"]);
    let sizes: Vec<usize> = hooks.iter().map(|h| h.size).collect();
    assert_eq!(sizes, vec![8, 7, 7, 9]);
    let offs: Vec<u64> = hooks.iter().map(|h| h.cave_offset).collect();
    assert_eq!(offs, vec![0x100, 0x180, 0x200, 0x280]);
}

#[test]
fn hook_patch_near_and_far() {
    let hook = HookConfig { name: "MAP", address: 0x1_4000_3000, size: 7, cave_offset: 0x200 };
    let block = 0x1_3000_0000u64;
    let near = hook_patch_writes(&hook, block, None).unwrap();
    assert_eq!(near.len(), 1);
    assert_eq!(near[0].address, hook.address);
    assert_eq!(near[0].bytes.len(), 7);
    let rel = i32::from_le_bytes([near[0].bytes[1], near[0].bytes[2], near[0].bytes[3], near[0].bytes[4]]);
    assert_eq!((hook.address as i64 + 5 + rel as i64) as u64, block + 0x200);

    let tramp = 0x1_4000_8000u64;
    let far = hook_patch_writes(&hook, 0x7FF0_0000_0000, Some(tramp)).unwrap();
    assert_eq!(far.len(), 2);
    assert_eq!(far[0].address, tramp);
    assert_eq!(le_u64(&far[0].bytes[6..14]), 0x7FF0_0000_0200);
    assert_eq!(far[1].address, hook.address);
    let rel = i32::from_le_bytes([far[1].bytes[1], far[1].bytes[2], far[1].bytes[3], far[1].bytes[4]]);
    assert_eq!((hook.address as i64 + 5 + rel as i64) as u64, tramp);

    // a far cave without a trampoline is out of rel32 reach
    assert!(matches!(
        hook_patch_writes(&hook, 0x7FF0_0000_0000, None),
        Err(AppError::RelJmpOutOfRange { .. })
    ));
}

#[test]
fn anchors_in_hook_order() {
    let r = results();
    assert_eq!(allocation_anchors(&r), vec![r.entity, r.position, r.map, r.camera]);
}
