use crimson_desert_tomtom::process::{
    alloc_probe, block_candidates, char_array_to_string, names_match, near_probe, near_verdict,
    NearProbe, NearVerdict, ALLOC_PROBE_COUNT, is_user_address, probe_addresses, within_rel32,
    ModuleInfo, BLOCK_PROBE_STEP,
};

fn c_chars(s: &[u8], len: usize) -> Vec<i8> {
    let mut v = vec![0i8; len];
    for (i, b) in s.iter().enumerate() {
        v[i] = *b as i8;
    }
    v
}

#[test]
fn c_strings_stop_at_nul() {
    assert_eq!(char_array_to_string(&c_chars(b"CrimsonDesert.exe", 260)), "CrimsonDesert.exe");
    assert_eq!(char_array_to_string(&c_chars(b"abc", 3)), "abc");
    assert_eq!(char_array_to_string(&[]), "");
    // invalid UTF-8 is replaced, not rejected
    assert_eq!(char_array_to_string(&[0x41, -1, 0x42, 0]), "A\u{FFFD}B");
}

#[test]
fn probes_saturate_and_filter() {
    assert_eq!(probe_addresses(0x20000, 0x10000), (0x30000, 0x10000));
    assert_eq!(probe_addresses(0x5000, 0x10000), (0x15000, 0));
    assert_eq!(probe_addresses(u64::MAX - 1, 0x10000), (u64::MAX, u64::MAX - 0x10001));
    assert!(!is_user_address(0xFFFF));
    assert!(is_user_address(0x10000));
}

#[test]
fn rel32_reach_check() {
    assert!(within_rel32(0x1_0000_0000, 0x1_7FFF_FFFE));
    assert!(!within_rel32(0x1_0000_0000, 0x1_7FFF_FFFF));
    assert!(within_rel32(0x1_7FFF_FFFE, 0x1_0000_0000));
    assert!(!within_rel32(0, u64::MAX / 2));
}

#[test]
fn block_candidates_alternate_around_anchor() {
    let near = 0x1_4000_0000u64;
    let c = block_candidates(near);
    assert_eq!(c.len(), 254);
    assert_eq!(c[0], near + BLOCK_PROBE_STEP);
    assert_eq!(c[1], near - BLOCK_PROBE_STEP);
    assert_eq!(c[253], near - 127 * BLOCK_PROBE_STEP);
    let low = block_candidates(0);
    assert_eq!(low[1], 0u64.wrapping_sub(BLOCK_PROBE_STEP));
}

#[test]
fn module_info_holds_values() {
    let m = ModuleInfo { name: "CrimsonDesert.exe".to_string(), base_address: 0x1_4000_0000, size: 0x1000 };
    assert_eq!(m.base_address + m.size, 0x1_4000_1000);
    assert_eq!(m.name, "CrimsonDesert.exe");
}

#[test]
fn alloc_probes_alternate_in_64k_steps() {
    let near = 0x1_4000_0000u64;
    assert_eq!(alloc_probe(near, 0), Some(near + 0x10000));
    assert_eq!(alloc_probe(near, 1), Some(near - 0x10000));
    assert_eq!(alloc_probe(near, 2), Some(near + 0x20000));
    assert_eq!(alloc_probe(near, 3), Some(near - 0x20000));
    // the last offset below the rel32 range is 0x7FFF0000
    assert_eq!(alloc_probe(near, 65532), Some(near + 0x7FFF_0000));
    assert_eq!(alloc_probe(near, 65533), Some(near - 0x7FFF_0000));
    assert_eq!(alloc_probe(near, 65534), None);
    assert_eq!(alloc_probe(near, u64::MAX), None);
    // saturation at the ends of the address space
    assert_eq!(alloc_probe(0x8000, 1), Some(0));
    assert_eq!(alloc_probe(u64::MAX - 5, 0), Some(u64::MAX));
}

#[test]
fn near_search_steps() {
    let near = 0x1_4000_0000u64;
    assert!(matches!(near_probe(near, 0), NearProbe::Try(a) if a == near + 0x10000));
    assert!(matches!(near_probe(near, ALLOC_PROBE_COUNT - 1), NearProbe::Try(_)));
    assert!(matches!(near_probe(near, ALLOC_PROBE_COUNT), NearProbe::Fallback));
    // below the user range: skipped
    assert!(matches!(near_probe(0x18000, 1), NearProbe::Skip));
    assert!(matches!(near_probe(0x18000, 0), NearProbe::Try(0x28000)));
    assert!(matches!(near_verdict(near, near + 0x7FFF_0000), NearVerdict::Accept));
    assert!(matches!(near_verdict(near, near - 0x7FFF_FFFE), NearVerdict::Accept));
    assert!(matches!(near_verdict(near, near + 0x7FFF_FFFF), NearVerdict::Release));
    assert!(matches!(near_verdict(near, 0x7FF0_0000_0000), NearVerdict::Release));
}

#[test]
fn names_match_ignoring_ascii_case() {
    assert!(names_match("CrimsonDesert.exe", "crimsondesert.EXE"));
    assert!(names_match("", ""));
    assert!(!names_match("CrimsonDesert.exe", "CrimsonDesert.ex"));
    assert!(!names_match("CrimsonDesert.exe", "CrimsonDesert_exe"));
    // only ASCII letters fold
    assert!(!names_match("É", "é"));
    assert!(!names_match("@", "`"));
    assert_eq!(names_match("[x]", "{X}"), "[x]".eq_ignore_ascii_case("{X}"));
}
