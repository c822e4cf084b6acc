use crimson_desert_tomtom::error::AppError;
use crimson_desert_tomtom::scanner::{Pattern, ScanResults, Scanner};

#[test]
fn test_pattern_find_simple() {
    let data = b"hello world hello";
    let pattern = Pattern { name: "test", pattern: b"world", offset: 0 };
    let base = 0x400000;
    let result = Scanner::find_pattern(&pattern, data, base).unwrap();
    assert_eq!(result, base + 6);
}

#[test]
fn test_pattern_find_with_offset() {
    let data = b"XXXABC";
    let pattern = Pattern { name: "test", pattern: b"ABC", offset: 2 };
    let base = 0x400000;
    let result = Scanner::find_pattern(&pattern, data, base).unwrap();
    assert_eq!(result, base + 5); // pos 3 + offset 2
}

#[test]
fn test_pattern_not_found() {
    let data = b"hello world";
    let pattern = Pattern { name: "test", pattern: b"xyz", offset: 0 };
    let base = 0x400000;
    let result = Scanner::find_pattern(&pattern, data, base);
    assert!(result.is_err());
}

#[test]
fn test_world_offset_resolution() {
    let mut data = vec![0u8; 100];
    let pattern_offset = 10;
    data[pattern_offset..pattern_offset + 4].copy_from_slice(b"\xC5\xF8\x5C\x05");
    let rel32: i32 = 0x1000;
    let rel32_bytes = rel32.to_le_bytes();
    data[pattern_offset + 4..pattern_offset + 8].copy_from_slice(&rel32_bytes);

    let base = 0x400000;
    let result = Scanner::find_world_offset(&data, base).unwrap();
    assert_eq!(result, 0x401012);
}

fn put(data: &mut [u8], at: usize, bytes: &[u8]) {
    data[at..at + bytes.len()].copy_from_slice(bytes);
}

fn put_world(data: &mut [u8], at: usize, disp: i32) {
    put(data, at, b"\xC5\xF8\x5C\x05");
    put(data, at + 4, &disp.to_le_bytes());
}

#[test]
fn not_found_message_names_the_pattern() {
    let pattern = Pattern { name: "entity", pattern: b"\x01\x02", offset: 0 };
    match Scanner::find_pattern(&pattern, b"\x00\x01\x03", 0) {
        Err(AppError::PatternNotFound(msg)) => {
            assert_eq!(msg, "AOB pattern 'entity' not found in module");
        }
        _ => panic!("expected PatternNotFound"),
    }
}

#[test]
fn first_match_wins_and_at_end() {
    let pattern = Pattern { name: "t", pattern: b"ab", offset: 1 };
    assert_eq!(Scanner::find_pattern(&pattern, b"xxabab", 0x1000).unwrap(), 0x1003);
    assert_eq!(Scanner::find_pattern(&pattern, b"xab", 0x1000).unwrap(), 0x1002);
    assert_eq!(Scanner::find_in_range(b"abxab", b"ab", 1), Some(3));
    assert_eq!(Scanner::find_in_range(b"abxab", b"ab", 4), None);
}

#[test]
fn pattern_address_wraps() {
    let pattern = Pattern { name: "t", pattern: b"z", offset: 4 };
    assert_eq!(Scanner::find_pattern(&pattern, b"az", u64::MAX).unwrap(), 4);
}

#[test]
fn world_offset_picks_most_frequent_target() {
    let mut data = vec![0u8; 200];
    // two matches resolving to base + 0x1000, one to another target
    put_world(&mut data, 10, 0x1000 - 18);
    put_world(&mut data, 40, 0x1000 - 48);
    put_world(&mut data, 80, 0x5000);
    let base = 0x7FF6_0000_0000u64;
    assert_eq!(Scanner::find_world_offset(&data, base).unwrap(), base + 0x1000);
}

#[test]
fn world_offset_negative_displacement_and_edges() {
    // negative displacement
    let mut data = vec![0u8; 40];
    put_world(&mut data, 20, -0x20);
    assert_eq!(Scanner::find_world_offset(&data, 0x1000).unwrap(), 0x1000 + 20 + 8 - 0x20);
    // a match whose displacement runs past the end is ignored
    let mut short = vec![0u8; 12];
    put(&mut short, 6, b"\xC5\xF8\x5C\x05");
    assert!(matches!(Scanner::find_world_offset(&short, 0), Err(AppError::PatternNotFound(_))));
    // a match ending exactly at the end counts
    let mut exact = vec![0u8; 12];
    put_world(&mut exact, 4, 0);
    assert_eq!(Scanner::find_world_offset(&exact, 0).unwrap(), 12);
    // eight bytes holding one whole match resolve it
    let mut tiny = vec![0u8; 8];
    put_world(&mut tiny, 0, 0);
    assert_eq!(Scanner::find_world_offset(&tiny, 0).unwrap(), 8);
    // fewer than eight bytes cannot hold a match with its rel32
    let mut seven = vec![0u8; 7];
    put(&mut seven, 0, b"\xC5\xF8\x5C\x05");
    assert!(Scanner::find_world_offset(&seven, 0).is_err());
}

#[test]
fn world_offset_on_exactly_eight_bytes() {
    let data = vec![0xC5u8, 0xF8, 0x5C, 0x05, 0x10, 0, 0, 0];
    assert_eq!(Scanner::find_world_offset(&data, 0x400000).unwrap(), 0x400018);
}

#[test]
fn scan_finds_all_patterns() {
    let mut data = vec![0u8; 256];
    put(&mut data, 10, b"\x48\x8B\x06\xC5\xF8\x11\x88\xB0\x01\x00\x00");
    put(&mut data, 40, b"\x0F\x11\x99\x90\x00\x00\x00");
    put(&mut data, 60, b"\xC5\xFB\x10\x07\xC5\xFB\x11\x02\x8B\x47\x08\x89\x42\x08");
    put(&mut data, 100, b"\xC4\xC1\x7A\x11\x97\xA4\x04\x00\x00\xC5\x78\x2F\xCE");
    put_world(&mut data, 150, 0x100);
    let base = 0x1_4000_0000u64;
    let r: ScanResults = Scanner::scan(&data, base).unwrap();
    assert_eq!(r.entity, base + 13);
    assert_eq!(r.position, base + 40);
    assert_eq!(r.map, base + 64);
    assert_eq!(r.camera, base + 100);
    assert_eq!(r.world_offset, base + 158 + 0x100);
    assert!(r.is_valid());

    // without the camera pattern the scan fails
    let mut no_cam = data.clone();
    put(&mut no_cam, 100, &[0u8; 13]);
    assert!(matches!(Scanner::scan(&no_cam, base), Err(AppError::PatternNotFound(_))));
}

#[test]
fn zero_address_is_invalid() {
    let r = ScanResults { entity: 1, position: 2, map: 0, camera: 4, world_offset: 5 };
    assert!(!r.is_valid());
}
