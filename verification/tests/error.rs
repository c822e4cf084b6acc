use crimson_desert_tomtom::error::AppError;
use crimson_desert_tomtom::text::hex_upper;

#[test]
fn display_process_not_found() {
    let e = AppError::ProcessNotFound("CD.exe".to_string());
    assert_eq!(e.message(), "Process not found: CD.exe");
}

#[test]
fn display_pattern_not_found() {
    let e = AppError::PatternNotFound("entity".to_string());
    assert_eq!(e.message(), "AOB pattern not found: entity");
}

#[test]
fn display_rel_jmp_out_of_range_includes_hex_addresses() {
    let e = AppError::RelJmpOutOfRange { from: 0x400000, to: 0x90000000 };
    let msg = e.message();
    assert!(msg.contains("400000"), "from address missing: {msg}");
    assert!(msg.contains("90000000"), "to address missing: {msg}");
}

#[test]
fn display_hook_failed() {
    let e = AppError::HookFailed("trampoline write".to_string());
    assert_eq!(e.message(), "Hook installation failed: trampoline write");
}

#[test]
fn messages_match_display_format() {
    let e = AppError::RelJmpOutOfRange { from: 0x400000, to: 0xABCDEF12 };
    assert_eq!(e.message(), format!("Trampoline too far: from 0x{:X} to 0x{:X}", 0x400000, 0xABCDEF12u64));
    assert_eq!(AppError::FreeFailed("x".into()).message(), "Failed to free memory: x");
    assert_eq!(AppError::AllocFailed("y".into()).message(), "Failed to allocate memory: y");
    assert_eq!(
        AppError::InvalidHookConfig("z".into()).message(),
        "Invalid hook configuration: z"
    );
}

#[test]
fn hex_matches_std_formatting() {
    for x in [0u64, 9, 10, 15, 16, 255, 0x400000, 0xDEADBEEF, u64::MAX] {
        assert_eq!(hex_upper(x), format!("{:X}", x));
    }
}
