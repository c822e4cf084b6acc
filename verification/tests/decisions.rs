use crimson_desert_tomtom::app::{
    decode_block, decode_world_offset, scan_chunks, AttachOutcome, AttachState, AttachStep,
    MarkerTracker, TickStep, ATTACH_RETRY_TICKS, BLOCK_READ_SIZE, MAX_ATTACH_ATTEMPTS, SCAN_CHUNK_SIZE,
    SCAN_LIMIT,
};
use crimson_desert_tomtom::overlay::{fix_alpha, OverlayVisibility, VisibilityInput};

#[test]
fn first_tick_attempts_then_waits_a_period() {
    let mut s = AttachState::new();
    assert!(matches!(s.poll_unattached(), AttachStep::Attempt));
    s.record_attach(AttachOutcome::Failed { pattern_missing: false });
    assert_eq!(s.attach_failure_count(), 1);
    for _ in 0..ATTACH_RETRY_TICKS - 1 {
        assert!(matches!(s.poll_unattached(), AttachStep::Wait));
    }
    assert!(matches!(s.poll_unattached(), AttachStep::Attempt));
}

#[test]
fn gives_up_after_max_failures_until_reconnect() {
    let mut s = AttachState::new();
    let mut attempts = 0;
    loop {
        match s.poll_unattached() {
            AttachStep::Attempt => {
                attempts += 1;
                s.record_attach(AttachOutcome::Failed { pattern_missing: false });
            }
            AttachStep::GiveUp => break,
            AttachStep::Wait => {}
        }
    }
    assert_eq!(attempts, MAX_ATTACH_ATTEMPTS);
    assert!(!s.running());
    s.reconnect();
    assert!(s.running());
    assert_eq!(s.attach_failure_count(), 0);
    assert!(matches!(s.poll_unattached(), AttachStep::Attempt));
}

#[test]
fn missing_pattern_stops_and_success_resets() {
    let mut s = AttachState::new();
    assert!(matches!(s.poll_unattached(), AttachStep::Attempt));
    s.record_attach(AttachOutcome::Failed { pattern_missing: true });
    assert!(!s.running());

    let mut s = AttachState::new();
    assert!(matches!(s.poll_unattached(), AttachStep::Attempt));
    s.record_attach(AttachOutcome::Failed { pattern_missing: false });
    for _ in 0..ATTACH_RETRY_TICKS - 1 {
        s.poll_unattached();
    }
    assert!(matches!(s.poll_unattached(), AttachStep::Attempt));
    s.record_attach(AttachOutcome::Attached);
    assert_eq!(s.attach_failure_count(), 0);
    assert_eq!(s.attach_retries(), 0);
    s.stop();
    assert!(!s.running());
}

#[test]
fn last_set_marker_wins() {
    let mut t = MarkerTracker::new();
    // manual marker over no game marker stays
    assert!(t.update(None, Some((10, 0, 10))));
    // a new game marker replaces the manual one
    assert!(!t.update(Some((100, 5, 100)), Some((10, 0, 10))));
    // the same game marker lets a newly set manual marker stand
    assert!(t.update(Some((100, 5, 100)), Some((10, 0, 10))));
    // a moved game marker replaces it again
    assert!(!t.update(Some((101, 5, 100)), Some((10, 0, 10))));
    // clearing the game marker keeps a manual marker elsewhere
    assert!(t.update(None, Some((10, 0, 10))));
    // clearing a game marker that the manual one shadowed clears the manual one
    let mut t = MarkerTracker::new();
    t.update(Some((50, 1, -50)), None);
    assert!(!t.update(None, Some((51, 0, -49))));
    // no manual marker: nothing to keep
    assert!(!t.update(None, None));
}

#[test]
fn block_decoding_reads_layout() {
    let mut buf = vec![0u8; BLOCK_READ_SIZE];
    buf[0..4].copy_from_slice(&1.5f32.to_bits().to_le_bytes());
    buf[0x20..0x24].copy_from_slice(&7u32.to_le_bytes());
    buf[0x24..0x28].copy_from_slice(&8u32.to_le_bytes());
    buf[0x28..0x2C].copy_from_slice(&9u32.to_le_bytes());
    buf[0x2C..0x30].copy_from_slice(&1u32.to_le_bytes());
    buf[0x70..0x74].copy_from_slice(&90.0f32.to_bits().to_le_bytes());
    let r = decode_block(&buf);
    assert_eq!(r.player_pos, Some((1.5f32.to_bits(), 0, 0)));
    assert_eq!(r.marker, Some((7, 8, 9, 1)));
    assert_eq!(f32::from_bits(r.camera_heading), 90.0);

    // all-zero position (including -0.0) and a cleared flag read as absent
    let mut z = vec![0u8; BLOCK_READ_SIZE];
    z[4..8].copy_from_slice(&(-0.0f32).to_bits().to_le_bytes());
    z[0x2C..0x30].copy_from_slice(&2u32.to_le_bytes());
    let r = decode_block(&z);
    assert_eq!(r.player_pos, None);
    assert_eq!(r.marker, None);

    let mut w = vec![0u8; 16];
    w[4..8].copy_from_slice(&3u32.to_le_bytes());
    assert_eq!(decode_world_offset(&w), (0, 3, 0));
}

#[test]
fn scan_reads_cover_the_prefix() {
    let c = scan_chunks(12 * 1024 * 1024);
    assert_eq!(c, vec![(0, SCAN_CHUNK_SIZE), (SCAN_CHUNK_SIZE as u64, SCAN_CHUNK_SIZE), (2 * SCAN_CHUNK_SIZE as u64, 2 * 1024 * 1024)]);
    let big = scan_chunks(1 << 40);
    assert_eq!(big.len(), SCAN_LIMIT / SCAN_CHUNK_SIZE);
    assert_eq!(big.last().map(|(o, l)| *o as usize + *l), Some(SCAN_LIMIT));
    assert!(scan_chunks(0).is_empty());
}

fn input(visible: bool, below: bool, sticky: bool, elapsed: u32) -> VisibilityInput {
    VisibilityInput {
        visible,
        below_threshold: below,
        sticky_hide: sticky,
        hide_on_inactive: true,
        inactive_ms: 1200,
        elapsed_ms: elapsed,
    }
}

#[test]
fn overlay_hide_rules() {
    let mut v = OverlayVisibility::new();
    v.evaluate(&input(true, false, true, 0));
    assert!(!v.is_hidden);
    // below the threshold: hidden, and sticky
    v.evaluate(&input(true, true, true, 0));
    assert!(v.is_hidden && v.sticky_hidden);
    // moving away again keeps it hidden until the marker changes
    v.evaluate(&input(true, false, true, 0));
    assert!(v.is_hidden);
    v.reset_sticky();
    v.evaluate(&input(true, false, true, 0));
    assert!(!v.is_hidden);
    // inactivity hides
    v.evaluate(&input(true, false, true, 1200));
    assert!(v.is_hidden);
    // no navigation data: shown (nothing drawn)
    v.evaluate(&input(false, true, true, 5000));
    assert!(!v.is_hidden);
    // non-sticky: shows again as soon as it is back above the threshold
    let mut n = OverlayVisibility::new();
    n.evaluate(&input(true, true, false, 0));
    assert!(n.is_hidden && !n.sticky_hidden);
    n.evaluate(&input(true, false, false, 0));
    assert!(!n.is_hidden);
}

#[test]
fn alpha_fix_makes_colours_opaque_and_keeps_black() {
    let mut pixels = vec![0x0000_0000u32, 0x0012_3456, 0x0000_0001, 0x00FF_FFFF, 0x7F00_0000, 0x7F00_00A0];
    fix_alpha(&mut pixels);
    assert_eq!(
        pixels,
        vec![0x0000_0000u32, 0xFF12_3456, 0xFF00_0001, 0xFFFF_FFFF, 0x7F00_0000, 0xFF00_00A0]
    );
    let mut empty: Vec<u32> = Vec::new();
    fix_alpha(&mut empty);
    assert!(empty.is_empty());
}

#[test]
fn sticky_hide_survives_a_frame_without_data() {
    let mut v = OverlayVisibility::new();
    v.evaluate(&input(true, true, true, 0));
    assert!(v.is_hidden && v.sticky_hidden);
    // no navigation data for a frame: shown, but the sticky hide stays pending
    v.evaluate(&input(false, false, true, 0));
    assert!(!v.is_hidden && v.sticky_hidden);
    // data again, above the threshold, marker unchanged: hidden again
    v.evaluate(&input(true, false, true, 0));
    assert!(v.is_hidden && v.sticky_hidden);
    // the marker changes: shown
    v.reset_sticky();
    v.evaluate(&input(true, false, true, 0));
    assert!(!v.is_hidden);
}

#[test]
fn tick_steps_gate_on_running_and_attachment() {
    let mut s = AttachState::new();
    assert!(matches!(s.tick_step(true), TickStep::Service));
    assert!(matches!(s.tick_step(false), TickStep::Attach(AttachStep::Attempt)));
    assert!(matches!(s.tick_step(false), TickStep::Attach(AttachStep::Wait)));
    s.stop();
    assert!(matches!(s.tick_step(false), TickStep::Stopped));
    assert!(matches!(s.tick_step(true), TickStep::Stopped));
    assert_eq!(s.attach_retries(), 1);
    s.reconnect();
    assert!(matches!(s.tick_step(false), TickStep::Attach(AttachStep::Attempt)));
}
