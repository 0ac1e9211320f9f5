use periphery_dashboard::display::{
    bytes_to_color, Display, DisplayError, PanelRequest, PixelPayload, TriColor,
};

fn payload_from(bytes: Vec<u8>) -> PixelPayload {
    PixelPayload::new(bytes).expect("payload must be 32 bytes")
}

/// A stand-in for the physical panel: performs a request sequence the way
/// the panel driver would, showing white after a clear and the handed
/// frame after an update.
fn run_requests(panel: &mut Vec<TriColor>, requests: &[PanelRequest], frame: &Vec<TriColor>) {
    for r in requests {
        match r {
            PanelRequest::ClearFrame => {
                *panel = vec![TriColor::White; 800 * 480];
            }
            PanelRequest::UpdateAndDisplayFrame => {
                *panel = frame.clone();
            }
            _ => {}
        }
    }
}

#[test]
fn decode_returns_128_values_deterministically() {
    let p = payload_from(vec![0u8; 32]);
    let a = bytes_to_color(&p);
    let b = bytes_to_color(&p);
    assert_eq!(a.len(), 128);
    assert_eq!(b.len(), 128);
    assert_eq!(a, b);
}

#[test]
fn decode_zero_bytes_is_all_black() {
    let p = payload_from(vec![0u8; 32]);
    let colors = bytes_to_color(&p);
    assert!(colors.iter().all(|c| *c == TriColor::Black));
}

#[test]
fn decode_bit_rules_and_lsb_first_order() {
    let mut bytes = vec![0u8; 32];
    // Pixel 0: black bit 1, color bit 0 -> Chromatic.
    bytes[0] = 0b0000_0001;
    // Pixel 1: black bit 0 -> Black (bit 1 of byte 0 is clear).
    // Pixel 9 lives in the second byte pair, bit 1: both bits 1 -> no-op,
    // decoded placeholder is White.
    bytes[2] = 0b0000_0010;
    bytes[3] = 0b0000_0010;
    let colors = bytes_to_color(&payload_from(bytes));
    assert_eq!(colors[0], TriColor::Chromatic);
    assert_eq!(colors[1], TriColor::Black);
    assert_eq!(colors[8], TriColor::Black);
    assert_eq!(colors[9], TriColor::White);
}

#[test]
fn payload_must_be_exactly_32_bytes() {
    assert!(PixelPayload::new(vec![0u8; 31]).is_none());
    assert!(PixelPayload::new(vec![0u8; 33]).is_none());
    assert!(PixelPayload::new(vec![0u8; 0]).is_none());
    assert!(PixelPayload::new(vec![0u8; 32]).is_some());
}

#[test]
fn new_display_is_white_awake_and_asks_for_bringup() {
    let (d, requests) = Display::new();
    assert!(!d.asleep());
    assert_eq!(
        requests,
        vec![PanelRequest::Init, PanelRequest::ClearFrame]
    );
    assert_eq!(d.pixel(0, 0), TriColor::White);
    assert_eq!(d.pixel(799, 479), TriColor::White);
}

#[test]
fn apply_zero_payload_at_cursor_zero_fills_first_run_black() {
    let (mut d, _) = Display::new();
    let r = d.write_to_buffer(&payload_from(vec![0u8; 32]), 0);
    assert!(r.is_ok());
    for x in 0..128 {
        assert_eq!(d.pixel(x, 0), TriColor::Black);
    }
    assert_eq!(d.pixel(128, 0), TriColor::White);
    assert_eq!(d.pixel(0, 1), TriColor::White);
}

#[test]
fn apply_all_ones_payload_changes_nothing() {
    let (mut d, _) = Display::new();
    d.write_to_buffer(&payload_from(vec![0u8; 32]), 5).unwrap();
    let before = d.frame().clone();
    d.write_to_buffer(&payload_from(vec![0xFFu8; 32]), 5).unwrap();
    assert_eq!(*d.frame(), before);
    // Also over untouched white cells.
    d.write_to_buffer(&payload_from(vec![0xFFu8; 32]), 0).unwrap();
    assert_eq!(d.pixel(0, 0), TriColor::White);
}

#[test]
fn single_row_run_is_contiguous() {
    // Cursor 2: offset 256, column 256 of row 0, no wrap.
    let (mut d, _) = Display::new();
    d.write_to_buffer(&payload_from(vec![0u8; 32]), 2).unwrap();
    assert_eq!(d.pixel(255, 0), TriColor::White);
    for x in 256..384 {
        assert_eq!(d.pixel(x, 0), TriColor::Black);
    }
    assert_eq!(d.pixel(384, 0), TriColor::White);
    assert_eq!(d.pixel(0, 1), TriColor::White);
}

#[test]
fn wrapping_run_splits_keeping_order() {
    // Cursor 12: offset 1536 = row 1, column 736; 64 pixels finish row 1
    // and 64 pixels start row 2. First 64 pixels Black, last 64 Chromatic.
    let mut bytes = vec![0u8; 32];
    for i in 16..32 {
        if i % 2 == 0 {
            bytes[i] = 0xFF; // black bit 1, color bit 0 -> Chromatic
        }
    }
    let (mut d, _) = Display::new();
    d.write_to_buffer(&payload_from(bytes), 12).unwrap();
    assert_eq!(d.pixel(735, 1), TriColor::White);
    for x in 736..800 {
        assert_eq!(d.pixel(x, 1), TriColor::Black);
    }
    for x in 0..64 {
        assert_eq!(d.pixel(x, 2), TriColor::Chromatic);
    }
    assert_eq!(d.pixel(64, 2), TriColor::White);
}

#[test]
fn clear_leaves_buffer_white_and_panel_awake() {
    let (mut d, _) = Display::new();
    d.write_to_buffer(&payload_from(vec![0u8; 32]), 0).unwrap();
    let sleep_requests = d.sleep();
    assert_eq!(sleep_requests, vec![PanelRequest::Sleep]);
    assert!(d.asleep());
    let requests = d.clear();
    assert_eq!(
        requests,
        vec![
            PanelRequest::WakeUp,
            PanelRequest::ClearFrame,
            PanelRequest::WaitUntilIdle,
        ]
    );
    assert!(!d.asleep());
    assert_eq!(d.pixel(0, 0), TriColor::White);
    assert_eq!(d.pixel(127, 0), TriColor::White);
    assert_eq!(d.pixel(799, 479), TriColor::White);
    // Already awake: no wake request.
    let again = d.clear();
    assert_eq!(
        again,
        vec![PanelRequest::ClearFrame, PanelRequest::WaitUntilIdle]
    );
}

#[test]
fn only_flush_requests_mutate_the_panel() {
    let (mut d, bringup) = Display::new();
    let mut panel: Vec<TriColor> = vec![TriColor::Chromatic; 800 * 480];
    run_requests(&mut panel, &bringup, d.frame());
    assert!(panel.iter().all(|c| *c == TriColor::White));

    // Compositing emits no panel request at all: the panel cannot change.
    d.write_to_buffer(&payload_from(vec![0u8; 32]), 0).unwrap();
    assert_eq!(panel[0], TriColor::White);
    assert_ne!(panel[0], d.frame()[0]);

    // Flushing is the one path that refreshes the panel.
    let requests = d.display_buffer();
    assert_eq!(
        requests,
        vec![
            PanelRequest::UpdateAndDisplayFrame,
            PanelRequest::WaitUntilIdle,
        ]
    );
    run_requests(&mut panel, &requests, d.frame());
    assert_eq!(panel, *d.frame());
    assert_eq!(panel[0], TriColor::Black);
}

#[test]
fn flush_wakes_a_sleeping_panel_first() {
    let (mut d, _) = Display::new();
    d.sleep();
    let requests = d.display_buffer();
    assert_eq!(
        requests,
        vec![
            PanelRequest::WakeUp,
            PanelRequest::UpdateAndDisplayFrame,
            PanelRequest::WaitUntilIdle,
        ]
    );
    assert!(!d.asleep());
}

#[test]
fn out_of_range_cursor_is_rejected_unchanged() {
    let (mut d, _) = Display::new();
    let r = d.write_to_buffer(&payload_from(vec![0u8; 32]), 3000);
    assert_eq!(r, Err(DisplayError::CursorOutOfRange));
    assert_eq!(d.pixel(0, 0), TriColor::White);
    // The last in-range cursor targets the end of the last row.
    let r = d.write_to_buffer(&payload_from(vec![0u8; 32]), 2999);
    assert!(r.is_ok());
    assert_eq!(d.pixel(799, 479), TriColor::Black);
    assert_eq!(d.pixel(672, 479), TriColor::Black);
    assert_eq!(d.pixel(671, 479), TriColor::White);
}
