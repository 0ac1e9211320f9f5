use periphery_dashboard::bluetooth::peripheral::{
    default_device_name, encode_adv_data, forward_payload, AdvertiseError, AdvertiseOutcome,
    EventOutcome, GattAction, LinkEvent, PeripheralSession, SessionState, WriteError,
};
use periphery_dashboard::bluetooth::profile::{
    dashboard_uuid, settings_uuid, CharacteristicId, Server,
};
use periphery_dashboard::display::{Display, TriColor};

const WRITE_BUFFER_HANDLE: u16 = 0x0010;
const READY_HANDLE: u16 = 0x0012;
const STATUS_HANDLE: u16 = 0x0020;

fn test_server() -> Server {
    Server::new(WRITE_BUFFER_HANDLE, READY_HANDLE, STATUS_HANDLE).expect("distinct handles")
}

fn connected_session() -> PeripheralSession {
    let mut s = PeripheralSession::new(test_server(), default_device_name());
    assert_eq!(s.on_advertise_result(true), AdvertiseOutcome::Accepted);
    assert_eq!(s.current_state(), SessionState::Connected);
    s
}

#[test]
fn service_identifiers_have_expected_bytes() {
    let dashboard = dashboard_uuid();
    let settings = settings_uuid();
    // Little-endian encodings of the two 128-bit service identifiers.
    assert_eq!(
        dashboard,
        vec![
            0x79, 0xb1, 0x2f, 0xaa, 0x5a, 0x83, 0x8a, 0x9d, 0xa2, 0x48, 0xbf, 0x50, 0x00, 0x00,
            0x01, 0x00,
        ]
    );
    assert_eq!(
        settings,
        vec![
            0x79, 0xb1, 0x2f, 0xaa, 0x5a, 0x83, 0x8a, 0x9d, 0xa2, 0x48, 0xbf, 0x50, 0x00, 0x00,
            0x02, 0x00,
        ]
    );
}

#[test]
fn server_rejects_shared_handles() {
    assert!(Server::new(1, 1, 2).is_none());
    assert!(Server::new(1, 2, 1).is_none());
    assert!(Server::new(2, 1, 1).is_none());
    assert!(Server::new(1, 2, 3).is_some());
}

#[test]
fn resolve_is_a_fixed_table() {
    let s = test_server();
    assert_eq!(
        s.resolve(WRITE_BUFFER_HANDLE),
        Some(CharacteristicId::WriteBuffer)
    );
    assert_eq!(s.resolve(READY_HANDLE), Some(CharacteristicId::Ready));
    assert_eq!(s.resolve(STATUS_HANDLE), Some(CharacteristicId::Status));
    assert_eq!(s.resolve(0x7777), None);
}

#[test]
fn advertisement_encodes_flags_name_and_both_services() {
    let session = PeripheralSession::new(test_server(), default_device_name());
    let data = session.advertise_data().expect("fits the limit");
    let mut expected: Vec<u8> = vec![0x02, 0x01, 0x06];
    expected.extend_from_slice(&[0x0A, 0x09]);
    expected.extend_from_slice(b"Dashboard");
    expected.extend_from_slice(&[0x21, 0x07]);
    expected.extend_from_slice(&dashboard_uuid());
    expected.extend_from_slice(&settings_uuid());
    assert_eq!(data, expected);
    assert_eq!(data.len(), 48);
}

#[test]
fn advertisement_size_limit_is_exact() {
    // Flags (3) + name header (2) + name + list header (2) + 32 uuid
    // bytes: a 24-byte name reaches exactly 63, one more byte fails.
    let uuids = vec![dashboard_uuid(), settings_uuid()];
    let ok = encode_adv_data(&vec![0x41u8; 24], &uuids).expect("exactly at the limit");
    assert_eq!(ok.len(), 63);
    assert_eq!(
        encode_adv_data(&vec![0x41u8; 25], &uuids),
        Err(AdvertiseError::TooLarge)
    );
}

#[test]
fn oversized_advertisement_backs_off_and_retries() {
    let long_name = vec![0x41u8; 60];
    let mut session = PeripheralSession::new(test_server(), long_name);
    assert_eq!(session.advertise_data(), Err(AdvertiseError::TooLarge));
    // The session survives: it waits the fixed backoff and stays in
    // Advertising for the next attempt.
    let outcome = session.on_advertise_result(false);
    assert_eq!(outcome, AdvertiseOutcome::Backoff { ms: 5000 });
    assert_eq!(session.current_state(), SessionState::Advertising);
}

#[test]
fn disconnect_returns_to_advertising_with_same_identity() {
    let mut session = PeripheralSession::new(test_server(), default_device_name());
    let first = session.advertise_data().expect("fits");
    assert_eq!(session.on_advertise_result(true), AdvertiseOutcome::Accepted);
    assert_eq!(session.current_state(), SessionState::Connected);

    let outcome = session.on_event(&LinkEvent::Disconnected { reason: 0x13 });
    assert_eq!(outcome, EventOutcome::Disconnect { reason: 0x13 });
    assert_eq!(session.current_state(), SessionState::Advertising);

    // The next advertisement is byte-identical, and a new connection
    // attempt succeeds from the same state.
    let second = session.advertise_data().expect("fits");
    assert_eq!(first, second);
    assert_eq!(session.on_advertise_result(true), AdvertiseOutcome::Accepted);
    assert_eq!(session.current_state(), SessionState::Connected);
}

#[test]
fn gatt_events_are_classified_and_acknowledged() {
    let mut session = connected_session();
    assert_eq!(
        session.on_event(&LinkEvent::GattRead { handle: READY_HANDLE }),
        EventOutcome::Respond { action: GattAction::LogReadyValue }
    );
    assert_eq!(
        session.on_event(&LinkEvent::GattRead { handle: WRITE_BUFFER_HANDLE }),
        EventOutcome::Respond { action: GattAction::Ignore }
    );
    assert_eq!(
        session.on_event(&LinkEvent::GattWrite {
            handle: WRITE_BUFFER_HANDLE,
            data: vec![0u8; 32],
        }),
        EventOutcome::Respond { action: GattAction::ApplyPayload }
    );
    assert_eq!(
        session.on_event(&LinkEvent::GattWrite {
            handle: WRITE_BUFFER_HANDLE,
            data: vec![0u8; 31],
        }),
        EventOutcome::Respond { action: GattAction::RejectPayload }
    );
    assert_eq!(
        session.on_event(&LinkEvent::GattWrite { handle: STATUS_HANDLE, data: vec![1u8] }),
        EventOutcome::Respond { action: GattAction::Ignore }
    );
    assert_eq!(
        session.on_event(&LinkEvent::Other),
        EventOutcome::Respond { action: GattAction::Ignore }
    );
    // Serving events never leaves the Connected state.
    assert_eq!(session.current_state(), SessionState::Connected);
}

// The wire format carries no cursor in band: the driving loop keeps the
// cursor and hands it to `forward_payload` beside the written bytes. The
// driver in this crate holds it fixed (no auto-increment), so every write
// lands at the address the loop chose; the tests below pass the cursor
// explicitly for the same reason.
#[test]
fn forward_payload_validates_length_and_cursor() {
    let (mut d, _) = Display::new();
    assert_eq!(
        forward_payload(&mut d, vec![0u8; 31], 0),
        Err(WriteError::WrongLength)
    );
    assert_eq!(d.pixel(0, 0), TriColor::White);
    assert_eq!(
        forward_payload(&mut d, vec![0u8; 32], 3000),
        Err(WriteError::CursorOutOfRange)
    );
    assert_eq!(d.pixel(0, 0), TriColor::White);
    assert_eq!(forward_payload(&mut d, vec![0u8; 32], 0), Ok(()));
    assert_eq!(d.pixel(0, 0), TriColor::Black);
}

#[test]
fn written_payload_reaches_the_panel_only_after_flush() {
    let mut session = connected_session();
    let (mut d, _) = Display::new();
    let event = LinkEvent::GattWrite { handle: WRITE_BUFFER_HANDLE, data: vec![0u8; 32] };
    let outcome = session.on_event(&event);
    assert_eq!(
        outcome,
        EventOutcome::Respond { action: GattAction::ApplyPayload }
    );
    assert_eq!(forward_payload(&mut d, vec![0u8; 32], 0), Ok(()));
    assert_eq!(d.pixel(64, 0), TriColor::Black);
    let requests = d.display_buffer();
    assert_eq!(requests.len(), 2);
}
