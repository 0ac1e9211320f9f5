//! The BLE peripheral session: advertisement encoding and the
//! advertise / connect / serve-events / disconnect lifecycle.

use vstd::prelude::*;

use crate::bluetooth::profile::{
    dashboard_uuid, settings_uuid, spec_dashboard_uuid, spec_settings_uuid, spec_resolve,
    CharacteristicId, Server,
};
use crate::display::{applied, Display, DisplayError, PixelPayload, CURSOR_LIMIT, PAYLOAD_BYTES};

verus! {

/// Size limit of the encoded advertising payload, in bytes.
pub const ADV_DATA_LIMIT: usize = 63;

/// Fixed backoff after a failed advertising attempt, in milliseconds.
pub const ADV_BACKOFF_MS: u64 = 5000;

/// Advertising-data flags byte: LE general discoverable, BR/EDR not supported.
pub const ADV_FLAGS: u8 = 0x06;

/// Advertising-data type byte of the flags structure.
pub const AD_TYPE_FLAGS: u8 = 0x01;

/// Advertising-data type byte of the complete local name structure.
pub const AD_TYPE_COMPLETE_NAME: u8 = 0x09;

/// Advertising-data type byte of the complete 128-bit service-id list.
pub const AD_TYPE_SERVICE_UUIDS_128: u8 = 0x07;

/// The device name the peripheral advertises: "Dashboard".
pub open spec fn spec_default_device_name() -> Seq<u8> {
    seq![0x44u8, 0x61, 0x73, 0x68, 0x62, 0x6f, 0x61, 0x72, 0x64]
}

/// The device name the peripheral advertises, as bytes.
pub fn default_device_name() -> (r: Vec<u8>)
    ensures
        r@ == spec_default_device_name(),
{
    let r: Vec<u8> = vec![0x44u8, 0x61, 0x73, 0x68, 0x62, 0x6f, 0x61, 0x72, 0x64];
    proof {
        assert(r@ =~= spec_default_device_name());
    }
    r
}

/// Encoded length of an advertisement that carries a name of `name_len`
/// bytes and `n_uuids` 128-bit service identifiers: a 3-byte flags
/// structure, then 2 header bytes plus the name, then 2 header bytes plus
/// 16 bytes for each identifier.
pub open spec fn spec_adv_len(name_len: nat, n_uuids: nat) -> int {
    3 + (2 + name_len) + (2 + 16 * n_uuids) as int
}

/// The service-identifier list flattened to wire bytes, in order.
pub open spec fn spec_uuid_bytes(uuids: Seq<Seq<u8>>) -> Seq<u8>
    decreases uuids.len(),
{
    if uuids.len() == 0 {
        Seq::empty()
    } else {
        spec_uuid_bytes(uuids.drop_last()) + uuids.last()
    }
}

/// The encoded advertisement: flags structure, complete-local-name
/// structure, then the complete 128-bit service-identifier list.
pub open spec fn spec_adv_data(name: Seq<u8>, uuids: Seq<Seq<u8>>) -> Seq<u8> {
    seq![2u8, AD_TYPE_FLAGS, ADV_FLAGS]
        + seq![(name.len() + 1) as u8, AD_TYPE_COMPLETE_NAME] + name
        + seq![(16 * uuids.len() + 1) as u8, AD_TYPE_SERVICE_UUIDS_128] + spec_uuid_bytes(uuids)
}

/// A list of 16-byte identifiers flattens to 16 bytes per entry.
pub proof fn lemma_uuid_bytes_len(uuids: Seq<Seq<u8>>)
    requires
        uuids_well_formed(uuids),
    ensures
        spec_uuid_bytes(uuids).len() == 16 * uuids.len(),
    decreases uuids.len(),
{
    if uuids.len() > 0 {
        assert(uuids_well_formed(uuids.drop_last())) by {
            assert(forall|i: int|
                0 <= i < uuids.drop_last().len() ==> #[trigger] uuids.drop_last()[i].len()
                    == 16) by {
                assert(forall|i: int|
                    0 <= i < uuids.drop_last().len() ==> uuids.drop_last()[i] == uuids[i]);
            }
        }
        lemma_uuid_bytes_len(uuids.drop_last());
    }
}

/// Advertising failures.
#[derive(Clone, Copy, PartialEq, Eq, Structural, Debug)]
pub enum AdvertiseError {
    /// The encoded payload would exceed `ADV_DATA_LIMIT` bytes.
    TooLarge,
}

/// Every identifier in the list is 16 bytes wide.
pub open spec fn uuids_well_formed(uuids: Seq<Seq<u8>>) -> bool {
    forall|i: int| 0 <= i < uuids.len() ==> #[trigger] uuids[i].len() == 16
}

/// Encodes the advertising payload: discoverability flags, the complete
/// device name, and the 128-bit identifiers of the advertised services.
/// Fails, and encodes nothing, exactly when the encoding would exceed
/// `ADV_DATA_LIMIT` bytes.
pub fn encode_adv_data(name: &Vec<u8>, uuids: &Vec<Vec<u8>>) -> (r: Result<
    Vec<u8>,
    AdvertiseError,
>)
    requires
        uuids_well_formed(Seq::new(uuids@.len(), |i: int| uuids@[i]@)),
    ensures
        r matches Ok(data) ==> {
            &&& spec_adv_len(name@.len(), uuids@.len()) <= ADV_DATA_LIMIT
            &&& data@ == spec_adv_data(name@, Seq::new(uuids@.len(), |i: int| uuids@[i]@))
            &&& data@.len() == spec_adv_len(name@.len(), uuids@.len())
        },
        r is Err <==> spec_adv_len(name@.len(), uuids@.len()) > ADV_DATA_LIMIT,
{
    let ghost uuid_views: Seq<Seq<u8>> = Seq::new(uuids@.len(), |i: int| uuids@[i]@);
    if name.len() > ADV_DATA_LIMIT || uuids.len() > ADV_DATA_LIMIT {
        return Err(AdvertiseError::TooLarge);
    }
    let total: usize = 3 + 2 + name.len() + 2 + 16 * uuids.len();
    if total > ADV_DATA_LIMIT {
        return Err(AdvertiseError::TooLarge);
    }
    let mut data: Vec<u8> = Vec::new();
    data.push(2);
    data.push(AD_TYPE_FLAGS);
    data.push(ADV_FLAGS);
    data.push((name.len() + 1) as u8);
    data.push(AD_TYPE_COMPLETE_NAME);
    let mut i: usize = 0;
    while i < name.len()
        invariant
            i <= name@.len(),
            name@.len() + 5 <= ADV_DATA_LIMIT,
            data@ == seq![2u8, AD_TYPE_FLAGS, ADV_FLAGS]
                + seq![(name@.len() + 1) as u8, AD_TYPE_COMPLETE_NAME] + name@.take(i as int),
        decreases name@.len() - i,
    {
        data.push(name[i]);
        proof {
            assert(name@.take(i + 1) =~= name@.take(i as int) + seq![name@[i as int]]);
        }
        i = i + 1;
    }
    proof {
        assert(name@.take(name@.len() as int) =~= name@);
    }
    data.push((16 * uuids.len() + 1) as u8);
    data.push(AD_TYPE_SERVICE_UUIDS_128);
    let ghost name_part: Seq<u8> = seq![2u8, AD_TYPE_FLAGS, ADV_FLAGS]
        + seq![(name@.len() + 1) as u8, AD_TYPE_COMPLETE_NAME] + name@
        + seq![(16 * uuids@.len() + 1) as u8, AD_TYPE_SERVICE_UUIDS_128];
    let mut u: usize = 0;
    while u < uuids.len()
        invariant
            u <= uuids@.len(),
            uuid_views == Seq::new(uuids@.len(), |i: int| uuids@[i]@),
            uuids_well_formed(uuid_views),
            data@ == name_part + spec_uuid_bytes(uuid_views.take(u as int)),
        decreases uuids@.len() - u,
    {
        let uuid = &uuids[u];
        let mut b: usize = 0;
        while b < uuid.len()
            invariant
                b <= uuid@.len(),
                uuid@ == uuids@[u as int]@,
                data@ == name_part + spec_uuid_bytes(uuid_views.take(u as int)) + uuid@.take(
                    b as int,
                ),
            decreases uuid@.len() - b,
        {
            data.push(uuid[b]);
            proof {
                assert(uuid@.take(b + 1) =~= uuid@.take(b as int) + seq![uuid@[b as int]]);
                assert(data@ =~= name_part + spec_uuid_bytes(uuid_views.take(u as int))
                    + uuid@.take(b + 1));
            }
            b = b + 1;
        }
        proof {
            let taken = uuid_views.take(u + 1);
            assert(taken.drop_last() =~= uuid_views.take(u as int));
            assert(taken.last() == uuid_views[u as int]);
            assert(uuid@.take(uuid@.len() as int) =~= uuid@);
            assert(uuid_views[u as int] == uuids@[u as int]@);
            assert(data@ =~= name_part + spec_uuid_bytes(uuid_views.take(u + 1)));
        }
        u = u + 1;
    }
    proof {
        assert(uuid_views.take(uuid_views.len() as int) =~= uuid_views);
        assert(data@ =~= spec_adv_data(name@, uuid_views));
        lemma_uuid_bytes_len(uuid_views);
    }
    Ok(data)
}

// ---------------------------------------------------------------------------
// Connection lifecycle
// ---------------------------------------------------------------------------

/// The connection lifecycle of the peripheral. The session starts
/// Advertising, serves one connection at a time, and returns to
/// Advertising after every disconnect; there is no terminal state.
#[derive(Clone, Copy, PartialEq, Eq, Structural, Debug)]
pub enum SessionState {
    Advertising,
    Connected,
}

/// One event delivered by the BLE host stack while a connection is live.
pub enum LinkEvent {
    /// The link reported disconnection, with the link layer's reason code.
    Disconnected { reason: u8 },
    /// A GATT read of the attribute at `handle`.
    GattRead { handle: u16 },
    /// A GATT write of `data` to the attribute at `handle`.
    GattWrite { handle: u16, data: Vec<u8> },
    /// Any other connection event: a forward-compatible no-op.
    Other,
}

/// What the event handler decides to do with one GATT event. Every
/// decision is followed by the protocol-level acknowledgment: the driver
/// must send the reply before it takes the next event.
#[derive(Clone, Copy, PartialEq, Eq, Structural, Debug)]
pub enum GattAction {
    /// A read of the `ready` characteristic: log the value, no side effect.
    LogReadyValue,
    /// A 32-byte write to `write_buffer`: forward it to the compositor.
    ApplyPayload,
    /// A write to `write_buffer` of any other length: a protocol
    /// violation, rejected and logged.
    RejectPayload,
    /// Anything else: acknowledge and move on.
    Ignore,
}

/// How the session answers one link event.
#[derive(Clone, Copy, PartialEq, Eq, Structural, Debug)]
pub enum EventOutcome {
    /// The connection ended: the session is advertising again.
    Disconnect { reason: u8 },
    /// A served event: act, then acknowledge.
    Respond { action: GattAction },
}

/// Outcome of one advertising attempt.
#[derive(Clone, Copy, PartialEq, Eq, Structural, Debug)]
pub enum AdvertiseOutcome {
    /// A central connected; the session now serves its events.
    Accepted,
    /// Advertising failed; wait `ms` milliseconds, then advertise again.
    Backoff { ms: u64 },
}

/// The decision for one GATT event: reads of `ready` are logged, 32-byte
/// writes to `write_buffer` feed the compositor, shorter or longer writes
/// to it are rejected, and everything else is acknowledged untouched.
pub open spec fn spec_gatt_action(server: Server, event: LinkEvent) -> GattAction {
    match event {
        LinkEvent::GattRead { handle } => {
            if spec_resolve(server, handle) == Some(CharacteristicId::Ready) {
                GattAction::LogReadyValue
            } else {
                GattAction::Ignore
            }
        },
        LinkEvent::GattWrite { handle, data } => {
            if spec_resolve(server, handle) == Some(CharacteristicId::WriteBuffer) {
                if data@.len() == PAYLOAD_BYTES {
                    GattAction::ApplyPayload
                } else {
                    GattAction::RejectPayload
                }
            } else {
                GattAction::Ignore
            }
        },
        LinkEvent::Disconnected { .. } => GattAction::Ignore,
        LinkEvent::Other => GattAction::Ignore,
    }
}

/// The advertisement this peripheral encodes: discoverability flags, its
/// device name, and the identifiers of the Dashboard and Settings
/// services.
pub open spec fn spec_session_adv_data(name: Seq<u8>) -> Seq<u8> {
    spec_adv_data(name, seq![spec_dashboard_uuid(), spec_settings_uuid()])
}

/// The BLE peripheral session: the lifecycle state, the attribute table
/// bound to the served connection, and the advertised device name.
pub struct PeripheralSession {
    state: SessionState,
    server: Server,
    name: Vec<u8>,
}

impl PeripheralSession {
    /// Where the session stands in the advertise/connect lifecycle.
    pub closed spec fn state(&self) -> SessionState {
        self.state
    }

    /// The attribute table the session serves.
    pub closed spec fn server(&self) -> Server {
        self.server
    }

    /// The advertised device name.
    pub closed spec fn name(&self) -> Seq<u8> {
        self.name@
    }

    /// The attribute table addresses distinct attributes.
    pub open spec fn well_formed(&self) -> bool {
        self.server().well_formed()
    }

    /// Where the session stands, for the driving loop.
    pub fn current_state(&self) -> (s: SessionState)
        ensures
            s == self.state(),
    {
        self.state
    }

    /// A fresh session: advertising, with the given attribute table and
    /// device name.
    pub fn new(server: Server, name: Vec<u8>) -> (s: PeripheralSession)
        ensures
            s.state() == SessionState::Advertising,
            s.server() == server,
            s.name() == name@,
    {
        PeripheralSession { state: SessionState::Advertising, server, name }
    }

    /// Encodes this session's advertisement. Fails exactly when flags,
    /// name and the two service identifiers would exceed the size limit;
    /// the session is free to retry after the backoff.
    pub fn advertise_data(&self) -> (r: Result<Vec<u8>, AdvertiseError>)
        ensures
            r matches Ok(data) ==> data@ == spec_session_adv_data(self.name()) && data@.len()
                <= ADV_DATA_LIMIT,
            r is Err <==> spec_adv_len(self.name().len(), 2) > ADV_DATA_LIMIT,
    {
        let mut uuids: Vec<Vec<u8>> = Vec::new();
        uuids.push(dashboard_uuid());
        uuids.push(settings_uuid());
        let ghost uuid_views: Seq<Seq<u8>> = Seq::new(uuids@.len(), |i: int| uuids@[i]@);
        proof {
            assert(uuid_views =~= seq![spec_dashboard_uuid(), spec_settings_uuid()]);
        }
        encode_adv_data(&self.name, &uuids)
    }

    /// Takes the outcome of one advertising attempt. An accepted
    /// connection moves the session to Connected; a failure leaves it
    /// Advertising and tells the driver to wait the fixed backoff before
    /// the next attempt. The profile is never changed.
    pub fn on_advertise_result(&mut self, connected: bool) -> (r: AdvertiseOutcome)
        requires
            old(self).state() == SessionState::Advertising,
        ensures
            final(self).server() == old(self).server(),
            final(self).name() == old(self).name(),
            connected ==> final(self).state() == SessionState::Connected && r
                == AdvertiseOutcome::Accepted,
            !connected ==> final(self).state() == SessionState::Advertising && r
                == (AdvertiseOutcome::Backoff { ms: ADV_BACKOFF_MS }),
    {
        if connected {
            self.state = SessionState::Connected;
            AdvertiseOutcome::Accepted
        } else {
            AdvertiseOutcome::Backoff { ms: ADV_BACKOFF_MS }
        }
    }

    /// Serves one link event of the live connection. A disconnect, for
    /// any reason, puts the session back to Advertising with its profile
    /// intact; every other event leaves the session as it is and yields
    /// the decision of `spec_gatt_action`, to be acted on and then
    /// acknowledged.
    pub fn on_event(&mut self, event: &LinkEvent) -> (r: EventOutcome)
        requires
            old(self).state() == SessionState::Connected,
        ensures
            final(self).server() == old(self).server(),
            final(self).name() == old(self).name(),
            (*event) matches LinkEvent::Disconnected { reason } ==> final(self).state()
                == SessionState::Advertising && r == (EventOutcome::Disconnect { reason }),
            !((*event) is Disconnected) ==> *final(self) == *old(self) && final(self).state()
                == SessionState::Connected && r == (EventOutcome::Respond {
                action: spec_gatt_action(old(self).server(), *event),
            }),
    {
        match event {
            LinkEvent::Disconnected { reason } => {
                self.state = SessionState::Advertising;
                EventOutcome::Disconnect { reason: *reason }
            },
            LinkEvent::GattRead { handle } => {
                let action = match self.server.resolve(*handle) {
                    Some(CharacteristicId::Ready) => GattAction::LogReadyValue,
                    _ => GattAction::Ignore,
                };
                EventOutcome::Respond { action }
            },
            LinkEvent::GattWrite { handle, data } => {
                let action = match self.server.resolve(*handle) {
                    Some(CharacteristicId::WriteBuffer) => {
                        if data.len() == PAYLOAD_BYTES {
                            GattAction::ApplyPayload
                        } else {
                            GattAction::RejectPayload
                        }
                    },
                    _ => GattAction::Ignore,
                };
                EventOutcome::Respond { action }
            },
            LinkEvent::Other => EventOutcome::Respond { action: GattAction::Ignore },
        }
    }
}

/// Errors of the write-buffer path.
#[derive(Clone, Copy, PartialEq, Eq, Structural, Debug)]
pub enum WriteError {
    /// The written value is not exactly 32 bytes: a protocol violation.
    WrongLength,
    /// The cursor would place part of the run past the last row.
    CursorOutOfRange,
}

/// Forwards the bytes of a write event to the frame compositor at the
/// externally tracked cursor. Succeeds exactly on a 32-byte payload and
/// an in-range cursor; on any error the frame buffer is untouched. No
/// panel request is issued on any path: serving writes never refreshes
/// the panel.
pub fn forward_payload(display: &mut Display, data: Vec<u8>, cursor: u32) -> (r: Result<
    (),
    WriteError,
>)
    requires
        old(display).well_formed(),
    ensures
        final(display).well_formed(),
        final(display).is_sleeping() == old(display).is_sleeping(),
        r is Ok <==> data@.len() == PAYLOAD_BYTES && cursor < CURSOR_LIMIT,
        r is Ok ==> applied(
            old(display).frame_view(),
            final(display).frame_view(),
            data@,
            cursor as int,
        ),
        data@.len() != PAYLOAD_BYTES ==> r == Err::<(), WriteError>(WriteError::WrongLength)
            && *final(display) == *old(display),
        data@.len() == PAYLOAD_BYTES && cursor >= CURSOR_LIMIT ==> r == Err::<(), WriteError>(
            WriteError::CursorOutOfRange,
        ) && *final(display) == *old(display),
{
    match PixelPayload::new(data) {
        Some(payload) => match display.write_to_buffer(&payload, cursor) {
            Ok(()) => Ok(()),
            Err(DisplayError::CursorOutOfRange) => Err(WriteError::CursorOutOfRange),
        },
        None => Err(WriteError::WrongLength),
    }
}

/// After a connected session ends, for any reason, the session is
/// advertising again with its profile intact, so the next advertisement
/// is encoded byte for byte as before and a later accepted connection
/// proceeds from the very same attribute table.
pub proof fn lemma_reconnect_uses_same_identity(
    before: PeripheralSession,
    after: PeripheralSession,
)
    requires
        before.state() == SessionState::Connected,
        after.state() == SessionState::Advertising,
        after.server() == before.server(),
        after.name() == before.name(),
    ensures
        spec_session_adv_data(after.name()) == spec_session_adv_data(before.name()),
        spec_adv_len(after.name().len(), 2) == spec_adv_len(before.name().len(), 2),
{
}

} // verus!
