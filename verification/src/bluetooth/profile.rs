//! The GATT attribute model: two services with fixed 128-bit identifiers,
//! and the table that resolves an attribute handle seen on the wire to the
//! logical characteristic it addresses.

use vstd::prelude::*;

verus! {

/// The Dashboard service's 128-bit identifier, in little-endian byte order.
pub open spec fn spec_dashboard_uuid() -> Seq<u8> {
    seq![
        0x79u8, 0xb1, 0x2f, 0xaa, 0x5a, 0x83, 0x8a, 0x9d,
        0xa2, 0x48, 0xbf, 0x50, 0x00, 0x00, 0x01, 0x00,
    ]
}

/// The Settings service's 128-bit identifier, in little-endian byte order.
pub open spec fn spec_settings_uuid() -> Seq<u8> {
    seq![
        0x79u8, 0xb1, 0x2f, 0xaa, 0x5a, 0x83, 0x8a, 0x9d,
        0xa2, 0x48, 0xbf, 0x50, 0x00, 0x00, 0x02, 0x00,
    ]
}

/// The Dashboard service identifier as wire bytes.
pub fn dashboard_uuid() -> (r: Vec<u8>)
    ensures
        r@ == spec_dashboard_uuid(),
{
    let r: Vec<u8> = vec![
        0x79u8, 0xb1, 0x2f, 0xaa, 0x5a, 0x83, 0x8a, 0x9d,
        0xa2, 0x48, 0xbf, 0x50, 0x00, 0x00, 0x01, 0x00,
    ];
    proof {
        assert(r@ =~= spec_dashboard_uuid());
    }
    r
}

/// The Settings service identifier as wire bytes.
pub fn settings_uuid() -> (r: Vec<u8>)
    ensures
        r@ == spec_settings_uuid(),
{
    let r: Vec<u8> = vec![
        0x79u8, 0xb1, 0x2f, 0xaa, 0x5a, 0x83, 0x8a, 0x9d,
        0xa2, 0x48, 0xbf, 0x50, 0x00, 0x00, 0x02, 0x00,
    ];
    proof {
        assert(r@ =~= spec_settings_uuid());
    }
    r
}

/// A logical characteristic of the profile.
#[derive(Clone, Copy, PartialEq, Eq, Structural, Debug)]
pub enum CharacteristicId {
    /// Dashboard: 32-byte pixel payload, write-only.
    WriteBuffer,
    /// Dashboard: 1-byte readiness flag, read and notify.
    Ready,
    /// Settings: 1-byte status flag, read and write.
    Status,
}

/// The Dashboard service: the attribute handles of its characteristics.
#[derive(Clone, Copy, PartialEq, Eq, Structural, Debug)]
pub struct DashboardService {
    pub write_buffer: u16,
    pub ready: u16,
}

/// The Settings service: the attribute handle of its characteristic.
#[derive(Clone, Copy, PartialEq, Eq, Structural, Debug)]
pub struct SettingsService {
    pub status: u16,
}

/// The attribute table of the peripheral: both services, with the handles
/// the host stack assigned to their characteristics.
#[derive(Clone, Copy, PartialEq, Eq, Structural, Debug)]
pub struct Server {
    pub dashboard_service: DashboardService,
    pub settings_service: SettingsService,
}

/// Which characteristic a handle resolves to: a fixed three-entry table.
pub open spec fn spec_resolve(server: Server, handle: u16) -> Option<CharacteristicId> {
    if handle == server.dashboard_service.write_buffer {
        Some(CharacteristicId::WriteBuffer)
    } else if handle == server.dashboard_service.ready {
        Some(CharacteristicId::Ready)
    } else if handle == server.settings_service.status {
        Some(CharacteristicId::Status)
    } else {
        None
    }
}

impl Server {
    /// The handles address distinct attributes.
    pub open spec fn well_formed(&self) -> bool {
        &&& self.dashboard_service.write_buffer != self.dashboard_service.ready
        &&& self.dashboard_service.write_buffer != self.settings_service.status
        &&& self.dashboard_service.ready != self.settings_service.status
    }

    /// Builds the attribute table from the handles the host stack assigned.
    /// Rejects tables in which two characteristics share a handle.
    pub fn new(write_buffer: u16, ready: u16, status: u16) -> (r: Option<Server>)
        ensures
            r is Some <==> write_buffer != ready && write_buffer != status && ready != status,
            r matches Some(s) ==> s.well_formed()
                && s.dashboard_service.write_buffer == write_buffer
                && s.dashboard_service.ready == ready
                && s.settings_service.status == status,
    {
        if write_buffer != ready && write_buffer != status && ready != status {
            Some(Server {
                dashboard_service: DashboardService { write_buffer, ready },
                settings_service: SettingsService { status },
            })
        } else {
            None
        }
    }

    /// Resolves an attribute handle observed on the wire to the logical
    /// characteristic it addresses, if any: a constant-time table lookup.
    pub fn resolve(&self, handle: u16) -> (r: Option<CharacteristicId>)
        ensures
            r == spec_resolve(*self, handle),
    {
        if handle == self.dashboard_service.write_buffer {
            Some(CharacteristicId::WriteBuffer)
        } else if handle == self.dashboard_service.ready {
            Some(CharacteristicId::Ready)
        } else if handle == self.settings_service.status {
            Some(CharacteristicId::Status)
        } else {
            None
        }
    }
}

} // verus!
