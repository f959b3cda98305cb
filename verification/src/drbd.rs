//! The in-memory model of DRBD state on one node: resources with their
//! devices, connections, peer devices and paths, the projections whose
//! transitions drive policy, and the change updates handed to plugins.

use vstd::prelude::*;

use crate::strutil::{str_eq, str_to_string, string_eq};

verus! {

/// Error for a state token that is not one of the display strings.
#[derive(Clone, Copy, PartialEq, Eq, Structural, Debug)]
pub enum StateParseError {
    UnknownRole,
    UnknownDiskState,
    UnknownConnectionState,
    UnknownReplicationState,
    UnknownEventType,
    UnknownUnitActiveState,
}

impl StateParseError {
    /// A short message naming what was not recognized.
    pub fn text(&self) -> (r: &'static str)
        ensures
            r@ == self.spec_text(),
    {
        match self {
            StateParseError::UnknownRole => "unknown role state",
            StateParseError::UnknownDiskState => "unknown disk state",
            StateParseError::UnknownConnectionState => "unknown connection state",
            StateParseError::UnknownReplicationState => "unknown replication state",
            StateParseError::UnknownEventType => "unknown event",
            StateParseError::UnknownUnitActiveState => "unknown systemd ActiveState",
        }
    }

    pub open spec fn spec_text(&self) -> Seq<char> {
        match self {
            StateParseError::UnknownRole => "unknown role state"@,
            StateParseError::UnknownDiskState => "unknown disk state"@,
            StateParseError::UnknownConnectionState => "unknown connection state"@,
            StateParseError::UnknownReplicationState => "unknown replication state"@,
            StateParseError::UnknownEventType => "unknown event"@,
            StateParseError::UnknownUnitActiveState => "unknown systemd ActiveState"@,
        }
    }
}

/// The local or a peer node's role for one resource.
#[derive(Clone, Copy, PartialEq, Eq, Structural, Debug)]
pub enum Role {
    Unknown,
    Primary,
    Secondary,
}

impl Role {
    /// Every role, in a fixed order.
    pub fn iterator() -> (r: Vec<Role>)
        ensures
            r@ == seq![Role::Unknown, Role::Primary, Role::Secondary],
    {
        let mut v: Vec<Role> = Vec::new();
        v.push(Role::Unknown);
        v.push(Role::Primary);
        v.push(Role::Secondary);
        proof {
            assert(v@ =~= seq![Role::Unknown, Role::Primary, Role::Secondary]);
        }
        v
    }

    pub open spec fn spec_from_str(s: Seq<char>) -> Option<Role> {
        if s == "Unknown"@ {
            Some(Role::Unknown)
        } else if s == "Primary"@ {
            Some(Role::Primary)
        } else if s == "Secondary"@ {
            Some(Role::Secondary)
        } else {
            None
        }
    }

    /// Parses the display string of a role.
    pub fn from_str(s: &str) -> (r: Result<Role, StateParseError>)
        ensures
            match r {
                Ok(v) => Role::spec_from_str(s@) == Some(v),
                Err(e) => Role::spec_from_str(s@) is None && e == StateParseError::UnknownRole,
            },
    {
        if str_eq(s, "Unknown") {
            Ok(Role::Unknown)
        } else if str_eq(s, "Primary") {
            Ok(Role::Primary)
        } else if str_eq(s, "Secondary") {
            Ok(Role::Secondary)
        } else {
            Err(StateParseError::UnknownRole)
        }
    }

    pub open spec fn spec_text(&self) -> Seq<char> {
        match self {
            Role::Unknown => "Unknown"@,
            Role::Primary => "Primary"@,
            Role::Secondary => "Secondary"@,
        }
    }

    /// The display string of a role.
    pub fn text(&self) -> (r: &'static str)
        ensures
            r@ == self.spec_text(),
    {
        match self {
            Role::Unknown => "Unknown",
            Role::Primary => "Primary",
            Role::Secondary => "Secondary",
        }
    }
}

impl Default for Role {
    fn default() -> (r: Self)
        ensures
            r == Role::Unknown,
    {
        Role::Unknown
    }
}

/// The state of a device's local backing disk.
#[derive(Clone, Copy, PartialEq, Eq, Structural, Debug)]
pub enum DiskState {
    Diskless,
    Attaching,
    Detaching,
    Failed,
    Negotiating,
    Inconsistent,
    Outdated,
    DUnknown,
    Consistent,
    UpToDate,
}

impl DiskState {
    /// Every disk state, in a fixed order.
    pub fn iterator() -> (r: Vec<DiskState>)
        ensures
            r@ == seq![
                DiskState::Diskless,
                DiskState::Attaching,
                DiskState::Detaching,
                DiskState::Failed,
                DiskState::Negotiating,
                DiskState::Inconsistent,
                DiskState::Outdated,
                DiskState::DUnknown,
                DiskState::Consistent,
                DiskState::UpToDate,
            ],
    {
        let mut v: Vec<DiskState> = Vec::new();
        v.push(DiskState::Diskless);
        v.push(DiskState::Attaching);
        v.push(DiskState::Detaching);
        v.push(DiskState::Failed);
        v.push(DiskState::Negotiating);
        v.push(DiskState::Inconsistent);
        v.push(DiskState::Outdated);
        v.push(DiskState::DUnknown);
        v.push(DiskState::Consistent);
        v.push(DiskState::UpToDate);
        proof {
            assert(v@ =~= seq![
                DiskState::Diskless,
                DiskState::Attaching,
                DiskState::Detaching,
                DiskState::Failed,
                DiskState::Negotiating,
                DiskState::Inconsistent,
                DiskState::Outdated,
                DiskState::DUnknown,
                DiskState::Consistent,
                DiskState::UpToDate,
            ]);
        }
        v
    }

    pub open spec fn spec_from_str(s: Seq<char>) -> Option<DiskState> {
        if s == "Diskless"@ {
            Some(DiskState::Diskless)
        } else if s == "Attaching"@ {
            Some(DiskState::Attaching)
        } else if s == "Detaching"@ {
            Some(DiskState::Detaching)
        } else if s == "Failed"@ {
            Some(DiskState::Failed)
        } else if s == "Negotiating"@ {
            Some(DiskState::Negotiating)
        } else if s == "Inconsistent"@ {
            Some(DiskState::Inconsistent)
        } else if s == "Outdated"@ {
            Some(DiskState::Outdated)
        } else if s == "DUnknown"@ {
            Some(DiskState::DUnknown)
        } else if s == "Consistent"@ {
            Some(DiskState::Consistent)
        } else if s == "UpToDate"@ {
            Some(DiskState::UpToDate)
        } else {
            None
        }
    }

    /// Parses the display string of a disk state.
    pub fn from_str(s: &str) -> (r: Result<DiskState, StateParseError>)
        ensures
            match r {
                Ok(v) => DiskState::spec_from_str(s@) == Some(v),
                Err(e) => DiskState::spec_from_str(s@) is None && e
                    == StateParseError::UnknownDiskState,
            },
    {
        if str_eq(s, "Diskless") {
            Ok(DiskState::Diskless)
        } else if str_eq(s, "Attaching") {
            Ok(DiskState::Attaching)
        } else if str_eq(s, "Detaching") {
            Ok(DiskState::Detaching)
        } else if str_eq(s, "Failed") {
            Ok(DiskState::Failed)
        } else if str_eq(s, "Negotiating") {
            Ok(DiskState::Negotiating)
        } else if str_eq(s, "Inconsistent") {
            Ok(DiskState::Inconsistent)
        } else if str_eq(s, "Outdated") {
            Ok(DiskState::Outdated)
        } else if str_eq(s, "DUnknown") {
            Ok(DiskState::DUnknown)
        } else if str_eq(s, "Consistent") {
            Ok(DiskState::Consistent)
        } else if str_eq(s, "UpToDate") {
            Ok(DiskState::UpToDate)
        } else {
            Err(StateParseError::UnknownDiskState)
        }
    }

    pub open spec fn spec_text(&self) -> Seq<char> {
        match self {
            DiskState::Diskless => "Diskless"@,
            DiskState::Attaching => "Attaching"@,
            DiskState::Detaching => "Detaching"@,
            DiskState::Failed => "Failed"@,
            DiskState::Negotiating => "Negotiating"@,
            DiskState::Inconsistent => "Inconsistent"@,
            DiskState::Outdated => "Outdated"@,
            DiskState::DUnknown => "DUnknown"@,
            DiskState::Consistent => "Consistent"@,
            DiskState::UpToDate => "UpToDate"@,
        }
    }

    /// The display string of a disk state.
    pub fn text(&self) -> (r: &'static str)
        ensures
            r@ == self.spec_text(),
    {
        match self {
            DiskState::Diskless => "Diskless",
            DiskState::Attaching => "Attaching",
            DiskState::Detaching => "Detaching",
            DiskState::Failed => "Failed",
            DiskState::Negotiating => "Negotiating",
            DiskState::Inconsistent => "Inconsistent",
            DiskState::Outdated => "Outdated",
            DiskState::DUnknown => "DUnknown",
            DiskState::Consistent => "Consistent",
            DiskState::UpToDate => "UpToDate",
        }
    }
}

impl Default for DiskState {
    fn default() -> (r: Self)
        ensures
            r == DiskState::DUnknown,
    {
        DiskState::DUnknown
    }
}

/// The state of the replication link to one peer.
#[derive(Clone, Copy, PartialEq, Eq, Structural, Debug)]
pub enum ConnectionState {
    StandAlone,
    Disconnecting,
    Unconnected,
    Timeout,
    BrokenPipe,
    NetworkFailure,
    ProtocolError,
    TearDown,
    Connecting,
    Connected,
}

impl ConnectionState {
    /// Every connection state, in a fixed order.
    pub fn iterator() -> (r: Vec<ConnectionState>)
        ensures
            r@ == seq![
                ConnectionState::StandAlone,
                ConnectionState::Disconnecting,
                ConnectionState::Unconnected,
                ConnectionState::Timeout,
                ConnectionState::BrokenPipe,
                ConnectionState::NetworkFailure,
                ConnectionState::ProtocolError,
                ConnectionState::TearDown,
                ConnectionState::Connecting,
                ConnectionState::Connected,
            ],
    {
        let mut v: Vec<ConnectionState> = Vec::new();
        v.push(ConnectionState::StandAlone);
        v.push(ConnectionState::Disconnecting);
        v.push(ConnectionState::Unconnected);
        v.push(ConnectionState::Timeout);
        v.push(ConnectionState::BrokenPipe);
        v.push(ConnectionState::NetworkFailure);
        v.push(ConnectionState::ProtocolError);
        v.push(ConnectionState::TearDown);
        v.push(ConnectionState::Connecting);
        v.push(ConnectionState::Connected);
        proof {
            assert(v@ =~= seq![
                ConnectionState::StandAlone,
                ConnectionState::Disconnecting,
                ConnectionState::Unconnected,
                ConnectionState::Timeout,
                ConnectionState::BrokenPipe,
                ConnectionState::NetworkFailure,
                ConnectionState::ProtocolError,
                ConnectionState::TearDown,
                ConnectionState::Connecting,
                ConnectionState::Connected,
            ]);
        }
        v
    }

    pub open spec fn spec_from_str(s: Seq<char>) -> Option<ConnectionState> {
        if s == "StandAlone"@ {
            Some(ConnectionState::StandAlone)
        } else if s == "Disconnecting"@ {
            Some(ConnectionState::Disconnecting)
        } else if s == "Unconnected"@ {
            Some(ConnectionState::Unconnected)
        } else if s == "Timeout"@ {
            Some(ConnectionState::Timeout)
        } else if s == "BrokenPipe"@ {
            Some(ConnectionState::BrokenPipe)
        } else if s == "NetworkFailure"@ {
            Some(ConnectionState::NetworkFailure)
        } else if s == "ProtocolError"@ {
            Some(ConnectionState::ProtocolError)
        } else if s == "TearDown"@ {
            Some(ConnectionState::TearDown)
        } else if s == "Connecting"@ {
            Some(ConnectionState::Connecting)
        } else if s == "Connected"@ {
            Some(ConnectionState::Connected)
        } else {
            None
        }
    }

    /// Parses the display string of a connection state.
    pub fn from_str(s: &str) -> (r: Result<ConnectionState, StateParseError>)
        ensures
            match r {
                Ok(v) => ConnectionState::spec_from_str(s@) == Some(v),
                Err(e) => ConnectionState::spec_from_str(s@) is None && e
                    == StateParseError::UnknownConnectionState,
            },
    {
        if str_eq(s, "StandAlone") {
            Ok(ConnectionState::StandAlone)
        } else if str_eq(s, "Disconnecting") {
            Ok(ConnectionState::Disconnecting)
        } else if str_eq(s, "Unconnected") {
            Ok(ConnectionState::Unconnected)
        } else if str_eq(s, "Timeout") {
            Ok(ConnectionState::Timeout)
        } else if str_eq(s, "BrokenPipe") {
            Ok(ConnectionState::BrokenPipe)
        } else if str_eq(s, "NetworkFailure") {
            Ok(ConnectionState::NetworkFailure)
        } else if str_eq(s, "ProtocolError") {
            Ok(ConnectionState::ProtocolError)
        } else if str_eq(s, "TearDown") {
            Ok(ConnectionState::TearDown)
        } else if str_eq(s, "Connecting") {
            Ok(ConnectionState::Connecting)
        } else if str_eq(s, "Connected") {
            Ok(ConnectionState::Connected)
        } else {
            Err(StateParseError::UnknownConnectionState)
        }
    }

    pub open spec fn spec_text(&self) -> Seq<char> {
        match self {
            ConnectionState::StandAlone => "StandAlone"@,
            ConnectionState::Disconnecting => "Disconnecting"@,
            ConnectionState::Unconnected => "Unconnected"@,
            ConnectionState::Timeout => "Timeout"@,
            ConnectionState::BrokenPipe => "BrokenPipe"@,
            ConnectionState::NetworkFailure => "NetworkFailure"@,
            ConnectionState::ProtocolError => "ProtocolError"@,
            ConnectionState::TearDown => "TearDown"@,
            ConnectionState::Connecting => "Connecting"@,
            ConnectionState::Connected => "Connected"@,
        }
    }

    /// The display string of a connection state.
    pub fn text(&self) -> (r: &'static str)
        ensures
            r@ == self.spec_text(),
    {
        match self {
            ConnectionState::StandAlone => "StandAlone",
            ConnectionState::Disconnecting => "Disconnecting",
            ConnectionState::Unconnected => "Unconnected",
            ConnectionState::Timeout => "Timeout",
            ConnectionState::BrokenPipe => "BrokenPipe",
            ConnectionState::NetworkFailure => "NetworkFailure",
            ConnectionState::ProtocolError => "ProtocolError",
            ConnectionState::TearDown => "TearDown",
            ConnectionState::Connecting => "Connecting",
            ConnectionState::Connected => "Connected",
        }
    }
}

impl Default for ConnectionState {
    fn default() -> (r: Self)
        ensures
            r == ConnectionState::StandAlone,
    {
        ConnectionState::StandAlone
    }
}

/// The replication state of one peer device.
#[derive(Clone, Copy, PartialEq, Eq, Structural, Debug)]
pub enum ReplicationState {
    Off,
    Established,
    StartingSyncS,
    StartingSyncT,
    WFBitMapS,
    WFBitMapT,
    WFSyncUUID,
    SyncSource,
    SyncTarget,
    VerifyS,
    VerifyT,
    PausedSyncS,
    PausedSyncT,
    Ahead,
    Behind,
}

impl ReplicationState {
    /// Every replication state, in a fixed order.
    pub fn iterator() -> (r: Vec<ReplicationState>)
        ensures
            r@ == seq![
                ReplicationState::Off,
                ReplicationState::Established,
                ReplicationState::StartingSyncS,
                ReplicationState::StartingSyncT,
                ReplicationState::WFBitMapS,
                ReplicationState::WFBitMapT,
                ReplicationState::WFSyncUUID,
                ReplicationState::SyncSource,
                ReplicationState::SyncTarget,
                ReplicationState::VerifyS,
                ReplicationState::VerifyT,
                ReplicationState::PausedSyncS,
                ReplicationState::PausedSyncT,
                ReplicationState::Ahead,
                ReplicationState::Behind,
            ],
    {
        let mut v: Vec<ReplicationState> = Vec::new();
        v.push(ReplicationState::Off);
        v.push(ReplicationState::Established);
        v.push(ReplicationState::StartingSyncS);
        v.push(ReplicationState::StartingSyncT);
        v.push(ReplicationState::WFBitMapS);
        v.push(ReplicationState::WFBitMapT);
        v.push(ReplicationState::WFSyncUUID);
        v.push(ReplicationState::SyncSource);
        v.push(ReplicationState::SyncTarget);
        v.push(ReplicationState::VerifyS);
        v.push(ReplicationState::VerifyT);
        v.push(ReplicationState::PausedSyncS);
        v.push(ReplicationState::PausedSyncT);
        v.push(ReplicationState::Ahead);
        v.push(ReplicationState::Behind);
        proof {
            assert(v@ =~= seq![
                ReplicationState::Off,
                ReplicationState::Established,
                ReplicationState::StartingSyncS,
                ReplicationState::StartingSyncT,
                ReplicationState::WFBitMapS,
                ReplicationState::WFBitMapT,
                ReplicationState::WFSyncUUID,
                ReplicationState::SyncSource,
                ReplicationState::SyncTarget,
                ReplicationState::VerifyS,
                ReplicationState::VerifyT,
                ReplicationState::PausedSyncS,
                ReplicationState::PausedSyncT,
                ReplicationState::Ahead,
                ReplicationState::Behind,
            ]);
        }
        v
    }

    pub open spec fn spec_from_str(s: Seq<char>) -> Option<ReplicationState> {
        if s == "Off"@ {
            Some(ReplicationState::Off)
        } else if s == "Established"@ {
            Some(ReplicationState::Established)
        } else if s == "StartingSyncS"@ {
            Some(ReplicationState::StartingSyncS)
        } else if s == "StartingSyncT"@ {
            Some(ReplicationState::StartingSyncT)
        } else if s == "WFBitMapS"@ {
            Some(ReplicationState::WFBitMapS)
        } else if s == "WFBitMapT"@ {
            Some(ReplicationState::WFBitMapT)
        } else if s == "WFSyncUUID"@ {
            Some(ReplicationState::WFSyncUUID)
        } else if s == "SyncSource"@ {
            Some(ReplicationState::SyncSource)
        } else if s == "SyncTarget"@ {
            Some(ReplicationState::SyncTarget)
        } else if s == "VerifyS"@ {
            Some(ReplicationState::VerifyS)
        } else if s == "VerifyT"@ {
            Some(ReplicationState::VerifyT)
        } else if s == "PausedSyncS"@ {
            Some(ReplicationState::PausedSyncS)
        } else if s == "PausedSyncT"@ {
            Some(ReplicationState::PausedSyncT)
        } else if s == "Ahead"@ {
            Some(ReplicationState::Ahead)
        } else if s == "Behind"@ {
            Some(ReplicationState::Behind)
        } else {
            None
        }
    }

    /// Parses the display string of a replication state.
    pub fn from_str(s: &str) -> (r: Result<ReplicationState, StateParseError>)
        ensures
            match r {
                Ok(v) => ReplicationState::spec_from_str(s@) == Some(v),
                Err(e) => ReplicationState::spec_from_str(s@) is None && e
                    == StateParseError::UnknownReplicationState,
            },
    {
        if str_eq(s, "Off") {
            Ok(ReplicationState::Off)
        } else if str_eq(s, "Established") {
            Ok(ReplicationState::Established)
        } else if str_eq(s, "StartingSyncS") {
            Ok(ReplicationState::StartingSyncS)
        } else if str_eq(s, "StartingSyncT") {
            Ok(ReplicationState::StartingSyncT)
        } else if str_eq(s, "WFBitMapS") {
            Ok(ReplicationState::WFBitMapS)
        } else if str_eq(s, "WFBitMapT") {
            Ok(ReplicationState::WFBitMapT)
        } else if str_eq(s, "WFSyncUUID") {
            Ok(ReplicationState::WFSyncUUID)
        } else if str_eq(s, "SyncSource") {
            Ok(ReplicationState::SyncSource)
        } else if str_eq(s, "SyncTarget") {
            Ok(ReplicationState::SyncTarget)
        } else if str_eq(s, "VerifyS") {
            Ok(ReplicationState::VerifyS)
        } else if str_eq(s, "VerifyT") {
            Ok(ReplicationState::VerifyT)
        } else if str_eq(s, "PausedSyncS") {
            Ok(ReplicationState::PausedSyncS)
        } else if str_eq(s, "PausedSyncT") {
            Ok(ReplicationState::PausedSyncT)
        } else if str_eq(s, "Ahead") {
            Ok(ReplicationState::Ahead)
        } else if str_eq(s, "Behind") {
            Ok(ReplicationState::Behind)
        } else {
            Err(StateParseError::UnknownReplicationState)
        }
    }

    pub open spec fn spec_text(&self) -> Seq<char> {
        match self {
            ReplicationState::Off => "Off"@,
            ReplicationState::Established => "Established"@,
            ReplicationState::StartingSyncS => "StartingSyncS"@,
            ReplicationState::StartingSyncT => "StartingSyncT"@,
            ReplicationState::WFBitMapS => "WFBitMapS"@,
            ReplicationState::WFBitMapT => "WFBitMapT"@,
            ReplicationState::WFSyncUUID => "WFSyncUUID"@,
            ReplicationState::SyncSource => "SyncSource"@,
            ReplicationState::SyncTarget => "SyncTarget"@,
            ReplicationState::VerifyS => "VerifyS"@,
            ReplicationState::VerifyT => "VerifyT"@,
            ReplicationState::PausedSyncS => "PausedSyncS"@,
            ReplicationState::PausedSyncT => "PausedSyncT"@,
            ReplicationState::Ahead => "Ahead"@,
            ReplicationState::Behind => "Behind"@,
        }
    }

    /// The display string of a replication state.
    pub fn text(&self) -> (r: &'static str)
        ensures
            r@ == self.spec_text(),
    {
        match self {
            ReplicationState::Off => "Off",
            ReplicationState::Established => "Established",
            ReplicationState::StartingSyncS => "StartingSyncS",
            ReplicationState::StartingSyncT => "StartingSyncT",
            ReplicationState::WFBitMapS => "WFBitMapS",
            ReplicationState::WFBitMapT => "WFBitMapT",
            ReplicationState::WFSyncUUID => "WFSyncUUID",
            ReplicationState::SyncSource => "SyncSource",
            ReplicationState::SyncTarget => "SyncTarget",
            ReplicationState::VerifyS => "VerifyS",
            ReplicationState::VerifyT => "VerifyT",
            ReplicationState::PausedSyncS => "PausedSyncS",
            ReplicationState::PausedSyncT => "PausedSyncT",
            ReplicationState::Ahead => "Ahead",
            ReplicationState::Behind => "Behind",
        }
    }
}

impl Default for ReplicationState {
    fn default() -> (r: Self)
        ensures
            r == ReplicationState::Off,
    {
        ReplicationState::Off
    }
}

/// The verb of an event line.
#[derive(Clone, Copy, PartialEq, Eq, Structural, Debug)]
pub enum EventType {
    Exists,
    Create,
    Destroy,
    Change,
}

impl EventType {
    pub open spec fn spec_from_str(s: Seq<char>) -> Option<EventType> {
        if s == "exists"@ {
            Some(EventType::Exists)
        } else if s == "create"@ {
            Some(EventType::Create)
        } else if s == "destroy"@ {
            Some(EventType::Destroy)
        } else if s == "change"@ {
            Some(EventType::Change)
        } else {
            None
        }
    }

    /// Parses the verb of an event line.
    pub fn from_str(s: &str) -> (r: Result<EventType, StateParseError>)
        ensures
            match r {
                Ok(v) => EventType::spec_from_str(s@) == Some(v),
                Err(e) => EventType::spec_from_str(s@) is None && e
                    == StateParseError::UnknownEventType,
            },
    {
        if str_eq(s, "exists") {
            Ok(EventType::Exists)
        } else if str_eq(s, "create") {
            Ok(EventType::Create)
        } else if str_eq(s, "destroy") {
            Ok(EventType::Destroy)
        } else if str_eq(s, "change") {
            Ok(EventType::Change)
        } else {
            Err(StateParseError::UnknownEventType)
        }
    }
}

} // verus!

verus! {

/// The backing disk of a device: a path, or none for an intentionally
/// diskless device.
#[derive(Debug)]
pub struct BackingDevice(pub Option<String>);

impl View for BackingDevice {
    type V = Option<Seq<char>>;

    open spec fn view(&self) -> Option<Seq<char>> {
        match self.0 {
            Some(s) => Some(s@),
            None => None,
        }
    }
}

impl DeepView for BackingDevice {
    type V = Option<Seq<char>>;

    open spec fn deep_view(&self) -> Option<Seq<char>> {
        self@
    }
}

pub open spec fn spec_backing_device(s: Seq<char>) -> Option<Seq<char>> {
    if s == "none"@ {
        None
    } else {
        Some(s)
    }
}

impl BackingDevice {
    /// Parses the value of a `backing_dev` key: the literal `none` means
    /// diskless.
    pub fn from_str(s: &str) -> (r: BackingDevice)
        ensures
            r@ == spec_backing_device(s@),
    {
        if str_eq(s, "none") {
            BackingDevice(None)
        } else {
            BackingDevice(Some(str_to_string(s)))
        }
    }

    pub open spec fn spec_text(&self) -> Seq<char> {
        match self@ {
            Some(s) => s,
            None => "none"@,
        }
    }

    /// The display form: the path, or the literal `none`.
    pub fn text(&self) -> (r: String)
        ensures
            r@ == self.spec_text(),
    {
        match &self.0 {
            Some(s) => s.clone(),
            None => str_to_string("none"),
        }
    }
}

impl Clone for BackingDevice {
    fn clone(&self) -> (r: Self)
        ensures
            r@ == self@,
    {
        match &self.0 {
            Some(s) => BackingDevice(Some(s.clone())),
            None => BackingDevice(None),
        }
    }
}

impl PartialEq for BackingDevice {
    fn eq(&self, other: &Self) -> (r: bool) {
        match (&self.0, &other.0) {
            (Some(a), Some(b)) => string_eq(a, b),
            (None, None) => true,
            _ => false,
        }
    }
}

impl Eq for BackingDevice {

}

impl vstd::std_specs::cmp::PartialEqSpecImpl for BackingDevice {
    open spec fn obeys_eq_spec() -> bool {
        true
    }

    open spec fn eq_spec(&self, other: &Self) -> bool {
        self@ == other@
    }
}

impl Default for BackingDevice {
    fn default() -> (r: Self)
        ensures
            r@ == Option::<Seq<char>>::None,
    {
        BackingDevice(None)
    }
}

/// Mathematical value of a [`Device`].
#[verifier::ext_equal]
pub struct DeviceView {
    pub name: Seq<char>,
    pub volume: int,
    pub minor: int,
    pub disk_state: DiskState,
    pub backing_dev: Option<Seq<char>>,
    pub client: bool,
    pub quorum: bool,
    pub size: nat,
    pub read: nat,
    pub written: nat,
    pub al_writes: nat,
    pub bm_writes: nat,
    pub upper_pending: nat,
    pub lower_pending: nat,
    pub al_suspended: bool,
    pub blocked: Seq<char>,
}

/// One local replicated volume of a resource.
#[derive(Debug)]
pub struct Device {
    pub name: String,
    pub volume: i32,
    pub minor: i32,
    pub disk_state: DiskState,
    pub backing_dev: BackingDevice,
    pub client: bool,
    pub quorum: bool,
    pub size: u64,
    pub read: u64,
    pub written: u64,
    pub al_writes: u64,
    pub bm_writes: u64,
    pub upper_pending: u64,
    pub lower_pending: u64,
    pub al_suspended: bool,
    pub blocked: String,
}

impl View for Device {
    type V = DeviceView;

    open spec fn view(&self) -> DeviceView {
        DeviceView {
            name: self.name@,
            volume: self.volume as int,
            minor: self.minor as int,
            disk_state: self.disk_state,
            backing_dev: self.backing_dev@,
            client: self.client,
            quorum: self.quorum,
            size: self.size as nat,
            read: self.read as nat,
            written: self.written as nat,
            al_writes: self.al_writes as nat,
            bm_writes: self.bm_writes as nat,
            upper_pending: self.upper_pending as nat,
            lower_pending: self.lower_pending as nat,
            al_suspended: self.al_suspended,
            blocked: self.blocked@,
        }
    }
}

impl DeepView for Device {
    type V = DeviceView;

    open spec fn deep_view(&self) -> DeviceView {
        self@
    }
}

pub open spec fn device_default() -> DeviceView {
    DeviceView {
        name: Seq::empty(),
        volume: 0,
        minor: 0,
        disk_state: DiskState::DUnknown,
        backing_dev: None,
        client: false,
        quorum: false,
        size: 0,
        read: 0,
        written: 0,
        al_writes: 0,
        bm_writes: 0,
        upper_pending: 0,
        lower_pending: 0,
        al_suspended: false,
        blocked: Seq::empty(),
    }
}

impl Default for Device {
    fn default() -> (r: Self)
        ensures
            r@ == device_default(),
    {
        let d = Device {
            name: String::new(),
            volume: 0,
            minor: 0,
            disk_state: DiskState::DUnknown,
            backing_dev: BackingDevice(None),
            client: false,
            quorum: false,
            size: 0,
            read: 0,
            written: 0,
            al_writes: 0,
            bm_writes: 0,
            upper_pending: 0,
            lower_pending: 0,
            al_suspended: false,
            blocked: String::new(),
        };
        proof {
            assert(d@ =~= device_default());
        }
        d
    }
}

impl Clone for Device {
    fn clone(&self) -> (r: Self)
        ensures
            r@ == self@,
    {
        let r = Device {
            name: self.name.clone(),
            volume: self.volume,
            minor: self.minor,
            disk_state: self.disk_state,
            backing_dev: self.backing_dev.clone(),
            client: self.client,
            quorum: self.quorum,
            size: self.size,
            read: self.read,
            written: self.written,
            al_writes: self.al_writes,
            bm_writes: self.bm_writes,
            upper_pending: self.upper_pending,
            lower_pending: self.lower_pending,
            al_suspended: self.al_suspended,
            blocked: self.blocked.clone(),
        };
        proof {
            assert(r@ =~= self@);
        }
        r
    }
}

impl PartialEq for Device {
    fn eq(&self, other: &Self) -> (r: bool) {
        let r = string_eq(&self.name, &other.name) && self.volume == other.volume && self.minor
            == other.minor && self.disk_state == other.disk_state && self.backing_dev
            == other.backing_dev && self.client == other.client && self.quorum == other.quorum
            && self.size == other.size && self.read == other.read && self.written == other.written
            && self.al_writes == other.al_writes && self.bm_writes == other.bm_writes
            && self.upper_pending == other.upper_pending && self.lower_pending
            == other.lower_pending && self.al_suspended == other.al_suspended && string_eq(
            &self.blocked,
            &other.blocked,
        );
        proof {
            if r {
                assert(self@ =~= other@);
            }
        }
        r
    }
}

impl Eq for Device {

}

impl vstd::std_specs::cmp::PartialEqSpecImpl for Device {
    open spec fn obeys_eq_spec() -> bool {
        true
    }

    open spec fn eq_spec(&self, other: &Self) -> bool {
        self@ == other@
    }
}

/// Mathematical value of a [`PeerDevice`].
#[verifier::ext_equal]
pub struct PeerDeviceView {
    pub name: Seq<char>,
    pub volume: int,
    pub peer_node_id: int,
    pub replication_state: ReplicationState,
    pub conn_name: Seq<char>,
    pub peer_disk_state: DiskState,
    pub peer_client: bool,
    pub resync_suspended: bool,
    pub received: nat,
    pub sent: nat,
    pub out_of_sync: nat,
    pub pending: nat,
    pub unacked: nat,
    pub has_sync_details: bool,
    pub has_online_verify_details: bool,
}

/// One (connection, volume) pair: the peer's side of a volume.
#[derive(Debug)]
pub struct PeerDevice {
    pub name: String,
    pub volume: i32,
    pub peer_node_id: i32,
    pub replication_state: ReplicationState,
    pub conn_name: String,
    pub peer_disk_state: DiskState,
    pub peer_client: bool,
    pub resync_suspended: bool,
    pub received: u64,
    pub sent: u64,
    pub out_of_sync: u64,
    pub pending: u64,
    pub unacked: u64,
    pub has_sync_details: bool,
    pub has_online_verify_details: bool,
}

impl View for PeerDevice {
    type V = PeerDeviceView;

    open spec fn view(&self) -> PeerDeviceView {
        PeerDeviceView {
            name: self.name@,
            volume: self.volume as int,
            peer_node_id: self.peer_node_id as int,
            replication_state: self.replication_state,
            conn_name: self.conn_name@,
            peer_disk_state: self.peer_disk_state,
            peer_client: self.peer_client,
            resync_suspended: self.resync_suspended,
            received: self.received as nat,
            sent: self.sent as nat,
            out_of_sync: self.out_of_sync as nat,
            pending: self.pending as nat,
            unacked: self.unacked as nat,
            has_sync_details: self.has_sync_details,
            has_online_verify_details: self.has_online_verify_details,
        }
    }
}

impl DeepView for PeerDevice {
    type V = PeerDeviceView;

    open spec fn deep_view(&self) -> PeerDeviceView {
        self@
    }
}

pub open spec fn peerdevice_default() -> PeerDeviceView {
    PeerDeviceView {
        name: Seq::empty(),
        volume: 0,
        peer_node_id: 0,
        replication_state: ReplicationState::Off,
        conn_name: Seq::empty(),
        peer_disk_state: DiskState::DUnknown,
        peer_client: false,
        resync_suspended: false,
        received: 0,
        sent: 0,
        out_of_sync: 0,
        pending: 0,
        unacked: 0,
        has_sync_details: false,
        has_online_verify_details: false,
    }
}

impl Default for PeerDevice {
    fn default() -> (r: Self)
        ensures
            r@ == peerdevice_default(),
    {
        let d = PeerDevice {
            name: String::new(),
            volume: 0,
            peer_node_id: 0,
            replication_state: ReplicationState::Off,
            conn_name: String::new(),
            peer_disk_state: DiskState::DUnknown,
            peer_client: false,
            resync_suspended: false,
            received: 0,
            sent: 0,
            out_of_sync: 0,
            pending: 0,
            unacked: 0,
            has_sync_details: false,
            has_online_verify_details: false,
        };
        proof {
            assert(d@ =~= peerdevice_default());
        }
        d
    }
}

impl Clone for PeerDevice {
    fn clone(&self) -> (r: Self)
        ensures
            r@ == self@,
    {
        let r = PeerDevice {
            name: self.name.clone(),
            volume: self.volume,
            peer_node_id: self.peer_node_id,
            replication_state: self.replication_state,
            conn_name: self.conn_name.clone(),
            peer_disk_state: self.peer_disk_state,
            peer_client: self.peer_client,
            resync_suspended: self.resync_suspended,
            received: self.received,
            sent: self.sent,
            out_of_sync: self.out_of_sync,
            pending: self.pending,
            unacked: self.unacked,
            has_sync_details: self.has_sync_details,
            has_online_verify_details: self.has_online_verify_details,
        };
        proof {
            assert(r@ =~= self@);
        }
        r
    }
}

impl PartialEq for PeerDevice {
    fn eq(&self, other: &Self) -> (r: bool) {
        let r = string_eq(&self.name, &other.name) && self.volume == other.volume
            && self.peer_node_id == other.peer_node_id && self.replication_state
            == other.replication_state && string_eq(&self.conn_name, &other.conn_name)
            && self.peer_disk_state == other.peer_disk_state && self.peer_client
            == other.peer_client && self.resync_suspended == other.resync_suspended
            && self.received == other.received && self.sent == other.sent && self.out_of_sync
            == other.out_of_sync && self.pending == other.pending && self.unacked == other.unacked
            && self.has_sync_details == other.has_sync_details && self.has_online_verify_details
            == other.has_online_verify_details;
        proof {
            if r {
                assert(self@ =~= other@);
            }
        }
        r
    }
}

impl Eq for PeerDevice {

}

impl vstd::std_specs::cmp::PartialEqSpecImpl for PeerDevice {
    open spec fn obeys_eq_spec() -> bool {
        true
    }

    open spec fn eq_spec(&self, other: &Self) -> bool {
        self@ == other@
    }
}

/// Mathematical value of a [`Path`].
#[verifier::ext_equal]
pub struct PathView {
    pub name: Seq<char>,
    pub peer_node_id: int,
    pub conn_name: Seq<char>,
    pub local: Seq<char>,
    pub peer: Seq<char>,
    pub established: bool,
}

/// One network path of a connection, keyed by its endpoint addresses.
#[derive(Debug)]
pub struct Path {
    pub name: String,
    pub peer_node_id: i32,
    pub conn_name: String,
    pub local: String,
    pub peer: String,
    pub established: bool,
}

impl View for Path {
    type V = PathView;

    open spec fn view(&self) -> PathView {
        PathView {
            name: self.name@,
            peer_node_id: self.peer_node_id as int,
            conn_name: self.conn_name@,
            local: self.local@,
            peer: self.peer@,
            established: self.established,
        }
    }
}

impl DeepView for Path {
    type V = PathView;

    open spec fn deep_view(&self) -> PathView {
        self@
    }
}

pub open spec fn path_default() -> PathView {
    PathView {
        name: Seq::empty(),
        peer_node_id: 0,
        conn_name: Seq::empty(),
        local: Seq::empty(),
        peer: Seq::empty(),
        established: false,
    }
}

impl Default for Path {
    fn default() -> (r: Self)
        ensures
            r@ == path_default(),
    {
        let d = Path {
            name: String::new(),
            peer_node_id: 0,
            conn_name: String::new(),
            local: String::new(),
            peer: String::new(),
            established: false,
        };
        proof {
            assert(d@ =~= path_default());
        }
        d
    }
}

impl Clone for Path {
    fn clone(&self) -> (r: Self)
        ensures
            r@ == self@,
    {
        let r = Path {
            name: self.name.clone(),
            peer_node_id: self.peer_node_id,
            conn_name: self.conn_name.clone(),
            local: self.local.clone(),
            peer: self.peer.clone(),
            established: self.established,
        };
        proof {
            assert(r@ =~= self@);
        }
        r
    }
}

impl PartialEq for Path {
    fn eq(&self, other: &Self) -> (r: bool) {
        let r = string_eq(&self.name, &other.name) && self.peer_node_id == other.peer_node_id
            && string_eq(&self.conn_name, &other.conn_name) && string_eq(&self.local, &other.local)
            && string_eq(&self.peer, &other.peer) && self.established == other.established;
        proof {
            if r {
                assert(self@ =~= other@);
            }
        }
        r
    }
}

impl Eq for Path {

}

impl vstd::std_specs::cmp::PartialEqSpecImpl for Path {
    open spec fn obeys_eq_spec() -> bool {
        true
    }

    open spec fn eq_spec(&self, other: &Self) -> bool {
        self@ == other@
    }
}

} // verus!

verus! {

/// Mathematical value of a [`Connection`].
#[verifier::ext_equal]
pub struct ConnectionView {
    pub name: Seq<char>,
    pub peer_node_id: int,
    pub conn_name: Seq<char>,
    pub connection: ConnectionState,
    pub peer_role: Role,
    pub congested: bool,
    pub ap_in_flight: nat,
    pub rs_in_flight: nat,
    pub peerdevices: Seq<PeerDeviceView>,
    pub paths: Seq<PathView>,
}

/// The local view of the replication link to one remote node, with the peer
/// devices and paths reachable through it.
#[derive(Debug)]
pub struct Connection {
    pub name: String,
    pub peer_node_id: i32,
    pub conn_name: String,
    pub connection: ConnectionState,
    pub peer_role: Role,
    pub congested: bool,
    pub ap_in_flight: u64,
    pub rs_in_flight: u64,
    pub peerdevices: Vec<PeerDevice>,
    pub paths: Vec<Path>,
}

impl View for Connection {
    type V = ConnectionView;

    open spec fn view(&self) -> ConnectionView {
        ConnectionView {
            name: self.name@,
            peer_node_id: self.peer_node_id as int,
            conn_name: self.conn_name@,
            connection: self.connection,
            peer_role: self.peer_role,
            congested: self.congested,
            ap_in_flight: self.ap_in_flight as nat,
            rs_in_flight: self.rs_in_flight as nat,
            peerdevices: self.peerdevices.deep_view(),
            paths: self.paths.deep_view(),
        }
    }
}

impl DeepView for Connection {
    type V = ConnectionView;

    open spec fn deep_view(&self) -> ConnectionView {
        self@
    }
}

pub open spec fn connection_default() -> ConnectionView {
    ConnectionView {
        name: Seq::empty(),
        peer_node_id: 0,
        conn_name: Seq::empty(),
        connection: ConnectionState::StandAlone,
        peer_role: Role::Unknown,
        congested: false,
        ap_in_flight: 0,
        rs_in_flight: 0,
        peerdevices: Seq::empty(),
        paths: Seq::empty(),
    }
}

impl Default for Connection {
    fn default() -> (r: Self)
        ensures
            r@ == connection_default(),
    {
        let d = Connection {
            name: String::new(),
            peer_node_id: 0,
            conn_name: String::new(),
            connection: ConnectionState::StandAlone,
            peer_role: Role::Unknown,
            congested: false,
            ap_in_flight: 0,
            rs_in_flight: 0,
            peerdevices: Vec::new(),
            paths: Vec::new(),
        };
        proof {
            assert(d.peerdevices.deep_view() =~= Seq::<PeerDeviceView>::empty());
            assert(d.paths.deep_view() =~= Seq::<PathView>::empty());
            assert(d@ =~= connection_default());
        }
        d
    }
}

/// Copies a vector of peer devices, value for value.
pub fn clone_peerdevices(v: &Vec<PeerDevice>) -> (r: Vec<PeerDevice>)
    ensures
        r.deep_view() == v.deep_view(),
{
    let mut r: Vec<PeerDevice> = Vec::new();
    let mut i: usize = 0;
    while i < v.len()
        invariant
            0 <= i <= v.len(),
            r@.len() == i,
            forall|j: int| 0 <= j < i ==> #[trigger] r@[j]@ == v@[j]@,
        decreases v.len() - i,
    {
        let c = v[i].clone();
        assert(c@ == v@[i as int]@);
        r.push(c);
        i = i + 1;
    }
    proof {
        assert(r.deep_view() =~= v.deep_view());
    }
    proof {
        assert(r.deep_view() =~= v.deep_view());
    }
    r
}

/// Copies a vector of paths, value for value.
pub fn clone_paths(v: &Vec<Path>) -> (r: Vec<Path>)
    ensures
        r.deep_view() == v.deep_view(),
{
    let mut r: Vec<Path> = Vec::new();
    let mut i: usize = 0;
    while i < v.len()
        invariant
            0 <= i <= v.len(),
            r@.len() == i,
            forall|j: int| 0 <= j < i ==> #[trigger] r@[j]@ == v@[j]@,
        decreases v.len() - i,
    {
        let c = v[i].clone();
        assert(c@ == v@[i as int]@);
        r.push(c);
        i = i + 1;
    }
    proof {
        assert(r.deep_view() =~= v.deep_view());
    }
    r
}

impl Clone for Connection {
    fn clone(&self) -> (r: Self)
        ensures
            r@ == self@,
    {
        let r = Connection {
            name: self.name.clone(),
            peer_node_id: self.peer_node_id,
            conn_name: self.conn_name.clone(),
            connection: self.connection,
            peer_role: self.peer_role,
            congested: self.congested,
            ap_in_flight: self.ap_in_flight,
            rs_in_flight: self.rs_in_flight,
            peerdevices: clone_peerdevices(&self.peerdevices),
            paths: clone_paths(&self.paths),
        };
        proof {
            assert(r@ =~= self@);
        }
        r
    }
}

/// Element-wise equality of two peer device vectors.
pub fn peerdevices_eq(a: &Vec<PeerDevice>, b: &Vec<PeerDevice>) -> (r: bool)
    ensures
        r == (a.deep_view() == b.deep_view()),
{
    if a.len() != b.len() {
        assert(a.deep_view().len() != b.deep_view().len());
        return false;
    }
    let mut i: usize = 0;
    while i < a.len()
        invariant
            a.len() == b.len(),
            0 <= i <= a.len(),
            forall|j: int| 0 <= j < i ==> a.deep_view()[j] == b.deep_view()[j],
        decreases a.len() - i,
    {
        if !(a[i] == b[i]) {
            assert(a.deep_view()[i as int] != b.deep_view()[i as int]);
            return false;
        }
        i = i + 1;
    }
    proof {
        assert(a.deep_view() =~= b.deep_view());
    }
    true
}

/// Element-wise equality of two path vectors.
pub fn paths_eq(a: &Vec<Path>, b: &Vec<Path>) -> (r: bool)
    ensures
        r == (a.deep_view() == b.deep_view()),
{
    if a.len() != b.len() {
        assert(a.deep_view().len() != b.deep_view().len());
        return false;
    }
    let mut i: usize = 0;
    while i < a.len()
        invariant
            a.len() == b.len(),
            0 <= i <= a.len(),
            forall|j: int| 0 <= j < i ==> a.deep_view()[j] == b.deep_view()[j],
        decreases a.len() - i,
    {
        if !(a[i] == b[i]) {
            assert(a.deep_view()[i as int] != b.deep_view()[i as int]);
            return false;
        }
        i = i + 1;
    }
    proof {
        assert(a.deep_view() =~= b.deep_view());
    }
    true
}

impl PartialEq for Connection {
    fn eq(&self, other: &Self) -> (r: bool) {
        let r = string_eq(&self.name, &other.name) && self.peer_node_id == other.peer_node_id
            && string_eq(&self.conn_name, &other.conn_name) && self.connection == other.connection
            && self.peer_role == other.peer_role && self.congested == other.congested
            && self.ap_in_flight == other.ap_in_flight && self.rs_in_flight == other.rs_in_flight
            && peerdevices_eq(&self.peerdevices, &other.peerdevices) && paths_eq(
            &self.paths,
            &other.paths,
        );
        proof {
            if r {
                assert(self@ =~= other@);
            }
        }
        r
    }
}

impl Eq for Connection {

}

impl vstd::std_specs::cmp::PartialEqSpecImpl for Connection {
    open spec fn obeys_eq_spec() -> bool {
        true
    }

    open spec fn eq_spec(&self, other: &Self) -> bool {
        self@ == other@
    }
}

/// Mathematical value of a [`Resource`].
#[verifier::ext_equal]
pub struct ResourceView {
    pub name: Seq<char>,
    pub role: Role,
    pub suspended: bool,
    pub write_ordering: Seq<char>,
    pub force_io_failures: bool,
    pub may_promote: bool,
    pub promotion_score: int,
    pub devices: Seq<DeviceView>,
    pub connections: Seq<ConnectionView>,
}

/// One named replicated block-storage entity on the local node.
#[derive(Debug)]
pub struct Resource {
    pub name: String,
    pub role: Role,
    pub suspended: bool,
    pub write_ordering: String,
    pub force_io_failures: bool,
    pub may_promote: bool,
    pub promotion_score: i32,
    pub devices: Vec<Device>,
    pub connections: Vec<Connection>,
}

impl View for Resource {
    type V = ResourceView;

    open spec fn view(&self) -> ResourceView {
        ResourceView {
            name: self.name@,
            role: self.role,
            suspended: self.suspended,
            write_ordering: self.write_ordering@,
            force_io_failures: self.force_io_failures,
            may_promote: self.may_promote,
            promotion_score: self.promotion_score as int,
            devices: self.devices.deep_view(),
            connections: self.connections.deep_view(),
        }
    }
}

impl DeepView for Resource {
    type V = ResourceView;

    open spec fn deep_view(&self) -> ResourceView {
        self@
    }
}

pub open spec fn resource_default() -> ResourceView {
    ResourceView {
        name: Seq::empty(),
        role: Role::Unknown,
        suspended: false,
        write_ordering: Seq::empty(),
        force_io_failures: false,
        may_promote: false,
        promotion_score: 0,
        devices: Seq::empty(),
        connections: Seq::empty(),
    }
}

impl Default for Resource {
    fn default() -> (r: Self)
        ensures
            r@ == resource_default(),
    {
        let d = Resource {
            name: String::new(),
            role: Role::Unknown,
            suspended: false,
            write_ordering: String::new(),
            force_io_failures: false,
            may_promote: false,
            promotion_score: 0,
            devices: Vec::new(),
            connections: Vec::new(),
        };
        proof {
            assert(d.devices.deep_view() =~= Seq::<DeviceView>::empty());
            assert(d.connections.deep_view() =~= Seq::<ConnectionView>::empty());
            assert(d@ =~= resource_default());
        }
        d
    }
}

/// Copies a vector of devices, value for value.
pub fn clone_devices(v: &Vec<Device>) -> (r: Vec<Device>)
    ensures
        r.deep_view() == v.deep_view(),
{
    let mut r: Vec<Device> = Vec::new();
    let mut i: usize = 0;
    while i < v.len()
        invariant
            0 <= i <= v.len(),
            r@.len() == i,
            forall|j: int| 0 <= j < i ==> #[trigger] r@[j]@ == v@[j]@,
        decreases v.len() - i,
    {
        let c = v[i].clone();
        assert(c@ == v@[i as int]@);
        r.push(c);
        i = i + 1;
    }
    proof {
        assert(r.deep_view() =~= v.deep_view());
    }
    r
}

/// Copies a vector of connections, value for value.
pub fn clone_connections(v: &Vec<Connection>) -> (r: Vec<Connection>)
    ensures
        r.deep_view() == v.deep_view(),
{
    let mut r: Vec<Connection> = Vec::new();
    let mut i: usize = 0;
    while i < v.len()
        invariant
            0 <= i <= v.len(),
            r@.len() == i,
            forall|j: int| 0 <= j < i ==> #[trigger] r@[j]@ == v@[j]@,
        decreases v.len() - i,
    {
        let c = v[i].clone();
        assert(c@ == v@[i as int]@);
        r.push(c);
        i = i + 1;
    }
    proof {
        assert(r.deep_view() =~= v.deep_view());
    }
    r
}

impl Clone for Resource {
    fn clone(&self) -> (r: Self)
        ensures
            r@ == self@,
    {
        let r = Resource {
            name: self.name.clone(),
            role: self.role,
            suspended: self.suspended,
            write_ordering: self.write_ordering.clone(),
            force_io_failures: self.force_io_failures,
            may_promote: self.may_promote,
            promotion_score: self.promotion_score,
            devices: clone_devices(&self.devices),
            connections: clone_connections(&self.connections),
        };
        proof {
            assert(r@ =~= self@);
        }
        r
    }
}

/// Element-wise equality of two device vectors.
pub fn devices_eq(a: &Vec<Device>, b: &Vec<Device>) -> (r: bool)
    ensures
        r == (a.deep_view() == b.deep_view()),
{
    if a.len() != b.len() {
        assert(a.deep_view().len() != b.deep_view().len());
        return false;
    }
    let mut i: usize = 0;
    while i < a.len()
        invariant
            a.len() == b.len(),
            0 <= i <= a.len(),
            forall|j: int| 0 <= j < i ==> a.deep_view()[j] == b.deep_view()[j],
        decreases a.len() - i,
    {
        if !(a[i] == b[i]) {
            assert(a.deep_view()[i as int] != b.deep_view()[i as int]);
            return false;
        }
        i = i + 1;
    }
    proof {
        assert(a.deep_view() =~= b.deep_view());
    }
    true
}

/// Element-wise equality of two connection vectors.
pub fn connections_eq(a: &Vec<Connection>, b: &Vec<Connection>) -> (r: bool)
    ensures
        r == (a.deep_view() == b.deep_view()),
{
    if a.len() != b.len() {
        assert(a.deep_view().len() != b.deep_view().len());
        return false;
    }
    let mut i: usize = 0;
    while i < a.len()
        invariant
            a.len() == b.len(),
            0 <= i <= a.len(),
            forall|j: int| 0 <= j < i ==> a.deep_view()[j] == b.deep_view()[j],
        decreases a.len() - i,
    {
        if !(a[i] == b[i]) {
            assert(a.deep_view()[i as int] != b.deep_view()[i as int]);
            return false;
        }
        i = i + 1;
    }
    proof {
        assert(a.deep_view() =~= b.deep_view());
    }
    true
}

impl PartialEq for Resource {
    fn eq(&self, other: &Self) -> (r: bool) {
        let r = string_eq(&self.name, &other.name) && self.role == other.role && self.suspended
            == other.suspended && string_eq(&self.write_ordering, &other.write_ordering)
            && self.force_io_failures == other.force_io_failures && self.may_promote
            == other.may_promote && self.promotion_score == other.promotion_score && devices_eq(
            &self.devices,
            &other.devices,
        ) && connections_eq(&self.connections, &other.connections);
        proof {
            if r {
                assert(self@ =~= other@);
            }
        }
        r
    }
}

impl Eq for Resource {

}

impl vstd::std_specs::cmp::PartialEqSpecImpl for Resource {
    open spec fn obeys_eq_spec() -> bool {
        true
    }

    open spec fn eq_spec(&self, other: &Self) -> bool {
        self@ == other@
    }
}

} // verus!

verus! {

/// The projection of a resource whose transitions drive policy.
#[derive(Clone, Copy, PartialEq, Eq, Structural, Debug)]
pub struct ResourceUpdateState {
    pub role: Role,
    pub may_promote: bool,
    pub promotion_score: i32,
}

impl Default for ResourceUpdateState {
    fn default() -> (r: Self)
        ensures
            r == resource_update_default(),
    {
        ResourceUpdateState { role: Role::Unknown, may_promote: false, promotion_score: 0 }
    }
}

pub open spec fn resource_update_default() -> ResourceUpdateState {
    ResourceUpdateState { role: Role::Unknown, may_promote: false, promotion_score: 0 }
}

/// The projection of a resource view.
pub open spec fn proj_resource(r: ResourceView) -> ResourceUpdateState {
    ResourceUpdateState {
        role: r.role,
        may_promote: r.may_promote,
        promotion_score: r.promotion_score as i32,
    }
}

/// The projection of a device whose transitions drive policy.
#[derive(Clone, Copy, PartialEq, Eq, Structural, Debug)]
pub struct DeviceUpdateState {
    pub disk_state: DiskState,
    pub client: bool,
    pub quorum: bool,
    pub size: u64,
}

impl Default for DeviceUpdateState {
    fn default() -> (r: Self)
        ensures
            r == device_update_default(),
    {
        DeviceUpdateState { disk_state: DiskState::DUnknown, client: false, quorum: false, size: 0 }
    }
}

pub open spec fn device_update_default() -> DeviceUpdateState {
    DeviceUpdateState { disk_state: DiskState::DUnknown, client: false, quorum: false, size: 0 }
}

/// The projection of a device view.
pub open spec fn proj_device(d: DeviceView) -> DeviceUpdateState {
    DeviceUpdateState {
        disk_state: d.disk_state,
        client: d.client,
        quorum: d.quorum,
        size: d.size as u64,
    }
}

/// The projection of a peer device whose transitions drive policy.
#[derive(Clone, Copy, PartialEq, Eq, Structural, Debug)]
pub struct PeerDeviceUpdateState {
    pub replication_state: ReplicationState,
    pub peer_disk_state: DiskState,
    pub peer_client: bool,
    pub resync_suspended: bool,
}

impl Default for PeerDeviceUpdateState {
    fn default() -> (r: Self)
        ensures
            r == peerdevice_update_default(),
    {
        PeerDeviceUpdateState {
            replication_state: ReplicationState::Off,
            peer_disk_state: DiskState::DUnknown,
            peer_client: false,
            resync_suspended: false,
        }
    }
}

pub open spec fn peerdevice_update_default() -> PeerDeviceUpdateState {
    PeerDeviceUpdateState {
        replication_state: ReplicationState::Off,
        peer_disk_state: DiskState::DUnknown,
        peer_client: false,
        resync_suspended: false,
    }
}

/// The projection of a peer device view.
pub open spec fn proj_peerdevice(d: PeerDeviceView) -> PeerDeviceUpdateState {
    PeerDeviceUpdateState {
        replication_state: d.replication_state,
        peer_disk_state: d.peer_disk_state,
        peer_client: d.peer_client,
        resync_suspended: d.resync_suspended,
    }
}

/// Mathematical value of a [`ConnectionUpdateState`].
#[verifier::ext_equal]
pub struct ConnectionUpdateStateView {
    pub conn_name: Seq<char>,
    pub connection_state: ConnectionState,
    pub peer_role: Role,
    pub congested: bool,
}

/// The projection of a connection whose transitions drive policy.
#[derive(Debug)]
pub struct ConnectionUpdateState {
    pub conn_name: String,
    pub connection_state: ConnectionState,
    pub peer_role: Role,
    pub congested: bool,
}

impl View for ConnectionUpdateState {
    type V = ConnectionUpdateStateView;

    open spec fn view(&self) -> ConnectionUpdateStateView {
        ConnectionUpdateStateView {
            conn_name: self.conn_name@,
            connection_state: self.connection_state,
            peer_role: self.peer_role,
            congested: self.congested,
        }
    }
}

impl DeepView for ConnectionUpdateState {
    type V = ConnectionUpdateStateView;

    open spec fn deep_view(&self) -> ConnectionUpdateStateView {
        self@
    }
}

impl Clone for ConnectionUpdateState {
    fn clone(&self) -> (r: Self)
        ensures
            r@ == self@,
    {
        let r = ConnectionUpdateState {
            conn_name: self.conn_name.clone(),
            connection_state: self.connection_state,
            peer_role: self.peer_role,
            congested: self.congested,
        };
        proof {
            assert(r@ =~= self@);
        }
        r
    }
}

impl PartialEq for ConnectionUpdateState {
    fn eq(&self, other: &Self) -> (r: bool) {
        let r = string_eq(&self.conn_name, &other.conn_name) && self.connection_state
            == other.connection_state && self.peer_role == other.peer_role && self.congested
            == other.congested;
        proof {
            if r {
                assert(self@ =~= other@);
            }
        }
        r
    }
}

impl Eq for ConnectionUpdateState {

}

impl vstd::std_specs::cmp::PartialEqSpecImpl for ConnectionUpdateState {
    open spec fn obeys_eq_spec() -> bool {
        true
    }

    open spec fn eq_spec(&self, other: &Self) -> bool {
        self@ == other@
    }
}

impl Default for ConnectionUpdateState {
    fn default() -> (r: Self)
        ensures
            r@ == connection_update_default(),
    {
        let d = ConnectionUpdateState {
            conn_name: String::new(),
            connection_state: ConnectionState::StandAlone,
            peer_role: Role::Unknown,
            congested: false,
        };
        proof {
            assert(d@ =~= connection_update_default());
        }
        d
    }
}

pub open spec fn connection_update_default() -> ConnectionUpdateStateView {
    ConnectionUpdateStateView {
        conn_name: Seq::empty(),
        connection_state: ConnectionState::StandAlone,
        peer_role: Role::Unknown,
        congested: false,
    }
}

/// The projection of a connection view.
pub open spec fn proj_connection(c: ConnectionView) -> ConnectionUpdateStateView {
    ConnectionUpdateStateView {
        conn_name: c.conn_name,
        connection_state: c.connection,
        peer_role: c.peer_role,
        congested: c.congested,
    }
}

} // verus!

verus! {

/// Whether some device of `devs` carries the volume `vol`.
pub open spec fn has_device(devs: Seq<DeviceView>, vol: int) -> bool {
    exists|i: int| 0 <= i < devs.len() && devs[i].volume == vol
}

/// The index of the device with volume `vol`; unique under well-formedness.
pub open spec fn device_idx(devs: Seq<DeviceView>, vol: int) -> int {
    choose|i: int| 0 <= i < devs.len() && devs[i].volume == vol
}

pub open spec fn device_at(devs: Seq<DeviceView>, vol: int) -> DeviceView {
    devs[device_idx(devs, vol)]
}

/// Whether some connection of `conns` goes to the peer node `id`.
pub open spec fn has_connection(conns: Seq<ConnectionView>, id: int) -> bool {
    exists|i: int| 0 <= i < conns.len() && conns[i].peer_node_id == id
}

/// The index of the connection to peer node `id`; unique under
/// well-formedness.
pub open spec fn connection_idx(conns: Seq<ConnectionView>, id: int) -> int {
    choose|i: int| 0 <= i < conns.len() && conns[i].peer_node_id == id
}

pub open spec fn connection_at(conns: Seq<ConnectionView>, id: int) -> ConnectionView {
    conns[connection_idx(conns, id)]
}

/// Whether some peer device of `pds` carries the volume `vol`.
pub open spec fn has_peerdevice(pds: Seq<PeerDeviceView>, vol: int) -> bool {
    exists|i: int| 0 <= i < pds.len() && pds[i].volume == vol
}

/// The index of the peer device with volume `vol`; unique under
/// well-formedness.
pub open spec fn peerdevice_idx(pds: Seq<PeerDeviceView>, vol: int) -> int {
    choose|i: int| 0 <= i < pds.len() && pds[i].volume == vol
}

pub open spec fn peerdevice_at(pds: Seq<PeerDeviceView>, vol: int) -> PeerDeviceView {
    pds[peerdevice_idx(pds, vol)]
}

/// Whether some path of `paths` joins the endpoints `local` and `peer`.
pub open spec fn has_path(paths: Seq<PathView>, local: Seq<char>, peer: Seq<char>) -> bool {
    exists|i: int| 0 <= i < paths.len() && paths[i].local == local && paths[i].peer == peer
}

/// The index of the path with the given endpoints; unique under
/// well-formedness.
pub open spec fn path_idx(paths: Seq<PathView>, local: Seq<char>, peer: Seq<char>) -> int {
    choose|i: int| 0 <= i < paths.len() && paths[i].local == local && paths[i].peer == peer
}

/// Well-formedness of a connection: peer devices are unique per volume,
/// paths unique per endpoint pair, and every child names this connection's
/// peer node.
pub open spec fn cv_wf(c: ConnectionView) -> bool {
    &&& forall|i: int, j: int|
        0 <= i < j < c.peerdevices.len() ==> c.peerdevices[i].volume != c.peerdevices[j].volume
    &&& forall|i: int, j: int|
        0 <= i < j < c.paths.len() ==> !(c.paths[i].local == c.paths[j].local && c.paths[i].peer
            == c.paths[j].peer)
    &&& forall|i: int|
        0 <= i < c.peerdevices.len() ==> #[trigger] c.peerdevices[i].peer_node_id
            == c.peer_node_id
    &&& forall|i: int|
        0 <= i < c.paths.len() ==> #[trigger] c.paths[i].peer_node_id == c.peer_node_id
}

/// Well-formedness of a resource: devices are unique per volume, connections
/// unique per peer node, and every connection is well formed.
pub open spec fn rv_wf(r: ResourceView) -> bool {
    &&& forall|i: int, j: int|
        0 <= i < j < r.devices.len() ==> r.devices[i].volume != r.devices[j].volume
    &&& forall|i: int, j: int|
        0 <= i < j < r.connections.len() ==> r.connections[i].peer_node_id
            != r.connections[j].peer_node_id
    &&& forall|i: int| 0 <= i < r.connections.len() ==> cv_wf(#[trigger] r.connections[i])
}

/// A resource view with its device list replaced.
pub open spec fn rv_with_devices(r: ResourceView, devs: Seq<DeviceView>) -> ResourceView {
    ResourceView {
        name: r.name,
        role: r.role,
        suspended: r.suspended,
        write_ordering: r.write_ordering,
        force_io_failures: r.force_io_failures,
        may_promote: r.may_promote,
        promotion_score: r.promotion_score,
        devices: devs,
        connections: r.connections,
    }
}

/// A resource view with its connection list replaced.
pub open spec fn rv_with_connections(r: ResourceView, conns: Seq<ConnectionView>) -> ResourceView {
    ResourceView {
        name: r.name,
        role: r.role,
        suspended: r.suspended,
        write_ordering: r.write_ordering,
        force_io_failures: r.force_io_failures,
        may_promote: r.may_promote,
        promotion_score: r.promotion_score,
        devices: r.devices,
        connections: conns,
    }
}

/// A connection view with its peer device list replaced.
pub open spec fn cv_with_peerdevices(c: ConnectionView, pds: Seq<PeerDeviceView>) -> ConnectionView {
    ConnectionView {
        name: c.name,
        peer_node_id: c.peer_node_id,
        conn_name: c.conn_name,
        connection: c.connection,
        peer_role: c.peer_role,
        congested: c.congested,
        ap_in_flight: c.ap_in_flight,
        rs_in_flight: c.rs_in_flight,
        peerdevices: pds,
        paths: c.paths,
    }
}

/// A connection view with its path list replaced.
pub open spec fn cv_with_paths(c: ConnectionView, paths: Seq<PathView>) -> ConnectionView {
    ConnectionView {
        name: c.name,
        peer_node_id: c.peer_node_id,
        conn_name: c.conn_name,
        connection: c.connection,
        peer_role: c.peer_role,
        congested: c.congested,
        ap_in_flight: c.ap_in_flight,
        rs_in_flight: c.rs_in_flight,
        peerdevices: c.peerdevices,
        paths: paths,
    }
}

/// An incoming connection with the children of the existing one: a connection
/// update arrives without peer devices and paths, and must not clobber them.
pub open spec fn cv_merge(incoming: ConnectionView, existing: ConnectionView) -> ConnectionView {
    ConnectionView {
        name: incoming.name,
        peer_node_id: incoming.peer_node_id,
        conn_name: incoming.conn_name,
        connection: incoming.connection,
        peer_role: incoming.peer_role,
        congested: incoming.congested,
        ap_in_flight: incoming.ap_in_flight,
        rs_in_flight: incoming.rs_in_flight,
        peerdevices: existing.peerdevices,
        paths: existing.paths,
    }
}

/// The empty connection that stands in for a parent that has not been seen
/// yet, carrying only the peer node id.
pub open spec fn cv_bare(id: int) -> ConnectionView {
    ConnectionView {
        name: Seq::empty(),
        peer_node_id: id,
        conn_name: Seq::empty(),
        connection: ConnectionState::StandAlone,
        peer_role: Role::Unknown,
        congested: false,
        ap_in_flight: 0,
        rs_in_flight: 0,
        peerdevices: Seq::empty(),
        paths: Seq::empty(),
    }
}

/// First index of a device with the given volume, scanning from the front.
fn find_device_index(devs: &Vec<Device>, volume: i32) -> (r: Option<usize>)
    ensures
        match r {
            Some(i) => i < devs@.len() && devs@[i as int]@.volume == volume as int && forall|j: int|
                0 <= j < i ==> devs@[j]@.volume != volume as int,
            None => !has_device(devs.deep_view(), volume as int),
        },
{
    let mut i: usize = 0;
    while i < devs.len()
        invariant
            0 <= i <= devs@.len(),
            forall|j: int| 0 <= j < i ==> devs@[j]@.volume != volume as int,
        decreases devs@.len() - i,
    {
        if devs[i].volume == volume {
            return Some(i);
        }
        i = i + 1;
    }
    proof {
        assert(forall|j: int| 0 <= j < devs.deep_view().len() ==> #[trigger] devs.deep_view()[j]
            == devs@[j]@);
    }
    None
}

/// First index of a connection to the given peer node, scanning from the
/// front.
fn find_connection_index(conns: &Vec<Connection>, peer_node_id: i32) -> (r: Option<usize>)
    ensures
        match r {
            Some(i) => i < conns@.len() && conns@[i as int]@.peer_node_id == peer_node_id as int
                && forall|j: int| 0 <= j < i ==> conns@[j]@.peer_node_id != peer_node_id as int,
            None => !has_connection(conns.deep_view(), peer_node_id as int),
        },
{
    let mut i: usize = 0;
    while i < conns.len()
        invariant
            0 <= i <= conns@.len(),
            forall|j: int| 0 <= j < i ==> conns@[j]@.peer_node_id != peer_node_id as int,
        decreases conns@.len() - i,
    {
        if conns[i].peer_node_id == peer_node_id {
            return Some(i);
        }
        i = i + 1;
    }
    proof {
        assert(forall|j: int| 0 <= j < conns.deep_view().len() ==> #[trigger] conns.deep_view()[j]
            == conns@[j]@);
    }
    None
}

/// First index of a peer device with the given volume, scanning from the
/// front.
fn find_peerdevice_index(pds: &Vec<PeerDevice>, volume: i32) -> (r: Option<usize>)
    ensures
        match r {
            Some(i) => i < pds@.len() && pds@[i as int]@.volume == volume as int && forall|j: int|
                0 <= j < i ==> pds@[j]@.volume != volume as int,
            None => !has_peerdevice(pds.deep_view(), volume as int),
        },
{
    let mut i: usize = 0;
    while i < pds.len()
        invariant
            0 <= i <= pds@.len(),
            forall|j: int| 0 <= j < i ==> pds@[j]@.volume != volume as int,
        decreases pds@.len() - i,
    {
        if pds[i].volume == volume {
            return Some(i);
        }
        i = i + 1;
    }
    proof {
        assert(forall|j: int| 0 <= j < pds.deep_view().len() ==> #[trigger] pds.deep_view()[j]
            == pds@[j]@);
    }
    None
}

/// First index of a path with the given endpoints, scanning from the front.
fn find_path_index(paths: &Vec<Path>, local: &str, peer: &str) -> (r: Option<usize>)
    ensures
        match r {
            Some(i) => i < paths@.len() && paths@[i as int]@.local == local@ && paths@[i as int]@.peer
                == peer@ && forall|j: int|
                0 <= j < i ==> !(paths@[j]@.local == local@ && paths@[j]@.peer == peer@),
            None => !has_path(paths.deep_view(), local@, peer@),
        },
{
    let mut i: usize = 0;
    while i < paths.len()
        invariant
            0 <= i <= paths@.len(),
            forall|j: int| 0 <= j < i ==> !(paths@[j]@.local == local@ && paths@[j]@.peer == peer@),
        decreases paths@.len() - i,
    {
        if str_eq(paths[i].local.as_str(), local) && str_eq(paths[i].peer.as_str(), peer) {
            return Some(i);
        }
        i = i + 1;
    }
    proof {
        assert(forall|j: int| 0 <= j < paths.deep_view().len() ==> #[trigger] paths.deep_view()[j]
            == paths@[j]@);
    }
    None
}

} // verus!

verus! {

use vstd::pervasive::VecAdditionalExecFns;

/// A fresh resource view that carries only a name.
pub open spec fn rv_named(name: Seq<char>) -> ResourceView {
    ResourceView {
        name: name,
        role: Role::Unknown,
        suspended: false,
        write_ordering: Seq::empty(),
        force_io_failures: false,
        may_promote: false,
        promotion_score: 0,
        devices: Seq::empty(),
        connections: Seq::empty(),
    }
}

/// What a resource-level update changes: everything the event stream carries
/// for the resource itself; the name and the children stay.
pub open spec fn rv_updated(m: ResourceView, u: ResourceView) -> ResourceView {
    ResourceView {
        name: m.name,
        role: u.role,
        suspended: u.suspended,
        write_ordering: u.write_ordering,
        force_io_failures: m.force_io_failures,
        may_promote: u.may_promote,
        promotion_score: u.promotion_score,
        devices: m.devices,
        connections: m.connections,
    }
}

/// Inserts or replaces a device, keyed by its volume.
pub open spec fn devices_upsert(devs: Seq<DeviceView>, d: DeviceView) -> Seq<DeviceView> {
    if has_device(devs, d.volume) {
        devs.update(device_idx(devs, d.volume), d)
    } else {
        devs.push(d)
    }
}

/// Removes the device with the given volume, if present.
pub open spec fn devices_delete(devs: Seq<DeviceView>, vol: int) -> Seq<DeviceView> {
    if has_device(devs, vol) {
        devs.remove(device_idx(devs, vol))
    } else {
        devs
    }
}

/// What a device event does to the device list: a destroy removes, anything
/// else inserts or replaces.
pub open spec fn devices_apply(devs: Seq<DeviceView>, et: EventType, d: DeviceView) -> Seq<
    DeviceView,
> {
    if et == EventType::Destroy {
        devices_delete(devs, d.volume)
    } else {
        devices_upsert(devs, d)
    }
}

impl Resource {
    /// Devices keyed by unique volume, connections by unique peer node, and
    /// every child reachable only under its own connection.
    pub open spec fn wf(&self) -> bool {
        rv_wf(self@)
    }

    /// A fresh resource carrying only a name.
    pub fn with_name(name: &str) -> (r: Self)
        ensures
            r@ == rv_named(name@),
            r.wf(),
    {
        let mut r = Resource::default();
        r.name = str_to_string(name);
        proof {
            assert(r@ =~= rv_named(name@));
        }
        r
    }

    /// Takes the resource-level fields from `r`; the name cannot change, and
    /// the children arrive through their own events.
    pub fn update(&mut self, r: &Resource)
        ensures
            final(self)@ == rv_updated(old(self)@, r@),
            old(self).wf() ==> final(self).wf(),
    {
        self.role = r.role;
        self.suspended = r.suspended;
        self.write_ordering = r.write_ordering.clone();
        self.may_promote = r.may_promote;
        self.promotion_score = r.promotion_score;
        proof {
            assert(self@ =~= rv_updated(old(self)@, r@));
        }
    }

    /// The device with the given volume, if present.
    pub fn get_device(&self, volume_id: i32) -> (r: Option<&Device>)
        ensures
            match r {
                Some(d) => has_device(self@.devices, volume_id as int) && exists|i: int|
                    0 <= i < self@.devices.len() && self@.devices[i].volume == volume_id as int
                        && d@ == self@.devices[i],
                None => !has_device(self@.devices, volume_id as int),
            },
    {
        match find_device_index(&self.devices, volume_id) {
            Some(i) => {
                let d = &self.devices[i];
                proof {
                    assert(self@.devices[i as int] == self.devices@[i as int]@);
                }
                Some(d)
            },
            None => None,
        }
    }

    /// The connection to the given peer node, if present.
    pub fn get_connection(&self, peer_node_id: i32) -> (r: Option<&Connection>)
        ensures
            match r {
                Some(c) => has_connection(self@.connections, peer_node_id as int) && exists|i: int|
                    0 <= i < self@.connections.len() && self@.connections[i].peer_node_id
                        == peer_node_id as int && c@ == self@.connections[i],
                None => !has_connection(self@.connections, peer_node_id as int),
            },
    {
        match find_connection_index(&self.connections, peer_node_id) {
            Some(i) => {
                let c = &self.connections[i];
                proof {
                    assert(self@.connections[i as int] == self.connections@[i as int]@);
                }
                Some(c)
            },
            None => None,
        }
    }

    /// The peer device under the connection to `peer_node_id` with the given
    /// volume, if both exist.
    pub fn get_peerdevice(&self, peer_node_id: i32, peer_volume_id: i32) -> (r: Option<&PeerDevice>)
        requires
            self.wf(),
        ensures
            match r {
                Some(d) => has_connection(self@.connections, peer_node_id as int) && has_peerdevice(
                    connection_at(self@.connections, peer_node_id as int).peerdevices,
                    peer_volume_id as int,
                ) && d@ == peerdevice_at(
                    connection_at(self@.connections, peer_node_id as int).peerdevices,
                    peer_volume_id as int,
                ),
                None => !has_connection(self@.connections, peer_node_id as int) || !has_peerdevice(
                    connection_at(self@.connections, peer_node_id as int).peerdevices,
                    peer_volume_id as int,
                ),
            },
    {
        let ghost conns = self@.connections;
        match find_connection_index(&self.connections, peer_node_id) {
            Some(ci) => {
                let conn = &self.connections[ci];
                proof {
                    assert(conns[ci as int] == self.connections@[ci as int]@);
                    assert(has_connection(conns, peer_node_id as int));
                    let k = connection_idx(conns, peer_node_id as int);
                    assert(0 <= k < conns.len() && conns[k].peer_node_id == peer_node_id as int);
                    assert(k == ci);
                }
                let ghost pds = connection_at(conns, peer_node_id as int).peerdevices;
                match find_peerdevice_index(&conn.peerdevices, peer_volume_id) {
                    Some(pi) => {
                        let d = &conn.peerdevices[pi];
                        proof {
                            assert(pds[pi as int] == conn.peerdevices@[pi as int]@);
                            assert(has_peerdevice(pds, peer_volume_id as int));
                            let k = peerdevice_idx(pds, peer_volume_id as int);
                            assert(0 <= k < pds.len() && pds[k].volume == peer_volume_id as int);
                            assert(k == pi);
                        }
                        Some(d)
                    },
                    None => None,
                }
            },
            None => None,
        }
    }

    /// Inserts the device, or replaces the one with the same volume.
    pub fn update_device(&mut self, device: &Device)
        requires
            old(self).wf(),
        ensures
            final(self).wf(),
            final(self)@ == rv_with_devices(old(self)@, devices_upsert(old(self)@.devices, device@)),
    {
        let ghost devs = old(self)@.devices;
        match find_device_index(&self.devices, device.volume) {
            Some(i) => {
                proof {
                    assert(devs[i as int] == self.devices@[i as int]@);
                    assert(has_device(devs, device@.volume));
                    let k = device_idx(devs, device@.volume);
                    assert(0 <= k < devs.len() && devs[k].volume == device@.volume);
                    assert(k == i);
                }
                self.devices.set(i, device.clone());
                proof {
                    assert(self@.devices =~= devs.update(i as int, device@));
                    assert(self@ =~= rv_with_devices(old(self)@, devices_upsert(devs, device@)));
                    assert(rv_wf(self@));
                }
            },
            None => {
                self.devices.push(device.clone());
                proof {
                    assert(self@.devices =~= devs.push(device@));
                    assert(self@ =~= rv_with_devices(old(self)@, devices_upsert(devs, device@)));
                    assert(rv_wf(self@));
                }
            },
        }
    }

    /// Removes the device with the given volume, if present.
    pub fn delete_device(&mut self, volume_id: i32)
        requires
            old(self).wf(),
        ensures
            final(self).wf(),
            final(self)@ == rv_with_devices(
                old(self)@,
                devices_delete(old(self)@.devices, volume_id as int),
            ),
    {
        let ghost devs = old(self)@.devices;
        match find_device_index(&self.devices, volume_id) {
            Some(i) => {
                proof {
                    assert(devs[i as int] == self.devices@[i as int]@);
                    assert(has_device(devs, volume_id as int));
                    let k = device_idx(devs, volume_id as int);
                    assert(0 <= k < devs.len() && devs[k].volume == volume_id as int);
                    assert(k == i);
                }
                self.devices.remove(i);
                proof {
                    assert(self@.devices =~= devs.remove(i as int));
                    assert(self@ =~= rv_with_devices(
                        old(self)@,
                        devices_delete(devs, volume_id as int),
                    ));
                    assert(rv_wf(self@));
                }
            },
            None => {
                proof {
                    assert(self@ =~= rv_with_devices(
                        old(self)@,
                        devices_delete(devs, volume_id as int),
                    ));
                }
            },
        }
    }

    /// Applies a device event to the device list: destroy removes, anything
    /// else inserts or replaces.
    pub fn update_or_delete_device(&mut self, et: &EventType, device: &Device)
        requires
            old(self).wf(),
        ensures
            final(self).wf(),
            final(self)@ == rv_with_devices(
                old(self)@,
                devices_apply(old(self)@.devices, *et, device@),
            ),
    {
        if *et == EventType::Destroy {
            self.delete_device(device.volume);
        } else {
            self.update_device(device);
        }
    }
}

} // verus!

verus! {

/// Inserts or replaces a connection wholesale, keyed by its peer node.
pub open spec fn connections_upsert(conns: Seq<ConnectionView>, c: ConnectionView) -> Seq<
    ConnectionView,
> {
    if has_connection(conns, c.peer_node_id) {
        conns.update(connection_idx(conns, c.peer_node_id), c)
    } else {
        conns.push(c)
    }
}

/// Removes the connection to the given peer node, if present.
pub open spec fn connections_delete(conns: Seq<ConnectionView>, id: int) -> Seq<ConnectionView> {
    if has_connection(conns, id) {
        conns.remove(connection_idx(conns, id))
    } else {
        conns
    }
}

/// Inserts or replaces a peer device within a peer device list, keyed by its
/// volume.
pub open spec fn peerdevices_upsert(pds: Seq<PeerDeviceView>, d: PeerDeviceView) -> Seq<
    PeerDeviceView,
> {
    if has_peerdevice(pds, d.volume) {
        pds.update(peerdevice_idx(pds, d.volume), d)
    } else {
        pds.push(d)
    }
}

/// What a peer device update does to the connection list: the parent
/// connection is created bare if it is missing.
pub open spec fn connections_apply_peerdevice(conns: Seq<ConnectionView>, d: PeerDeviceView) -> Seq<
    ConnectionView,
> {
    if has_connection(conns, d.peer_node_id) {
        let ci = connection_idx(conns, d.peer_node_id);
        conns.update(ci, cv_with_peerdevices(conns[ci], peerdevices_upsert(conns[ci].peerdevices, d)))
    } else {
        conns.push(cv_with_peerdevices(cv_bare(d.peer_node_id), seq![d]))
    }
}

/// Removes one peer device, if its connection and volume are present.
pub open spec fn connections_delete_peerdevice(conns: Seq<ConnectionView>, id: int, vol: int) -> Seq<
    ConnectionView,
> {
    if has_connection(conns, id) {
        let ci = connection_idx(conns, id);
        let pds = conns[ci].peerdevices;
        if has_peerdevice(pds, vol) {
            conns.update(ci, cv_with_peerdevices(conns[ci], pds.remove(peerdevice_idx(pds, vol))))
        } else {
            conns
        }
    } else {
        conns
    }
}

/// Inserts or replaces a path within a path list, keyed by its endpoints.
pub open spec fn paths_upsert(paths: Seq<PathView>, p: PathView) -> Seq<PathView> {
    if has_path(paths, p.local, p.peer) {
        paths.update(path_idx(paths, p.local, p.peer), p)
    } else {
        paths.push(p)
    }
}

/// What a path update does to the connection list: the parent connection is
/// created bare if it is missing.
pub open spec fn connections_apply_path(conns: Seq<ConnectionView>, p: PathView) -> Seq<
    ConnectionView,
> {
    if has_connection(conns, p.peer_node_id) {
        let ci = connection_idx(conns, p.peer_node_id);
        conns.update(ci, cv_with_paths(conns[ci], paths_upsert(conns[ci].paths, p)))
    } else {
        conns.push(cv_with_paths(cv_bare(p.peer_node_id), seq![p]))
    }
}

/// Removes one path, if its connection and endpoints are present.
pub open spec fn connections_delete_path(
    conns: Seq<ConnectionView>,
    id: int,
    local: Seq<char>,
    peer: Seq<char>,
) -> Seq<ConnectionView> {
    if has_connection(conns, id) {
        let ci = connection_idx(conns, id);
        let paths = conns[ci].paths;
        if has_path(paths, local, peer) {
            conns.update(ci, cv_with_paths(conns[ci], paths.remove(path_idx(paths, local, peer))))
        } else {
            conns
        }
    } else {
        conns
    }
}

impl Resource {
    /// Inserts the connection, or replaces the one to the same peer node
    /// wholesale, children included.
    pub fn update_connection(&mut self, conn: &Connection)
        requires
            old(self).wf(),
            cv_wf(conn@),
        ensures
            final(self).wf(),
            final(self)@ == rv_with_connections(
                old(self)@,
                connections_upsert(old(self)@.connections, conn@),
            ),
    {
        let ghost conns = old(self)@.connections;
        match find_connection_index(&self.connections, conn.peer_node_id) {
            Some(i) => {
                proof {
                    assert(conns[i as int] == self.connections@[i as int]@);
                    assert(has_connection(conns, conn@.peer_node_id));
                    let k = connection_idx(conns, conn@.peer_node_id);
                    assert(0 <= k < conns.len() && conns[k].peer_node_id == conn@.peer_node_id);
                    assert(k == i);
                }
                self.connections.set(i, conn.clone());
                proof {
                    assert(self@.connections =~= conns.update(i as int, conn@));
                    assert(self@ =~= rv_with_connections(
                        old(self)@,
                        connections_upsert(conns, conn@),
                    ));
                    assert(rv_wf(self@));
                }
            },
            None => {
                self.connections.push(conn.clone());
                proof {
                    assert(self@.connections =~= conns.push(conn@));
                    assert(self@ =~= rv_with_connections(
                        old(self)@,
                        connections_upsert(conns, conn@),
                    ));
                    assert(rv_wf(self@));
                }
            },
        }
    }

    /// Removes the connection to the given peer node, children included.
    pub fn delete_connection(&mut self, peer_node_id: i32)
        requires
            old(self).wf(),
        ensures
            final(self).wf(),
            final(self)@ == rv_with_connections(
                old(self)@,
                connections_delete(old(self)@.connections, peer_node_id as int),
            ),
    {
        let ghost conns = old(self)@.connections;
        match find_connection_index(&self.connections, peer_node_id) {
            Some(i) => {
                proof {
                    assert(conns[i as int] == self.connections@[i as int]@);
                    assert(has_connection(conns, peer_node_id as int));
                    let k = connection_idx(conns, peer_node_id as int);
                    assert(0 <= k < conns.len() && conns[k].peer_node_id == peer_node_id as int);
                    assert(k == i);
                }
                self.connections.remove(i);
                proof {
                    assert(self@.connections =~= conns.remove(i as int));
                    assert(self@ =~= rv_with_connections(
                        old(self)@,
                        connections_delete(conns, peer_node_id as int),
                    ));
                    assert(rv_wf(self@));
                }
            },
            None => {
                proof {
                    assert(self@ =~= rv_with_connections(
                        old(self)@,
                        connections_delete(conns, peer_node_id as int),
                    ));
                }
            },
        }
    }

    /// Inserts or replaces the peer device under its connection; a missing
    /// parent connection is created bare with the matching peer node id.
    pub fn update_peerdevice(&mut self, peerdevice: &PeerDevice)
        requires
            old(self).wf(),
        ensures
            final(self).wf(),
            final(self)@ == rv_with_connections(
                old(self)@,
                connections_apply_peerdevice(old(self)@.connections, peerdevice@),
            ),
    {
        let ghost conns = old(self)@.connections;
        match find_connection_index(&self.connections, peerdevice.peer_node_id) {
            None => {
                let mut conn = Connection::default();
                conn.peer_node_id = peerdevice.peer_node_id;
                conn.peerdevices.push(peerdevice.clone());
                proof {
                    assert(conn@.peerdevices =~= seq![peerdevice@]);
                    assert(conn@ =~= cv_with_peerdevices(
                        cv_bare(peerdevice@.peer_node_id),
                        seq![peerdevice@],
                    ));
                }
                self.connections.push(conn);
                proof {
                    assert(self@.connections =~= connections_apply_peerdevice(conns, peerdevice@));
                    assert(self@ =~= rv_with_connections(
                        old(self)@,
                        connections_apply_peerdevice(conns, peerdevice@),
                    ));
                    assert(rv_wf(self@));
                }
            },
            Some(ci) => {
                proof {
                    assert(conns[ci as int] == self.connections@[ci as int]@);
                    assert(has_connection(conns, peerdevice@.peer_node_id));
                    let k = connection_idx(conns, peerdevice@.peer_node_id);
                    assert(0 <= k < conns.len() && conns[k].peer_node_id
                        == peerdevice@.peer_node_id);
                    assert(k == ci);
                }
                let ghost pds = conns[ci as int].peerdevices;
                let mut conn = self.connections[ci].clone();
                match find_peerdevice_index(&conn.peerdevices, peerdevice.volume) {
                    Some(pi) => {
                        proof {
                            assert(pds[pi as int] == conn.peerdevices@[pi as int]@);
                            assert(has_peerdevice(pds, peerdevice@.volume));
                            let k = peerdevice_idx(pds, peerdevice@.volume);
                            assert(0 <= k < pds.len() && pds[k].volume == peerdevice@.volume);
                            assert(k == pi);
                        }
                        conn.peerdevices.set(pi, peerdevice.clone());
                        proof {
                            assert(conn@.peerdevices =~= peerdevices_upsert(pds, peerdevice@));
                        }
                    },
                    None => {
                        conn.peerdevices.push(peerdevice.clone());
                        proof {
                            assert(conn@.peerdevices =~= peerdevices_upsert(pds, peerdevice@));
                        }
                    },
                }
                proof {
                    assert(conn@ =~= cv_with_peerdevices(
                        conns[ci as int],
                        peerdevices_upsert(pds, peerdevice@),
                    ));
                }
                self.connections.set(ci, conn);
                proof {
                    assert(self@.connections =~= connections_apply_peerdevice(conns, peerdevice@));
                    assert(self@ =~= rv_with_connections(
                        old(self)@,
                        connections_apply_peerdevice(conns, peerdevice@),
                    ));
                    assert(rv_wf(self@));
                }
            },
        }
    }

    /// Removes one peer device; siblings and the connection itself stay.
    pub fn delete_peerdevice(&mut self, peer_node_id: i32, peerdevice_volume_id: i32)
        requires
            old(self).wf(),
        ensures
            final(self).wf(),
            final(self)@ == rv_with_connections(
                old(self)@,
                connections_delete_peerdevice(
                    old(self)@.connections,
                    peer_node_id as int,
                    peerdevice_volume_id as int,
                ),
            ),
    {
        let ghost conns = old(self)@.connections;
        match find_connection_index(&self.connections, peer_node_id) {
            None => {
                proof {
                    assert(self@ =~= rv_with_connections(
                        old(self)@,
                        connections_delete_peerdevice(
                            conns,
                            peer_node_id as int,
                            peerdevice_volume_id as int,
                        ),
                    ));
                }
            },
            Some(ci) => {
                proof {
                    assert(conns[ci as int] == self.connections@[ci as int]@);
                    assert(has_connection(conns, peer_node_id as int));
                    let k = connection_idx(conns, peer_node_id as int);
                    assert(0 <= k < conns.len() && conns[k].peer_node_id == peer_node_id as int);
                    assert(k == ci);
                }
                let ghost pds = conns[ci as int].peerdevices;
                let mut conn = self.connections[ci].clone();
                match find_peerdevice_index(&conn.peerdevices, peerdevice_volume_id) {
                    Some(pi) => {
                        proof {
                            assert(pds[pi as int] == conn.peerdevices@[pi as int]@);
                            assert(has_peerdevice(pds, peerdevice_volume_id as int));
                            let k = peerdevice_idx(pds, peerdevice_volume_id as int);
                            assert(0 <= k < pds.len() && pds[k].volume
                                == peerdevice_volume_id as int);
                            assert(k == pi);
                        }
                        conn.peerdevices.remove(pi);
                        proof {
                            assert(conn@.peerdevices =~= pds.remove(
                                peerdevice_idx(pds, peerdevice_volume_id as int),
                            ));
                            assert(conn@ =~= cv_with_peerdevices(
                                conns[ci as int],
                                pds.remove(peerdevice_idx(pds, peerdevice_volume_id as int)),
                            ));
                        }
                        self.connections.set(ci, conn);
                        proof {
                            assert(self@.connections =~= connections_delete_peerdevice(
                                conns,
                                peer_node_id as int,
                                peerdevice_volume_id as int,
                            ));
                            assert(self@ =~= rv_with_connections(
                                old(self)@,
                                connections_delete_peerdevice(
                                    conns,
                                    peer_node_id as int,
                                    peerdevice_volume_id as int,
                                ),
                            ));
                            assert(rv_wf(self@));
                        }
                    },
                    None => {
                        let _ = conn;
                        proof {
                            assert(self@ =~= rv_with_connections(
                                old(self)@,
                                connections_delete_peerdevice(
                                    conns,
                                    peer_node_id as int,
                                    peerdevice_volume_id as int,
                                ),
                            ));
                        }
                    },
                }
            },
        }
    }

    /// Applies a peer device event: destroy removes, anything else inserts or
    /// replaces; a missing parent connection is created bare.
    pub fn update_or_delete_peerdevice(&mut self, et: &EventType, peerdevice: &PeerDevice)
        requires
            old(self).wf(),
        ensures
            final(self).wf(),
            final(self)@ == rv_with_connections(
                old(self)@,
                if *et == EventType::Destroy {
                    connections_delete_peerdevice(
                        old(self)@.connections,
                        peerdevice@.peer_node_id,
                        peerdevice@.volume,
                    )
                } else {
                    connections_apply_peerdevice(old(self)@.connections, peerdevice@)
                },
            ),
    {
        if *et == EventType::Destroy {
            self.delete_peerdevice(peerdevice.peer_node_id, peerdevice.volume);
        } else {
            self.update_peerdevice(peerdevice);
        }
    }

    /// Inserts or replaces the path under its connection; a missing parent
    /// connection is created bare with the matching peer node id.
    pub fn update_path(&mut self, path: &Path)
        requires
            old(self).wf(),
        ensures
            final(self).wf(),
            final(self)@ == rv_with_connections(
                old(self)@,
                connections_apply_path(old(self)@.connections, path@),
            ),
    {
        let ghost conns = old(self)@.connections;
        match find_connection_index(&self.connections, path.peer_node_id) {
            None => {
                let mut conn = Connection::default();
                conn.peer_node_id = path.peer_node_id;
                conn.paths.push(path.clone());
                proof {
                    assert(conn@.paths =~= seq![path@]);
                    assert(conn@ =~= cv_with_paths(cv_bare(path@.peer_node_id), seq![path@]));
                }
                self.connections.push(conn);
                proof {
                    assert(self@.connections =~= connections_apply_path(conns, path@));
                    assert(self@ =~= rv_with_connections(
                        old(self)@,
                        connections_apply_path(conns, path@),
                    ));
                    assert(rv_wf(self@));
                }
            },
            Some(ci) => {
                proof {
                    assert(conns[ci as int] == self.connections@[ci as int]@);
                    assert(has_connection(conns, path@.peer_node_id));
                    let k = connection_idx(conns, path@.peer_node_id);
                    assert(0 <= k < conns.len() && conns[k].peer_node_id == path@.peer_node_id);
                    assert(k == ci);
                }
                let ghost paths = conns[ci as int].paths;
                let mut conn = self.connections[ci].clone();
                match find_path_index(&conn.paths, path.local.as_str(), path.peer.as_str()) {
                    Some(pi) => {
                        proof {
                            assert(paths[pi as int] == conn.paths@[pi as int]@);
                            assert(has_path(paths, path@.local, path@.peer));
                            let k = path_idx(paths, path@.local, path@.peer);
                            assert(0 <= k < paths.len() && paths[k].local == path@.local
                                && paths[k].peer == path@.peer);
                            assert(k == pi);
                        }
                        conn.paths.set(pi, path.clone());
                        proof {
                            assert(conn@.paths =~= paths_upsert(paths, path@));
                        }
                    },
                    None => {
                        conn.paths.push(path.clone());
                        proof {
                            assert(conn@.paths =~= paths_upsert(paths, path@));
                        }
                    },
                }
                proof {
                    assert(conn@ =~= cv_with_paths(conns[ci as int], paths_upsert(paths, path@)));
                }
                self.connections.set(ci, conn);
                proof {
                    assert(self@.connections =~= connections_apply_path(conns, path@));
                    assert(self@ =~= rv_with_connections(
                        old(self)@,
                        connections_apply_path(conns, path@),
                    ));
                    assert(rv_wf(self@));
                }
            },
        }
    }

    /// Removes one path; siblings and the connection itself stay.
    pub fn delete_path(&mut self, peer_node_id: i32, local: &str, peer: &str)
        requires
            old(self).wf(),
        ensures
            final(self).wf(),
            final(self)@ == rv_with_connections(
                old(self)@,
                connections_delete_path(old(self)@.connections, peer_node_id as int, local@, peer@),
            ),
    {
        let ghost conns = old(self)@.connections;
        match find_connection_index(&self.connections, peer_node_id) {
            None => {
                proof {
                    assert(self@ =~= rv_with_connections(
                        old(self)@,
                        connections_delete_path(conns, peer_node_id as int, local@, peer@),
                    ));
                }
            },
            Some(ci) => {
                proof {
                    assert(conns[ci as int] == self.connections@[ci as int]@);
                    assert(has_connection(conns, peer_node_id as int));
                    let k = connection_idx(conns, peer_node_id as int);
                    assert(0 <= k < conns.len() && conns[k].peer_node_id == peer_node_id as int);
                    assert(k == ci);
                }
                let ghost paths = conns[ci as int].paths;
                let mut conn = self.connections[ci].clone();
                match find_path_index(&conn.paths, local, peer) {
                    Some(pi) => {
                        proof {
                            assert(paths[pi as int] == conn.paths@[pi as int]@);
                            assert(has_path(paths, local@, peer@));
                            let k = path_idx(paths, local@, peer@);
                            assert(0 <= k < paths.len() && paths[k].local == local@
                                && paths[k].peer == peer@);
                            assert(k == pi);
                        }
                        conn.paths.remove(pi);
                        proof {
                            assert(conn@.paths =~= paths.remove(path_idx(paths, local@, peer@)));
                            assert(conn@ =~= cv_with_paths(
                                conns[ci as int],
                                paths.remove(path_idx(paths, local@, peer@)),
                            ));
                        }
                        self.connections.set(ci, conn);
                        proof {
                            assert(self@.connections =~= connections_delete_path(
                                conns,
                                peer_node_id as int,
                                local@,
                                peer@,
                            ));
                            assert(self@ =~= rv_with_connections(
                                old(self)@,
                                connections_delete_path(conns, peer_node_id as int, local@, peer@),
                            ));
                            assert(rv_wf(self@));
                        }
                    },
                    None => {
                        let _ = conn;
                        proof {
                            assert(self@ =~= rv_with_connections(
                                old(self)@,
                                connections_delete_path(conns, peer_node_id as int, local@, peer@),
                            ));
                        }
                    },
                }
            },
        }
    }

    /// Applies a path event: destroy removes, anything else inserts or
    /// replaces; a missing parent connection is created bare.
    pub fn update_or_delete_path(&mut self, et: &EventType, path: &Path)
        requires
            old(self).wf(),
        ensures
            final(self).wf(),
            final(self)@ == rv_with_connections(
                old(self)@,
                if *et == EventType::Destroy {
                    connections_delete_path(
                        old(self)@.connections,
                        path@.peer_node_id,
                        path@.local,
                        path@.peer,
                    )
                } else {
                    connections_apply_path(old(self)@.connections, path@)
                },
            ),
    {
        if *et == EventType::Destroy {
            self.delete_path(path.peer_node_id, path.local.as_str(), path.peer.as_str());
        } else {
            self.update_path(path);
        }
    }
}

} // verus!

verus! {

/// A resource-level change update: old and new projection plus a deep copy of
/// the resource after the event.
#[derive(Debug)]
pub struct ResourcePluginUpdate {
    pub event_type: EventType,
    pub resource_name: String,
    pub old: ResourceUpdateState,
    pub new: ResourceUpdateState,
    pub resource: Resource,
}

/// A device-level change update.
#[derive(Debug)]
pub struct DevicePluginUpdate {
    pub event_type: EventType,
    pub resource_name: String,
    pub volume: i32,
    pub old: DeviceUpdateState,
    pub new: DeviceUpdateState,
    pub resource: Resource,
}

/// A peer-device-level change update.
#[derive(Debug)]
pub struct PeerDevicePluginUpdate {
    pub event_type: EventType,
    pub resource_name: String,
    pub volume: i32,
    pub peer_node_id: i32,
    pub old: PeerDeviceUpdateState,
    pub new: PeerDeviceUpdateState,
    pub resource: Resource,
}

/// A connection-level change update.
#[derive(Debug)]
pub struct ConnectionPluginUpdate {
    pub event_type: EventType,
    pub resource_name: String,
    pub peer_node_id: i32,
    pub old: ConnectionUpdateState,
    pub new: ConnectionUpdateState,
    pub resource: Resource,
}

/// The value delivered to plugins: a meaningful change, or, for plugins that
/// want every event, the bare resource after the event.
#[derive(Debug)]
pub enum PluginUpdate {
    Resource(ResourcePluginUpdate),
    Device(DevicePluginUpdate),
    PeerDevice(PeerDevicePluginUpdate),
    Connection(ConnectionPluginUpdate),
    ResourceOnly(EventType, Resource),
}

/// What a connection event does to the connection list when children are
/// preserved: a change merges the incoming fields over the existing children,
/// a destroy removes the connection, and a first sighting is inserted as is.
pub open spec fn connections_apply_merge(
    conns: Seq<ConnectionView>,
    et: EventType,
    c: ConnectionView,
) -> Seq<ConnectionView> {
    if has_connection(conns, c.peer_node_id) {
        let ci = connection_idx(conns, c.peer_node_id);
        if et == EventType::Destroy {
            conns.remove(ci)
        } else {
            conns.update(ci, cv_merge(c, conns[ci]))
        }
    } else {
        if et == EventType::Destroy {
            conns
        } else {
            conns.push(c)
        }
    }
}

impl Resource {
    /// Applies a resource event and returns the change update, suppressed
    /// when the projection did not move and the event is no destroy. A
    /// destroy leaves the fields alone; the owner drops the whole resource.
    pub fn get_resource_update(&mut self, et: &EventType, update: &Resource) -> (r: Option<
        PluginUpdate,
    >)
        requires
            old(self).wf(),
        ensures
            final(self).wf(),
            ({
                let r0 = old(self)@;
                let r1 = final(self)@;
                let o = proj_resource(r0);
                let n = proj_resource(update@);
                &&& (*et == EventType::Destroy ==> r1 == r0)
                &&& (*et != EventType::Destroy ==> r1 == rv_updated(r0, update@))
                &&& if o == n && *et != EventType::Destroy {
                    r is None
                } else {
                    r matches Some(PluginUpdate::Resource(u)) && u.event_type == *et
                        && u.resource_name@ == r0.name && u.old == o && u.new == n && u.resource@
                        == r1
                }
            }),
    {
        let n = ResourceUpdateState {
            may_promote: update.may_promote,
            promotion_score: update.promotion_score,
            role: update.role,
        };
        let o = ResourceUpdateState {
            may_promote: self.may_promote,
            promotion_score: self.promotion_score,
            role: self.role,
        };
        if !(*et == EventType::Destroy) {
            self.update(update);
        }
        if o == n && !(*et == EventType::Destroy) {
            return None;
        }
        Some(
            PluginUpdate::Resource(
                ResourcePluginUpdate {
                    event_type: *et,
                    resource_name: self.name.clone(),
                    old: o,
                    new: n,
                    resource: self.clone(),
                },
            ),
        )
    }

    /// Applies a device event and returns the change update, suppressed when
    /// the projection did not move and the event is no destroy.
    pub fn get_device_update(&mut self, et: &EventType, device: &Device) -> (r: Option<
        PluginUpdate,
    >)
        requires
            old(self).wf(),
        ensures
            final(self).wf(),
            ({
                let r0 = old(self)@;
                let r1 = final(self)@;
                let vol = device@.volume;
                let had = has_device(r0.devices, vol);
                let o = if had {
                    proj_device(device_at(r0.devices, vol))
                } else {
                    device_update_default()
                };
                let n = proj_device(device@);
                &&& r1 == rv_with_devices(r0, devices_apply(r0.devices, *et, device@))
                &&& if (had && o == n && *et != EventType::Destroy) || (!had && *et
                    == EventType::Destroy) {
                    r is None
                } else {
                    r matches Some(PluginUpdate::Device(u)) && u.event_type == *et
                        && u.resource_name@ == r0.name && u.volume as int == vol && u.old == o
                        && u.new == n && u.resource@ == r1
                }
            }),
    {
        let ghost r0 = self@;
        let n = DeviceUpdateState {
            disk_state: device.disk_state,
            client: device.client,
            quorum: device.quorum,
            size: device.size,
        };
        let o = match self.get_device(device.volume) {
            Some(existing) => {
                proof {
                    let k = device_idx(r0.devices, device@.volume);
                    assert(0 <= k < r0.devices.len() && r0.devices[k].volume == device@.volume);
                    assert(existing@ == device_at(r0.devices, device@.volume));
                }
                Some(
                    DeviceUpdateState {
                        disk_state: existing.disk_state,
                        client: existing.client,
                        quorum: existing.quorum,
                        size: existing.size,
                    },
                )
            },
            None => None,
        };
        match o {
            Some(o) => {
                self.update_or_delete_device(et, device);
                if o == n && !(*et == EventType::Destroy) {
                    return None;
                }
                Some(
                    PluginUpdate::Device(
                        DevicePluginUpdate {
                            event_type: *et,
                            resource_name: self.name.clone(),
                            volume: device.volume,
                            old: o,
                            new: n,
                            resource: self.clone(),
                        },
                    ),
                )
            },
            None => {
                self.update_or_delete_device(et, device);
                if *et == EventType::Destroy {
                    return None;
                }
                Some(
                    PluginUpdate::Device(
                        DevicePluginUpdate {
                            event_type: *et,
                            resource_name: self.name.clone(),
                            volume: device.volume,
                            old: DeviceUpdateState::default(),
                            new: n,
                            resource: self.clone(),
                        },
                    ),
                )
            },
        }
    }

    /// Applies a connection event and returns the change update. An update to
    /// a known connection keeps its peer devices and paths: those arrive
    /// through their own events.
    pub fn get_connection_update(&mut self, et: &EventType, conn: &Connection) -> (r: Option<
        PluginUpdate,
    >)
        requires
            old(self).wf(),
            cv_wf(conn@),
        ensures
            final(self).wf(),
            ({
                let r0 = old(self)@;
                let r1 = final(self)@;
                let id = conn@.peer_node_id;
                let had = has_connection(r0.connections, id);
                let o = if had {
                    proj_connection(connection_at(r0.connections, id))
                } else {
                    connection_update_default()
                };
                let n = proj_connection(conn@);
                &&& r1 == rv_with_connections(
                    r0,
                    connections_apply_merge(r0.connections, *et, conn@),
                )
                &&& if (had && o == n && *et != EventType::Destroy) || (!had && *et
                    == EventType::Destroy) {
                    r is None
                } else {
                    r matches Some(PluginUpdate::Connection(u)) && u.event_type == *et
                        && u.resource_name@ == r0.name && u.peer_node_id as int == id && u.old@ == o
                        && u.new@ == n && u.resource@ == r1
                }
            }),
    {
        let ghost r0 = self@;
        let ghost conns = r0.connections;
        let n = ConnectionUpdateState {
            congested: conn.congested,
            conn_name: conn.conn_name.clone(),
            connection_state: conn.connection,
            peer_role: conn.peer_role,
        };
        match find_connection_index(&self.connections, conn.peer_node_id) {
            Some(ci) => {
                proof {
                    assert(conns[ci as int] == self.connections@[ci as int]@);
                    assert(has_connection(conns, conn@.peer_node_id));
                    let k = connection_idx(conns, conn@.peer_node_id);
                    assert(0 <= k < conns.len() && conns[k].peer_node_id == conn@.peer_node_id);
                    assert(k == ci);
                }
                let existing = &self.connections[ci];
                let o = ConnectionUpdateState {
                    congested: existing.congested,
                    conn_name: existing.conn_name.clone(),
                    connection_state: existing.connection,
                    peer_role: existing.peer_role,
                };
                let mut merged = conn.clone();
                merged.peerdevices = clone_peerdevices(&existing.peerdevices);
                merged.paths = clone_paths(&existing.paths);
                proof {
                    assert(merged@ =~= cv_merge(conn@, conns[ci as int]));
                }
                if *et == EventType::Destroy {
                    self.connections.remove(ci);
                    proof {
                        assert(self@.connections =~= conns.remove(ci as int));
                        assert(self@ =~= rv_with_connections(
                            r0,
                            connections_apply_merge(conns, *et, conn@),
                        ));
                        assert(rv_wf(self@));
                    }
                } else {
                    self.connections.set(ci, merged);
                    proof {
                        assert(self@.connections =~= conns.update(
                            ci as int,
                            cv_merge(conn@, conns[ci as int]),
                        ));
                        assert(self@ =~= rv_with_connections(
                            r0,
                            connections_apply_merge(conns, *et, conn@),
                        ));
                        assert(rv_wf(self@));
                    }
                }
                if o == n && !(*et == EventType::Destroy) {
                    return None;
                }
                Some(
                    PluginUpdate::Connection(
                        ConnectionPluginUpdate {
                            event_type: *et,
                            resource_name: self.name.clone(),
                            peer_node_id: conn.peer_node_id,
                            old: o,
                            new: n,
                            resource: self.clone(),
                        },
                    ),
                )
            },
            None => {
                if *et == EventType::Destroy {
                    return None;
                }
                self.connections.push(conn.clone());
                proof {
                    assert(self@.connections =~= conns.push(conn@));
                    assert(self@ =~= rv_with_connections(
                        r0,
                        connections_apply_merge(conns, *et, conn@),
                    ));
                    assert(rv_wf(self@));
                }
                Some(
                    PluginUpdate::Connection(
                        ConnectionPluginUpdate {
                            event_type: *et,
                            resource_name: self.name.clone(),
                            peer_node_id: conn.peer_node_id,
                            old: ConnectionUpdateState::default(),
                            new: n,
                            resource: self.clone(),
                        },
                    ),
                )
            },
        }
    }

    /// Applies a peer device event and returns the change update, suppressed
    /// when the projection did not move and the event is no destroy. The
    /// parent connection is created bare when it has not been seen yet.
    pub fn get_peerdevice_update(&mut self, et: &EventType, peerdevice: &PeerDevice) -> (r: Option<
        PluginUpdate,
    >)
        requires
            old(self).wf(),
        ensures
            final(self).wf(),
            ({
                let r0 = old(self)@;
                let r1 = final(self)@;
                let id = peerdevice@.peer_node_id;
                let vol = peerdevice@.volume;
                let had = has_connection(r0.connections, id) && has_peerdevice(
                    connection_at(r0.connections, id).peerdevices,
                    vol,
                );
                let o = if had {
                    proj_peerdevice(
                        peerdevice_at(connection_at(r0.connections, id).peerdevices, vol),
                    )
                } else {
                    peerdevice_update_default()
                };
                let n = proj_peerdevice(peerdevice@);
                &&& r1 == rv_with_connections(
                    r0,
                    if *et == EventType::Destroy {
                        connections_delete_peerdevice(r0.connections, id, vol)
                    } else {
                        connections_apply_peerdevice(r0.connections, peerdevice@)
                    },
                )
                &&& if (had && o == n && *et != EventType::Destroy) || (!had && *et
                    == EventType::Destroy) {
                    r is None
                } else {
                    r matches Some(PluginUpdate::PeerDevice(u)) && u.event_type == *et
                        && u.resource_name@ == r0.name && u.volume as int == vol
                        && u.peer_node_id as int == id && u.old == o && u.new == n && u.resource@
                        == r1
                }
            }),
    {
        let ghost r0 = self@;
        let n = PeerDeviceUpdateState {
            peer_client: peerdevice.peer_client,
            peer_disk_state: peerdevice.peer_disk_state,
            replication_state: peerdevice.replication_state,
            resync_suspended: peerdevice.resync_suspended,
        };
        let o = match self.get_peerdevice(peerdevice.peer_node_id, peerdevice.volume) {
            Some(existing) => Some(
                PeerDeviceUpdateState {
                    peer_client: existing.peer_client,
                    peer_disk_state: existing.peer_disk_state,
                    replication_state: existing.replication_state,
                    resync_suspended: existing.resync_suspended,
                },
            ),
            None => None,
        };
        match o {
            Some(o) => {
                self.update_or_delete_peerdevice(et, peerdevice);
                if o == n && !(*et == EventType::Destroy) {
                    return None;
                }
                Some(
                    PluginUpdate::PeerDevice(
                        PeerDevicePluginUpdate {
                            event_type: *et,
                            resource_name: self.name.clone(),
                            volume: peerdevice.volume,
                            peer_node_id: peerdevice.peer_node_id,
                            old: o,
                            new: n,
                            resource: self.clone(),
                        },
                    ),
                )
            },
            None => {
                self.update_or_delete_peerdevice(et, peerdevice);
                if *et == EventType::Destroy {
                    return None;
                }
                Some(
                    PluginUpdate::PeerDevice(
                        PeerDevicePluginUpdate {
                            event_type: *et,
                            resource_name: self.name.clone(),
                            volume: peerdevice.volume,
                            peer_node_id: peerdevice.peer_node_id,
                            old: PeerDeviceUpdateState::default(),
                            new: n,
                            resource: self.clone(),
                        },
                    ),
                )
            },
        }
    }

    /// Applies a path event. Paths drive no plugin policy, so no change
    /// update is returned; the path set on the parent connection is kept up
    /// to date.
    pub fn get_path_update(&mut self, et: &EventType, path: &Path) -> (r: Option<PluginUpdate>)
        requires
            old(self).wf(),
        ensures
            final(self).wf(),
            r is None,
            final(self)@ == rv_with_connections(
                old(self)@,
                if *et == EventType::Destroy {
                    connections_delete_path(
                        old(self)@.connections,
                        path@.peer_node_id,
                        path@.local,
                        path@.peer,
                    )
                } else {
                    connections_apply_path(old(self)@.connections, path@)
                },
            ),
    {
        self.update_or_delete_path(et, path);
        None
    }
}

} // verus!

verus! {

use crate::strutil::{bool_str, bool_to_string, dec_rep_signed, i32_to_string};

/// The display form of a backing device value.
pub open spec fn backing_dev_str(b: Option<Seq<char>>) -> Seq<char> {
    match b {
        Some(s) => s,
        None => "none"@,
    }
}

/// The environment a resource change update hands to user-mode helpers, as
/// key-value pairs in a fixed order.
pub open spec fn resource_env_spec(u: ResourcePluginUpdate) -> Seq<(Seq<char>, Seq<char>)> {
    seq![
        ("DRBD_RES_NAME"@, u.resource_name@),
        ("DRBD_OLD_ROLE"@, u.old.role.spec_text()),
        ("DRBD_NEW_ROLE"@, u.new.role.spec_text()),
        ("DRBD_OLD_MAY_PROMOTE"@, bool_str(u.old.may_promote)),
        ("DRBD_NEW_MAY_PROMOTE"@, bool_str(u.new.may_promote)),
    ]
}

impl ResourcePluginUpdate {
    /// Key-value pairs describing this update for a spawned handler.
    pub fn get_env(&self) -> (r: Vec<(String, String)>)
        ensures
            r.deep_view() == resource_env_spec(*self),
    {
        let mut env: Vec<(String, String)> = Vec::new();
        env.push((str_to_string("DRBD_RES_NAME"), self.resource_name.clone()));
        env.push((str_to_string("DRBD_OLD_ROLE"), str_to_string(self.old.role.text())));
        env.push((str_to_string("DRBD_NEW_ROLE"), str_to_string(self.new.role.text())));
        env.push((str_to_string("DRBD_OLD_MAY_PROMOTE"), bool_to_string(self.old.may_promote)));
        env.push((str_to_string("DRBD_NEW_MAY_PROMOTE"), bool_to_string(self.new.may_promote)));
        proof {
            assert(env.deep_view() =~= resource_env_spec(*self));
        }
        env
    }
}

/// The optional device block of a device or peer device environment: present
/// when the resource still carries the volume.
pub open spec fn device_block_env_spec(r: ResourceView, volume: int) -> Seq<(Seq<char>, Seq<char>)> {
    if has_device(r.devices, volume) {
        let d = device_at(r.devices, volume);
        seq![
            ("DRBD_MINOR"@, dec_rep_signed(d.minor)),
            ("DRBD_MINOR_"@ + dec_rep_signed(volume), dec_rep_signed(d.minor)),
            ("DRBD_BACKING_DEV"@, backing_dev_str(d.backing_dev)),
            ("DRBD_BACKING_DEV_"@ + dec_rep_signed(volume), backing_dev_str(d.backing_dev)),
        ]
    } else {
        Seq::empty()
    }
}

/// The environment a device change update hands to user-mode helpers.
pub open spec fn device_env_spec(u: DevicePluginUpdate) -> Seq<(Seq<char>, Seq<char>)> {
    seq![("DRBD_RES_NAME"@, u.resource_name@)] + device_block_env_spec(u.resource@, u.volume as int)
        + seq![
        ("DRBD_VOLUME"@, dec_rep_signed(u.volume as int)),
        ("DRBD_OLD_DISK_STATE"@, u.old.disk_state.spec_text()),
        ("DRBD_NEW_DISK_STATE"@, u.new.disk_state.spec_text()),
        ("DRBD_OLD_CLIENT"@, bool_str(u.old.client)),
        ("DRBD_NEW_CLIENT"@, bool_str(u.new.client)),
        ("DRBD_OLD_QUORUM"@, bool_str(u.old.quorum)),
        ("DRBD_NEW_QUORUM"@, bool_str(u.new.quorum)),
    ]
}

/// Pushes the device block for `volume` of `resource`, if present.
fn push_device_block(
    env: &mut Vec<(String, String)>,
    resource: &Resource,
    volume: i32,
)
    requires
        resource.wf(),
    ensures
        final(env).deep_view() == old(env).deep_view() + device_block_env_spec(
            resource@,
            volume as int,
        ),
{
    let ghost before = env.deep_view();
    match resource.get_device(volume) {
        Some(device) => {
            proof {
                let k = device_idx(resource@.devices, volume as int);
                assert(0 <= k < resource@.devices.len() && resource@.devices[k].volume
                    == volume as int);
                assert(device@ == device_at(resource@.devices, volume as int));
            }
            let minor = i32_to_string(device.minor);
            let volume_s = i32_to_string(volume);
            env.push((str_to_string("DRBD_MINOR"), minor.clone()));
            let mut minor_key = str_to_string("DRBD_MINOR_");
            minor_key.append(volume_s.as_str());
            env.push((minor_key, minor));
            let bd = device.backing_dev.text();
            env.push((str_to_string("DRBD_BACKING_DEV"), bd.clone()));
            let mut bd_key = str_to_string("DRBD_BACKING_DEV_");
            bd_key.append(volume_s.as_str());
            env.push((bd_key, bd));
            proof {
                assert(env.deep_view() =~= before + device_block_env_spec(
                    resource@,
                    volume as int,
                ));
            }
        },
        None => {
            proof {
                assert(env.deep_view() =~= before + device_block_env_spec(
                    resource@,
                    volume as int,
                ));
            }
        },
    }
}

impl DevicePluginUpdate {
    /// Key-value pairs describing this update for a spawned handler.
    pub fn get_env(&self) -> (r: Vec<(String, String)>)
        requires
            self.resource.wf(),
        ensures
            r.deep_view() == device_env_spec(*self),
    {
        let mut env: Vec<(String, String)> = Vec::new();
        env.push((str_to_string("DRBD_RES_NAME"), self.resource_name.clone()));
        proof {
            assert(env.deep_view() =~= seq![("DRBD_RES_NAME"@, self.resource_name@)]);
        }
        push_device_block(&mut env, &self.resource, self.volume);
        let ghost mid = env.deep_view();
        env.push((str_to_string("DRBD_VOLUME"), i32_to_string(self.volume)));
        env.push((str_to_string("DRBD_OLD_DISK_STATE"), str_to_string(self.old.disk_state.text())));
        env.push((str_to_string("DRBD_NEW_DISK_STATE"), str_to_string(self.new.disk_state.text())));
        env.push((str_to_string("DRBD_OLD_CLIENT"), bool_to_string(self.old.client)));
        env.push((str_to_string("DRBD_NEW_CLIENT"), bool_to_string(self.new.client)));
        env.push((str_to_string("DRBD_OLD_QUORUM"), bool_to_string(self.old.quorum)));
        env.push((str_to_string("DRBD_NEW_QUORUM"), bool_to_string(self.new.quorum)));
        proof {
            let tail = seq![
                ("DRBD_VOLUME"@, dec_rep_signed(self.volume as int)),
                ("DRBD_OLD_DISK_STATE"@, self.old.disk_state.spec_text()),
                ("DRBD_NEW_DISK_STATE"@, self.new.disk_state.spec_text()),
                ("DRBD_OLD_CLIENT"@, bool_str(self.old.client)),
                ("DRBD_NEW_CLIENT"@, bool_str(self.new.client)),
                ("DRBD_OLD_QUORUM"@, bool_str(self.old.quorum)),
                ("DRBD_NEW_QUORUM"@, bool_str(self.new.quorum)),
            ];
            assert(env.deep_view() =~= mid + tail);
            assert(mid + tail =~= device_env_spec(*self));
            assert(env.deep_view() =~= device_env_spec(*self));
        }
        env
    }
}

/// The environment a peer device change update hands to user-mode helpers.
pub open spec fn peerdevice_env_spec(u: PeerDevicePluginUpdate) -> Seq<(Seq<char>, Seq<char>)> {
    seq![("DRBD_RES_NAME"@, u.resource_name@)] + device_block_env_spec(u.resource@, u.volume as int)
        + seq![
        ("DRBD_PEER_NODE_ID"@, dec_rep_signed(u.peer_node_id as int)),
        ("DRBD_OLD_PEER_REPLICATION_STATE"@, u.old.replication_state.spec_text()),
        ("DRBD_NEW_PEER_REPLICATION_STATE"@, u.new.replication_state.spec_text()),
        ("DRBD_OLD_PEER_DISK_STATE"@, u.old.peer_disk_state.spec_text()),
        ("DRBD_NEW_PEER_DISK_STATE"@, u.new.peer_disk_state.spec_text()),
        ("DRBD_OLD_PEER_CLIENT"@, bool_str(u.old.peer_client)),
        ("DRBD_NEW_PEER_CLIENT"@, bool_str(u.new.peer_client)),
        ("DRBD_OLD_PEER_RESYNC_SUSPENDED"@, bool_str(u.old.resync_suspended)),
        ("DRBD_NEW_PEER_RESYNC_SUSPENDED"@, bool_str(u.new.resync_suspended)),
    ]
}

impl PeerDevicePluginUpdate {
    /// Key-value pairs describing this update for a spawned handler.
    pub fn get_env(&self) -> (r: Vec<(String, String)>)
        requires
            self.resource.wf(),
        ensures
            r.deep_view() == peerdevice_env_spec(*self),
    {
        let mut env: Vec<(String, String)> = Vec::new();
        env.push((str_to_string("DRBD_RES_NAME"), self.resource_name.clone()));
        proof {
            assert(env.deep_view() =~= seq![("DRBD_RES_NAME"@, self.resource_name@)]);
        }
        push_device_block(&mut env, &self.resource, self.volume);
        let ghost mid = env.deep_view();
        env.push((str_to_string("DRBD_PEER_NODE_ID"), i32_to_string(self.peer_node_id)));
        env.push((
            str_to_string("DRBD_OLD_PEER_REPLICATION_STATE"),
            str_to_string(self.old.replication_state.text()),
        ));
        env.push((
            str_to_string("DRBD_NEW_PEER_REPLICATION_STATE"),
            str_to_string(self.new.replication_state.text()),
        ));
        env.push((
            str_to_string("DRBD_OLD_PEER_DISK_STATE"),
            str_to_string(self.old.peer_disk_state.text()),
        ));
        env.push((
            str_to_string("DRBD_NEW_PEER_DISK_STATE"),
            str_to_string(self.new.peer_disk_state.text()),
        ));
        env.push((str_to_string("DRBD_OLD_PEER_CLIENT"), bool_to_string(self.old.peer_client)));
        env.push((str_to_string("DRBD_NEW_PEER_CLIENT"), bool_to_string(self.new.peer_client)));
        env.push((
            str_to_string("DRBD_OLD_PEER_RESYNC_SUSPENDED"),
            bool_to_string(self.old.resync_suspended),
        ));
        env.push((
            str_to_string("DRBD_NEW_PEER_RESYNC_SUSPENDED"),
            bool_to_string(self.new.resync_suspended),
        ));
        proof {
            let tail = seq![
                ("DRBD_PEER_NODE_ID"@, dec_rep_signed(self.peer_node_id as int)),
                ("DRBD_OLD_PEER_REPLICATION_STATE"@, self.old.replication_state.spec_text()),
                ("DRBD_NEW_PEER_REPLICATION_STATE"@, self.new.replication_state.spec_text()),
                ("DRBD_OLD_PEER_DISK_STATE"@, self.old.peer_disk_state.spec_text()),
                ("DRBD_NEW_PEER_DISK_STATE"@, self.new.peer_disk_state.spec_text()),
                ("DRBD_OLD_PEER_CLIENT"@, bool_str(self.old.peer_client)),
                ("DRBD_NEW_PEER_CLIENT"@, bool_str(self.new.peer_client)),
                ("DRBD_OLD_PEER_RESYNC_SUSPENDED"@, bool_str(self.old.resync_suspended)),
                ("DRBD_NEW_PEER_RESYNC_SUSPENDED"@, bool_str(self.new.resync_suspended)),
            ];
            assert(env.deep_view() =~= mid + tail);
            assert(mid + tail =~= peerdevice_env_spec(*self));
            assert(env.deep_view() =~= peerdevice_env_spec(*self));
        }
        env
    }
}

/// The environment a connection change update hands to user-mode helpers.
pub open spec fn connection_env_spec(u: ConnectionPluginUpdate) -> Seq<(Seq<char>, Seq<char>)> {
    seq![
        ("DRBD_RES_NAME"@, u.resource_name@),
        ("DRBD_PEER_NODE_ID"@, dec_rep_signed(u.peer_node_id as int)),
        ("DRBD_CSTATE"@, u.new@.connection_state.spec_text()),
        ("DRBD_OLD_CONN_NAME"@, u.old@.conn_name),
        ("DRBD_NEW_CONN_NAME"@, u.new@.conn_name),
        ("DRBD_OLD_CONN_STATE"@, u.old@.connection_state.spec_text()),
        ("DRBD_NEW_CONN_STATE"@, u.new@.connection_state.spec_text()),
        ("DRBD_OLD_PEER_ROLE"@, u.old@.peer_role.spec_text()),
        ("DRBD_NEW_PEER_ROLE"@, u.new@.peer_role.spec_text()),
    ]
}

impl ConnectionPluginUpdate {
    /// Key-value pairs describing this update for a spawned handler.
    pub fn get_env(&self) -> (r: Vec<(String, String)>)
        ensures
            r.deep_view() == connection_env_spec(*self),
    {
        let mut env: Vec<(String, String)> = Vec::new();
        env.push((str_to_string("DRBD_RES_NAME"), self.resource_name.clone()));
        env.push((str_to_string("DRBD_PEER_NODE_ID"), i32_to_string(self.peer_node_id)));
        env.push((str_to_string("DRBD_CSTATE"), str_to_string(self.new.connection_state.text())));
        env.push((str_to_string("DRBD_OLD_CONN_NAME"), self.old.conn_name.clone()));
        env.push((str_to_string("DRBD_NEW_CONN_NAME"), self.new.conn_name.clone()));
        env.push((
            str_to_string("DRBD_OLD_CONN_STATE"),
            str_to_string(self.old.connection_state.text()),
        ));
        env.push((
            str_to_string("DRBD_NEW_CONN_STATE"),
            str_to_string(self.new.connection_state.text()),
        ));
        env.push((str_to_string("DRBD_OLD_PEER_ROLE"), str_to_string(self.old.peer_role.text())));
        env.push((str_to_string("DRBD_NEW_PEER_ROLE"), str_to_string(self.new.peer_role.text())));
        proof {
            assert(env.deep_view() =~= connection_env_spec(*self));
        }
        env
    }
}

impl PluginUpdate {
    /// The resource snapshot carried by the update, as a view.
    pub open spec fn spec_resource(&self) -> ResourceView {
        match self {
            PluginUpdate::Resource(u) => u.resource@,
            PluginUpdate::Device(u) => u.resource@,
            PluginUpdate::PeerDevice(u) => u.resource@,
            PluginUpdate::Connection(u) => u.resource@,
            PluginUpdate::ResourceOnly(_, r) => r@,
        }
    }

    /// The resource name the update speaks of.
    pub open spec fn spec_name(&self) -> Seq<char> {
        match self {
            PluginUpdate::Resource(u) => u.resource_name@,
            PluginUpdate::Device(u) => u.resource_name@,
            PluginUpdate::PeerDevice(u) => u.resource_name@,
            PluginUpdate::Connection(u) => u.resource_name@,
            PluginUpdate::ResourceOnly(_, r) => r.name@,
        }
    }

    /// The event verb the update carries.
    pub open spec fn spec_event_type(&self) -> EventType {
        match self {
            PluginUpdate::Resource(u) => u.event_type,
            PluginUpdate::Device(u) => u.event_type,
            PluginUpdate::PeerDevice(u) => u.event_type,
            PluginUpdate::Connection(u) => u.event_type,
            PluginUpdate::ResourceOnly(t, _) => *t,
        }
    }

    /// The snapshots carried by updates are well formed.
    pub open spec fn wf(&self) -> bool {
        rv_wf(self.spec_resource())
    }

    /// Whether the update speaks of the named resource.
    pub fn has_name(&self, name: &str) -> (r: bool)
        ensures
            r == (self.spec_name() == name@),
    {
        match self {
            PluginUpdate::Resource(u) => str_eq(u.resource_name.as_str(), name),
            PluginUpdate::Device(u) => str_eq(u.resource_name.as_str(), name),
            PluginUpdate::PeerDevice(u) => str_eq(u.resource_name.as_str(), name),
            PluginUpdate::Connection(u) => str_eq(u.resource_name.as_str(), name),
            PluginUpdate::ResourceOnly(_, r) => str_eq(r.name.as_str(), name),
        }
    }

    /// Whether the update carries the given event verb.
    pub fn has_type(&self, search: &EventType) -> (r: bool)
        ensures
            r == (self.spec_event_type() == *search),
    {
        match self {
            PluginUpdate::Resource(u) => u.event_type == *search,
            PluginUpdate::Device(u) => u.event_type == *search,
            PluginUpdate::PeerDevice(u) => u.event_type == *search,
            PluginUpdate::Connection(u) => u.event_type == *search,
            PluginUpdate::ResourceOnly(t, _) => *t == *search,
        }
    }

    /// The resource name the update speaks of.
    pub fn get_name(&self) -> (r: String)
        ensures
            r@ == self.spec_name(),
    {
        match self {
            PluginUpdate::Resource(u) => u.resource_name.clone(),
            PluginUpdate::Device(u) => u.resource_name.clone(),
            PluginUpdate::PeerDevice(u) => u.resource_name.clone(),
            PluginUpdate::Connection(u) => u.resource_name.clone(),
            PluginUpdate::ResourceOnly(_, r) => r.name.clone(),
        }
    }

    /// The environment for a spawned handler; empty for a bare snapshot.
    pub fn get_env(&self) -> (r: Vec<(String, String)>)
        requires
            self.wf(),
        ensures
            r.deep_view() == match self {
                PluginUpdate::Resource(u) => resource_env_spec(*u),
                PluginUpdate::Device(u) => device_env_spec(*u),
                PluginUpdate::PeerDevice(u) => peerdevice_env_spec(*u),
                PluginUpdate::Connection(u) => connection_env_spec(*u),
                PluginUpdate::ResourceOnly(_, _) => Seq::<(Seq<char>, Seq<char>)>::empty(),
            },
    {
        match self {
            PluginUpdate::Resource(u) => u.get_env(),
            PluginUpdate::Device(u) => u.get_env(),
            PluginUpdate::PeerDevice(u) => u.get_env(),
            PluginUpdate::Connection(u) => u.get_env(),
            PluginUpdate::ResourceOnly(_, _) => {
                let env: Vec<(String, String)> = Vec::new();
                proof {
                    assert(env.deep_view() =~= Seq::<(Seq<char>, Seq<char>)>::empty());
                }
                env
            },
        }
    }

    /// A deep copy of the resource snapshot carried by the update.
    pub fn get_resource(&self) -> (r: Resource)
        ensures
            r@ == self.spec_resource(),
    {
        match self {
            PluginUpdate::Resource(u) => u.resource.clone(),
            PluginUpdate::Device(u) => u.resource.clone(),
            PluginUpdate::PeerDevice(u) => u.resource.clone(),
            PluginUpdate::Connection(u) => u.resource.clone(),
            PluginUpdate::ResourceOnly(_, r) => r.clone(),
        }
    }
}

} // verus!

verus! {

impl Resource {
    /// Replays this resource as a sequence of synthetic change updates that
    /// rebuilds a plugin's view from scratch: one resource announcement, one
    /// device update per device, then per connection a bare connection update
    /// followed by its path and peer device updates, closed by a resource
    /// change that carries the full state. Whenever the projected resource
    /// state is not the zero state, the closing update carries a snapshot
    /// equal to this resource.
    pub fn to_plugin_updates(&self) -> (r: Vec<PluginUpdate>)
        requires
            self.wf(),
            !self@.force_io_failures,
        ensures
            r@.len() >= 1,
            r@[0] matches PluginUpdate::Resource(u) && u.event_type == EventType::Exists && u.old
                == resource_update_default() && u.new == resource_update_default() && u.resource@
                == rv_named(self@.name),
            proj_resource(self@) != resource_update_default() ==> (r@.last() matches
                PluginUpdate::Resource(u) && u.event_type == EventType::Change && u.resource@
                == self@),
    {
        let ghost name = self@.name;
        let mut updates: Vec<PluginUpdate> = Vec::new();
        let mut r = Resource::with_name(self.name.as_str());
        updates.push(
            PluginUpdate::Resource(
                ResourcePluginUpdate {
                    event_type: EventType::Exists,
                    old: ResourceUpdateState::default(),
                    new: ResourceUpdateState::default(),
                    resource: r.clone(),
                    resource_name: r.name.clone(),
                },
            ),
        );
        let mut i: usize = 0;
        proof {
            assert(self@.devices.take(0) =~= Seq::<DeviceView>::empty());
            assert(r@ =~= rv_with_devices(rv_named(name), self@.devices.take(0)));
        }
        while i < self.devices.len()
            invariant
                self.wf(),
                !self@.force_io_failures,
                name == self@.name,
                0 <= i <= self@.devices.len(),
                r.wf(),
                r@ == rv_with_devices(rv_named(name), self@.devices.take(i as int)),
                updates@.len() >= 1,
                updates@[0] matches PluginUpdate::Resource(u) && u.event_type == EventType::Exists
                    && u.old == resource_update_default() && u.new == resource_update_default()
                    && u.resource@ == rv_named(name),
            decreases self@.devices.len() - i,
        {
            let d = &self.devices[i];
            proof {
                assert(d@ == self@.devices[i as int]);
                assert(forall|t: int| 0 <= t < i ==> self@.devices.take(i as int)[t]
                    == self@.devices[t]);
                assert(!has_device(self@.devices.take(i as int), d@.volume));
            }
            let up = r.get_device_update(&EventType::Exists, d);
            proof {
                assert(self@.devices.take(i as int).push(d@) =~= self@.devices.take(i + 1));
                assert(r@ =~= rv_with_devices(rv_named(name), self@.devices.take(i + 1)));
            }
            if let Some(u) = up {
                updates.push(u);
            }
            i = i + 1;
        }
        proof {
            assert(self@.devices.take(self@.devices.len() as int) =~= self@.devices);
        }
        let ghost base = rv_with_devices(rv_named(name), self@.devices);
        let mut j: usize = 0;
        proof {
            assert(self@.connections.take(0) =~= Seq::<ConnectionView>::empty());
            assert(r@ =~= rv_with_connections(base, self@.connections.take(0)));
        }
        while j < self.connections.len()
            invariant
                self.wf(),
                !self@.force_io_failures,
                name == self@.name,
                base == rv_with_devices(rv_named(name), self@.devices),
                0 <= j <= self@.connections.len(),
                r.wf(),
                r@ == rv_with_connections(base, self@.connections.take(j as int)),
                updates@.len() >= 1,
                updates@[0] matches PluginUpdate::Resource(u) && u.event_type == EventType::Exists
                    && u.old == resource_update_default() && u.new == resource_update_default()
                    && u.resource@ == rv_named(name),
            decreases self@.connections.len() - j,
        {
            let c = &self.connections[j];
            let ghost cv = self@.connections[j as int];
            let ghost id = cv.peer_node_id;
            proof {
                assert(c@ == cv);
                assert(cv_wf(cv));
                assert(forall|t: int| 0 <= t < j ==> self@.connections.take(j as int)[t]
                    == self@.connections[t]);
                assert(!has_connection(self@.connections.take(j as int), id));
            }
            let mut bare = c.clone();
            bare.peerdevices = Vec::new();
            bare.paths = Vec::new();
            let ghost bare_v = bare@;
            proof {
                assert(bare@.peerdevices =~= Seq::<PeerDeviceView>::empty());
                assert(bare@.paths =~= Seq::<PathView>::empty());
                assert(cv_wf(bare@));
                assert(bare_v.peer_node_id == id);
            }
            let up = r.get_connection_update(&EventType::Exists, &bare);
            proof {
                assert(r@.connections == self@.connections.take(j as int).push(bare_v));
            }
            if let Some(u) = up {
                updates.push(u);
            }
            let ghost conns_now = self@.connections.take(j as int).push(bare_v);
            let mut k: usize = 0;
            proof {
                assert(cv.paths.take(0) =~= Seq::<PathView>::empty());
                assert(cv_with_paths(bare_v, cv.paths.take(0)) =~= bare_v);
            }
            while k < c.paths.len()
                invariant
                    self.wf(),
                    name == self@.name,
                    base == rv_with_devices(rv_named(name), self@.devices),
                    0 <= j < self@.connections.len(),
                    cv == self@.connections[j as int],
                    id == cv.peer_node_id,
                    cv_wf(cv),
                    c@ == cv,
                    bare_v == cv_with_paths(cv_with_peerdevices(cv, Seq::empty()), Seq::empty()),
                    0 <= k <= cv.paths.len(),
                    r.wf(),
                    r@ == rv_with_connections(
                        base,
                        self@.connections.take(j as int).push(
                            cv_with_paths(bare_v, cv.paths.take(k as int)),
                        ),
                    ),
                    forall|t: int|
                        0 <= t < j ==> #[trigger] self@.connections[t].peer_node_id != id,
                    updates@.len() >= 1,
                    updates@[0] matches PluginUpdate::Resource(u) && u.event_type
                        == EventType::Exists && u.old == resource_update_default() && u.new
                        == resource_update_default() && u.resource@ == rv_named(name),
                decreases cv.paths.len() - k,
            {
                let p = &c.paths[k];
                let ghost cur = self@.connections.take(j as int).push(
                    cv_with_paths(bare_v, cv.paths.take(k as int)),
                );
                proof {
                    assert(p@ == cv.paths[k as int]);
                    assert(p@.peer_node_id == id);
                    assert(forall|t: int| 0 <= t < j ==> cur[t] == self@.connections[t]);
                    assert(cur[j as int] == cv_with_paths(bare_v, cv.paths.take(k as int)));
                    assert(has_connection(cur, id));
                    let ci = connection_idx(cur, id);
                    assert(0 <= ci < cur.len() && cur[ci].peer_node_id == id);
                    assert(ci == j as int);
                    assert(forall|t: int| 0 <= t < k ==> cv.paths.take(k as int)[t]
                        == cv.paths[t]);
                    assert(!has_path(cv.paths.take(k as int), p@.local, p@.peer));
                }
                let up = r.get_path_update(&EventType::Exists, p);
                proof {
                    assert(cv.paths.take(k as int).push(p@) =~= cv.paths.take(k + 1));
                    assert(cv_with_paths(
                        cv_with_paths(bare_v, cv.paths.take(k as int)),
                        cv.paths.take(k + 1),
                    ) =~= cv_with_paths(bare_v, cv.paths.take(k + 1)));
                    assert(cur.update(j as int, cv_with_paths(bare_v, cv.paths.take(k + 1)))
                        =~= self@.connections.take(j as int).push(
                        cv_with_paths(bare_v, cv.paths.take(k + 1)),
                    ));
                    assert(r@ == rv_with_connections(
                        base,
                        self@.connections.take(j as int).push(
                            cv_with_paths(bare_v, cv.paths.take(k + 1)),
                        ),
                    ));
                }
                if let Some(u) = up {
                    updates.push(u);
                }
                k = k + 1;
            }
            proof {
                assert(cv.paths.take(cv.paths.len() as int) =~= cv.paths);
            }
            let ghost with_paths = cv_with_paths(bare_v, cv.paths);
            let mut m: usize = 0;
            proof {
                assert(cv.peerdevices.take(0) =~= Seq::<PeerDeviceView>::empty());
                assert(cv_with_peerdevices(with_paths, cv.peerdevices.take(0)) =~= with_paths);
            }
            while m < c.peerdevices.len()
                invariant
                    self.wf(),
                    name == self@.name,
                    base == rv_with_devices(rv_named(name), self@.devices),
                    0 <= j < self@.connections.len(),
                    cv == self@.connections[j as int],
                    id == cv.peer_node_id,
                    cv_wf(cv),
                    c@ == cv,
                    with_paths == cv_with_paths(
                        cv_with_paths(cv_with_peerdevices(cv, Seq::empty()), Seq::empty()),
                        cv.paths,
                    ),
                    0 <= m <= cv.peerdevices.len(),
                    r.wf(),
                    r@ == rv_with_connections(
                        base,
                        self@.connections.take(j as int).push(
                            cv_with_peerdevices(with_paths, cv.peerdevices.take(m as int)),
                        ),
                    ),
                    forall|t: int|
                        0 <= t < j ==> #[trigger] self@.connections[t].peer_node_id != id,
                    updates@.len() >= 1,
                    updates@[0] matches PluginUpdate::Resource(u) && u.event_type
                        == EventType::Exists && u.old == resource_update_default() && u.new
                        == resource_update_default() && u.resource@ == rv_named(name),
                decreases cv.peerdevices.len() - m,
            {
                let pd = &c.peerdevices[m];
                let ghost cur = self@.connections.take(j as int).push(
                    cv_with_peerdevices(with_paths, cv.peerdevices.take(m as int)),
                );
                proof {
                    assert(pd@ == cv.peerdevices[m as int]);
                    assert(pd@.peer_node_id == id);
                    assert(forall|t: int| 0 <= t < j ==> cur[t] == self@.connections[t]);
                    assert(cur[j as int] == cv_with_peerdevices(
                        with_paths,
                        cv.peerdevices.take(m as int),
                    ));
                    assert(has_connection(cur, id));
                    let ci = connection_idx(cur, id);
                    assert(0 <= ci < cur.len() && cur[ci].peer_node_id == id);
                    assert(ci == j as int);
                    assert(forall|t: int| 0 <= t < m ==> cv.peerdevices.take(m as int)[t]
                        == cv.peerdevices[t]);
                    assert(!has_peerdevice(cv.peerdevices.take(m as int), pd@.volume));
                }
                let up = r.get_peerdevice_update(&EventType::Exists, pd);
                proof {
                    assert(cv.peerdevices.take(m as int).push(pd@) =~= cv.peerdevices.take(m + 1));
                    assert(cv_with_peerdevices(
                        cv_with_peerdevices(with_paths, cv.peerdevices.take(m as int)),
                        cv.peerdevices.take(m + 1),
                    ) =~= cv_with_peerdevices(with_paths, cv.peerdevices.take(m + 1)));
                    assert(cur.update(
                        j as int,
                        cv_with_peerdevices(with_paths, cv.peerdevices.take(m + 1)),
                    ) =~= self@.connections.take(j as int).push(
                        cv_with_peerdevices(with_paths, cv.peerdevices.take(m + 1)),
                    ));
                    assert(r@ == rv_with_connections(
                        base,
                        self@.connections.take(j as int).push(
                            cv_with_peerdevices(with_paths, cv.peerdevices.take(m + 1)),
                        ),
                    ));
                }
                if let Some(u) = up {
                    updates.push(u);
                }
                m = m + 1;
            }
            proof {
                assert(cv.peerdevices.take(cv.peerdevices.len() as int) =~= cv.peerdevices);
                assert(cv_with_peerdevices(with_paths, cv.peerdevices) =~= cv);
                assert(self@.connections.take(j as int).push(cv) =~= self@.connections.take(
                    j + 1,
                ));
                assert(r@ == rv_with_connections(base, self@.connections.take(j + 1)));
            }
            j = j + 1;
        }
        proof {
            assert(self@.connections.take(self@.connections.len() as int) =~= self@.connections);
        }
        proof {
            assert(rv_updated(r@, self@) =~= self@);
            assert(r@.role == Role::Unknown && !r@.may_promote && r@.promotion_score == 0);
            assert(proj_resource(r@) == resource_update_default());
        }
        let up = r.get_resource_update(&EventType::Change, self);
        if let Some(u) = up {
            let ghost prev = updates@;
            updates.push(u);
            proof {
                assert(updates@.last() == u);
                assert(updates@[0] == prev[0]);
            }
        }
        updates
    }
}

} // verus!

verus! {

/// A three-part version number of the DRBD utilities or kernel module.
#[derive(Clone, Copy, PartialEq, Eq, Structural, Debug)]
pub struct Version {
    pub major: u8,
    pub minor: u8,
    pub patch: u8,
}

/// Lexicographic order on versions.
pub open spec fn version_lt(a: Version, b: Version) -> bool {
    a.major < b.major || (a.major == b.major && (a.minor < b.minor || (a.minor == b.minor
        && a.patch < b.patch)))
}

impl Version {
    /// Whether this version comes strictly before `other`.
    pub fn precedes(&self, other: &Version) -> (r: bool)
        ensures
            r == version_lt(*self, *other),
    {
        self.major < other.major || (self.major == other.major && (self.minor < other.minor || (
        self.minor == other.minor && self.patch < other.patch)))
    }

    /// Whether all three parts are zero.
    pub fn is_zero(&self) -> (r: bool)
        ensures
            r == (self.major == 0 && self.minor == 0 && self.patch == 0),
    {
        self.major == 0 && self.minor == 0 && self.patch == 0
    }
}

impl Default for Version {
    fn default() -> (r: Self)
        ensures
            r == (Version { major: 0, minor: 0, patch: 0 }),
    {
        Version { major: 0, minor: 0, patch: 0 }
    }
}

/// The pair of versions the local DRBD stack reports: kernel module and
/// userland utilities.
#[derive(Clone, Copy, PartialEq, Eq, Structural, Debug)]
pub struct DRBDVersion {
    pub kmod: Version,
    pub utils: Version,
}

impl Default for DRBDVersion {
    fn default() -> (r: Self)
        ensures
            r == (DRBDVersion {
                kmod: Version { major: 0, minor: 0, patch: 0 },
                utils: Version { major: 0, minor: 0, patch: 0 },
            }),
    {
        DRBDVersion {
            kmod: Version { major: 0, minor: 0, patch: 0 },
            utils: Version { major: 0, minor: 0, patch: 0 },
        }
    }
}

/// The major, minor and patch bytes packed into a DRBD version code.
pub open spec fn spec_version_from_code(code: u32) -> Version {
    Version {
        major: (((code as nat) / 0x10000nat) % 0x100nat) as u8,
        minor: (((code as nat) / 0x100nat) % 0x100nat) as u8,
        patch: ((code as nat) % 0x100nat) as u8,
    }
}

/// Unpacks a version code as the kernel tool prints it: one byte each for
/// major, minor and patch.
pub fn version_from_code(code: u32) -> (r: Version)
    ensures
        r == spec_version_from_code(code),
{
    let major: u32 = (code / 0x10000) % 0x100;
    let minor: u32 = (code / 0x100) % 0x100;
    let patch: u32 = code % 0x100;
    Version { major: major as u8, minor: minor as u8, patch: patch as u8 }
}

/// Why the local DRBD stack is refused at startup.
#[derive(Clone, Copy, PartialEq, Eq, Structural, Debug)]
pub enum DrbdVersionError {
    /// The utilities are older than the required minimum.
    UtilsTooOld,
    /// The kernel module reports all zeroes: not installed or not loaded.
    KmodMissing,
    /// The kernel module is older than the required minimum.
    KmodTooOld,
}

impl DrbdVersionError {
    /// A short message naming the refusal.
    pub fn text(&self) -> (r: &'static str)
        ensures
            r@ == self.spec_text(),
    {
        match self {
            DrbdVersionError::UtilsTooOld => "drbdsetup minimum version ('9.26.0') not fulfilled",
            DrbdVersionError::KmodMissing => "Looks like the DRBD kernel module is not installed or not loaded",
            DrbdVersionError::KmodTooOld => "DRBD kernel module minimum version ('9.1.7') not fulfilled",
        }
    }

    pub open spec fn spec_text(&self) -> Seq<char> {
        match self {
            DrbdVersionError::UtilsTooOld => "drbdsetup minimum version ('9.26.0') not fulfilled"@,
            DrbdVersionError::KmodMissing => "Looks like the DRBD kernel module is not installed or not loaded"@,
            DrbdVersionError::KmodTooOld => "DRBD kernel module minimum version ('9.1.7') not fulfilled"@,
        }
    }
}

/// The startup gate on DRBD versions when a promoter is configured: utilities
/// at least 9.26.0 for clean event polling, a loaded kernel module, and the
/// module at least 9.1.7 for forced demotion.
pub fn check_min_drbd_versions(v: &DRBDVersion) -> (r: Result<(), DrbdVersionError>)
    ensures
        match r {
            Ok(_) => !version_lt(v.utils, Version { major: 9, minor: 26, patch: 0 }) && !(
            v.kmod.major == 0 && v.kmod.minor == 0 && v.kmod.patch == 0) && !version_lt(
                v.kmod,
                Version { major: 9, minor: 1, patch: 7 },
            ),
            Err(e) => match e {
                DrbdVersionError::UtilsTooOld => version_lt(
                    v.utils,
                    Version { major: 9, minor: 26, patch: 0 },
                ),
                DrbdVersionError::KmodMissing => !version_lt(
                    v.utils,
                    Version { major: 9, minor: 26, patch: 0 },
                ) && v.kmod.major == 0 && v.kmod.minor == 0 && v.kmod.patch == 0,
                DrbdVersionError::KmodTooOld => !version_lt(
                    v.utils,
                    Version { major: 9, minor: 26, patch: 0 },
                ) && !(v.kmod.major == 0 && v.kmod.minor == 0 && v.kmod.patch == 0) && version_lt(
                    v.kmod,
                    Version { major: 9, minor: 1, patch: 7 },
                ),
            },
        },
{
    let want_utils = Version { major: 9, minor: 26, patch: 0 };
    if v.utils.precedes(&want_utils) {
        return Err(DrbdVersionError::UtilsTooOld);
    }
    if v.kmod.is_zero() {
        return Err(DrbdVersionError::KmodMissing);
    }
    let want_kmod = Version { major: 9, minor: 1, patch: 7 };
    if v.kmod.precedes(&want_kmod) {
        return Err(DrbdVersionError::KmodTooOld);
    }
    Ok(())
}

} // verus!

verus! {

/// Destroying a device removes exactly its volume: the volume is gone, and
/// every sibling volume is still present.
pub proof fn lemma_device_destroy_semantics(devs: Seq<DeviceView>, vol: int)
    requires
        forall|i: int, j: int| 0 <= i < j < devs.len() ==> devs[i].volume != devs[j].volume,
    ensures
        !has_device(devices_delete(devs, vol), vol),
        forall|v: int| v != vol ==> has_device(devices_delete(devs, vol), v) == has_device(
            devs,
            v,
        ),
{
    let out = devices_delete(devs, vol);
    if has_device(devs, vol) {
        let k = device_idx(devs, vol);
        assert(0 <= k < devs.len() && devs[k].volume == vol);
        assert(forall|i: int| 0 <= i < out.len() ==> out[i] == (if i < k {
            devs[i]
        } else {
            devs[i + 1]
        }));
        assert(!has_device(out, vol)) by {
            if has_device(out, vol) {
                let i = choose|i: int| 0 <= i < out.len() && out[i].volume == vol;
                if i < k {
                    assert(devs[i].volume == vol);
                } else {
                    assert(devs[i + 1].volume == vol);
                }
            }
        }
        assert forall|v: int| v != vol implies has_device(out, v) == has_device(devs, v) by {
            if has_device(devs, v) {
                let i = choose|i: int| 0 <= i < devs.len() && devs[i].volume == v;
                assert(i != k);
                if i < k {
                    assert(out[i].volume == v);
                } else {
                    assert(out[i - 1].volume == v);
                }
            }
            if has_device(out, v) {
                let i = choose|i: int| 0 <= i < out.len() && out[i].volume == v;
                if i < k {
                    assert(devs[i].volume == v);
                } else {
                    assert(devs[i + 1].volume == v);
                }
            }
        }
    }
}

/// Destroying a connection removes exactly its peer node: the peer is gone,
/// and every sibling connection is still present, children untouched.
pub proof fn lemma_connection_destroy_semantics(conns: Seq<ConnectionView>, id: int)
    requires
        forall|i: int, j: int|
            0 <= i < j < conns.len() ==> conns[i].peer_node_id != conns[j].peer_node_id,
    ensures
        !has_connection(connections_delete(conns, id), id),
        forall|p: int| p != id ==> has_connection(connections_delete(conns, id), p)
            == has_connection(conns, p),
        forall|p: int|
            p != id && has_connection(conns, p) ==> connection_at(
                connections_delete(conns, id),
                p,
            ) == connection_at(conns, p),
{
    let out = connections_delete(conns, id);
    if has_connection(conns, id) {
        let k = connection_idx(conns, id);
        assert(0 <= k < conns.len() && conns[k].peer_node_id == id);
        assert(forall|i: int| 0 <= i < out.len() ==> out[i] == (if i < k {
            conns[i]
        } else {
            conns[i + 1]
        }));
        assert(!has_connection(out, id)) by {
            if has_connection(out, id) {
                let i = choose|i: int| 0 <= i < out.len() && out[i].peer_node_id == id;
                if i < k {
                    assert(conns[i].peer_node_id == id);
                } else {
                    assert(conns[i + 1].peer_node_id == id);
                }
            }
        }
        assert forall|p: int| p != id implies has_connection(out, p) == has_connection(
            conns,
            p,
        ) by {
            if has_connection(conns, p) {
                let i = choose|i: int| 0 <= i < conns.len() && conns[i].peer_node_id == p;
                assert(i != k);
                if i < k {
                    assert(out[i].peer_node_id == p);
                } else {
                    assert(out[i - 1].peer_node_id == p);
                }
            }
            if has_connection(out, p) {
                let i = choose|i: int| 0 <= i < out.len() && out[i].peer_node_id == p;
                if i < k {
                    assert(conns[i].peer_node_id == p);
                } else {
                    assert(conns[i + 1].peer_node_id == p);
                }
            }
        }
        assert forall|p: int| p != id && has_connection(conns, p) implies connection_at(
            out,
            p,
        ) == connection_at(conns, p) by {
            let a = connection_idx(conns, p);
            assert(0 <= a < conns.len() && conns[a].peer_node_id == p);
            assert(a != k);
            let w: int = if a < k {
                a
            } else {
                a - 1
            };
            assert(out[w].peer_node_id == p);
            let b = connection_idx(out, p);
            assert(0 <= b < out.len() && out[b].peer_node_id == p);
            if b < k {
                assert(out[b] == conns[b]);
                assert(b == a);
            } else {
                assert(out[b] == conns[b + 1]);
                assert(b + 1 == a);
            }
        }
    }
}

/// A peer device or path whose parent connection has not been seen yet
/// creates a bare parent that carries the matching peer node id and only
/// that one child.
pub proof fn lemma_auto_parent(conns: Seq<ConnectionView>, d: PeerDeviceView, p: PathView)
    requires
        !has_connection(conns, d.peer_node_id),
        !has_connection(conns, p.peer_node_id),
    ensures
        ({
            let out = connections_apply_peerdevice(conns, d);
            out.len() == conns.len() + 1 && out.last().peer_node_id == d.peer_node_id
                && out.last().peerdevices == seq![d] && out.last().paths == Seq::<
                PathView,
            >::empty()
        }),
        ({
            let out = connections_apply_path(conns, p);
            out.len() == conns.len() + 1 && out.last().peer_node_id == p.peer_node_id
                && out.last().paths == seq![p] && out.last().peerdevices == Seq::<
                PeerDeviceView,
            >::empty()
        }),
{
}

/// A connection change merged over a known connection keeps that
/// connection's peer devices and paths: they arrive through their own
/// events and are never clobbered by the parent's update.
pub proof fn lemma_connection_merge_preserves_children(
    conns: Seq<ConnectionView>,
    et: EventType,
    c: ConnectionView,
)
    requires
        forall|i: int, j: int|
            0 <= i < j < conns.len() ==> conns[i].peer_node_id != conns[j].peer_node_id,
        has_connection(conns, c.peer_node_id),
        et != EventType::Destroy,
    ensures
        ({
            let k = connection_idx(conns, c.peer_node_id);
            let out = connections_apply_merge(conns, et, c);
            out[k].peerdevices == conns[k].peerdevices && out[k].paths == conns[k].paths
                && out[k].conn_name == c.conn_name && out[k].connection == c.connection
        }),
{
}

} // verus!
