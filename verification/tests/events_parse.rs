use drbd_reactor::drbd::{
    BackingDevice, Connection, ConnectionState, Device, DiskState, EventType, Path, PeerDevice,
    Resource, Role, ReplicationState, Version,
};
use drbd_reactor::events::{
    events2_preflight, min_version, parse_events2_line, split_version, str_to_bool, EventUpdate,
    ParseError, VersionError,
};

#[test]
fn string_to_bool() {
    assert_eq!(str_to_bool(&"yes"), true);
    assert_eq!(str_to_bool(&"true"), true);
    assert_eq!(str_to_bool(&"no"), false);
}

#[test]
fn all_parsed_resource_update() {
    let up = parse_events2_line("exists resource name:foo role:Primary suspended:yes write-ordering:foo may_promote:yes promotion_score:23").unwrap();
    let expected = EventUpdate::Resource(
        EventType::Exists,
        Resource {
            name: "foo".to_string(),
            role: Role::Primary,
            suspended: true,
            write_ordering: "foo".to_string(),
            may_promote: true,
            promotion_score: 23,
            force_io_failures: false,
            devices: vec![],
            connections: vec![],
        },
    );
    assert_eq!(up, expected);
}

#[test]
fn all_parsed_device_update() {
    let up = parse_events2_line("change device name:foo volume:1 minor:1 disk:Attaching backing_dev:/dev/sda1 client:no quorum:yes size:1 read:1 written:1 al-writes:1 bm-writes:1 upper-pending:1 lower-pending:1 al-suspended:yes blocked:upper").unwrap();
    let expected = EventUpdate::Device(
        EventType::Change,
        Device {
            name: "foo".to_string(),
            volume: 1,
            minor: 1,
            disk_state: DiskState::Attaching,
            client: false,
            backing_dev: BackingDevice(Some("/dev/sda1".to_string())),
            quorum: true,
            size: 1,
            read: 1,
            written: 1,
            al_writes: 1,
            bm_writes: 1,
            upper_pending: 1,
            lower_pending: 1,
            al_suspended: true,
            blocked: "upper".to_string(),
        },
    );
    assert_eq!(up, expected);

    // backing_dev as none
    let up = parse_events2_line("change device name:foo volume:1 minor:1 disk:Attaching backing_dev:none client:yes quorum:yes size:1 read:1 written:1 al-writes:1 bm-writes:1 upper-pending:1 lower-pending:1 al-suspended:yes blocked:no").unwrap();
    let expected = EventUpdate::Device(
        EventType::Change,
        Device {
            name: "foo".to_string(),
            volume: 1,
            minor: 1,
            disk_state: DiskState::Attaching,
            client: true,
            backing_dev: BackingDevice(None),
            quorum: true,
            size: 1,
            read: 1,
            written: 1,
            al_writes: 1,
            bm_writes: 1,
            upper_pending: 1,
            lower_pending: 1,
            al_suspended: true,
            blocked: "no".to_string(),
        },
    );
    assert_eq!(up, expected);
}

#[test]
fn all_parsed_connection_update() {
    let up = parse_events2_line("exists connection name:foo peer-node-id:1 conn-name:bar connection:Connected role:Primary congested:yes ap-in-flight:1 rs-in-flight:1").unwrap();
    let expected = EventUpdate::Connection(
        EventType::Exists,
        Connection {
            name: "foo".to_string(),
            peer_node_id: 1,
            conn_name: "bar".to_string(),
            connection: ConnectionState::Connected,
            peer_role: Role::Primary,
            congested: true,
            ap_in_flight: 1,
            rs_in_flight: 1,
            peerdevices: vec![],
            paths: vec![],
        },
    );
    assert_eq!(up, expected);
}

#[test]
fn all_parsed_peerdevice_update() {
    let up = parse_events2_line("exists peer-device name:foo peer-node-id:1 conn-name:bar volume:1 replication:Established peer-disk:UpToDate peer-client:yes resync-suspended:yes received:1 sent:1 out-of-sync:1 pending:1 unacked:1").unwrap();
    let expected = EventUpdate::PeerDevice(
        EventType::Exists,
        PeerDevice {
            name: "foo".to_string(),
            peer_node_id: 1,
            conn_name: "bar".to_string(),
            volume: 1,
            replication_state: ReplicationState::Established,
            peer_disk_state: DiskState::UpToDate,
            peer_client: true,
            resync_suspended: true,
            received: 1,
            sent: 1,
            out_of_sync: 1,
            pending: 1,
            unacked: 1,
            has_sync_details: false,
            has_online_verify_details: false,
        },
    );
    assert_eq!(up, expected);
}

#[test]
fn all_parsed_path_update() {
    let up = parse_events2_line("change path name:foo peer-node-id:3 conn-name:bar local:ipv4:1.2.3.4:7020 peer:ipv4:1.2.3.5:7020 established:yes").unwrap();
    let expected = EventUpdate::Path(
        EventType::Change,
        Path {
            name: "foo".to_string(),
            peer_node_id: 3,
            conn_name: "bar".to_string(),
            local: "ipv4:1.2.3.4:7020".to_string(),
            peer: "ipv4:1.2.3.5:7020".to_string(),
            established: true,
        },
    );
    assert_eq!(up, expected);
}

#[test]
fn wrong_keys() {
    assert!(parse_events2_line("exists resource name:foo xxx:23").is_err());
    assert!(parse_events2_line("exists peer-device name:foo xxx:23").is_err());
    assert!(parse_events2_line("exists connection name:foo xxx:23").is_err());
    assert!(parse_events2_line("exists device name:foo xxx:23").is_err());
}

#[test]
fn wrong_et() {
    assert!(parse_events2_line("xxx resource name:foo").is_err());
    // these will be implemented soon, but for now they are errors
    assert!(parse_events2_line("call helper").is_err());
    assert!(parse_events2_line("response helper").is_err());
}

#[test]
fn wrong_what() {
    assert!(parse_events2_line("exists xxx name:foo").is_err());
}

#[test]
fn scenario_parse_exists_resource() {
    // a line with exactly the whitelisted keys, spelled as the kernel tool does
    let up = parse_events2_line(
        "exists resource name:foo role:Primary suspended:yes write-ordering:fifo may_promote:yes promotion_score:23",
    )
    .unwrap();
    match up {
        EventUpdate::Resource(et, r) => {
            assert_eq!(et, EventType::Exists);
            assert_eq!(r.name, "foo".to_string());
            assert_eq!(r.role, Role::Primary);
            assert!(r.suspended);
            assert_eq!(r.write_ordering, "fifo".to_string());
            assert!(r.may_promote);
            assert_eq!(r.promotion_score, 23);
        }
        _ => panic!("not a resource event"),
    }
}

#[test]
fn scenario_bad_key_stream_continues() {
    // a bad key is a parse error; the next line still parses
    let first = parse_events2_line("exists resource name:foo xxx:23");
    assert_eq!(first.unwrap_err(), ParseError::BadKeyValue);
    let second = parse_events2_line("exists resource name:foo");
    assert!(second.is_ok());
}

#[test]
fn parse_error_kinds() {
    assert_eq!(
        parse_events2_line("frobnicate resource name:foo").unwrap_err(),
        ParseError::UnknownEventType
    );
    assert_eq!(
        parse_events2_line("exists gadget name:foo").unwrap_err(),
        ParseError::UnknownObject
    );
    assert_eq!(
        parse_events2_line("exists device name:foo volume:abc").unwrap_err(),
        ParseError::BadKeyValue
    );
    assert_eq!(parse_events2_line("").unwrap_err(), ParseError::UnknownEventType);
}

#[test]
fn key_order_does_not_matter() {
    let a = parse_events2_line("exists resource promotion_score:7 name:foo role:Secondary").unwrap();
    match a {
        EventUpdate::Resource(_, r) => {
            assert_eq!(r.name, "foo".to_string());
            assert_eq!(r.role, Role::Secondary);
            assert_eq!(r.promotion_score, 7);
        }
        _ => panic!("not a resource event"),
    }
}

#[test]
fn boolean_spellings() {
    for (token, value) in [("yes", true), ("true", true), ("no", false), ("false", false)] {
        let line = format!("exists resource name:foo suspended:{}", token);
        match parse_events2_line(&line).unwrap() {
            EventUpdate::Resource(_, r) => assert_eq!(r.suspended, value),
            _ => panic!("not a resource event"),
        }
    }
}

#[test]
fn version_split_and_minimums() {
    let out = "DRBDADM_BUILDTAG=xyz\nDRBDADM_API_VERSION=2\nDRBD_KERNEL_VERSION_CODE=0x090107\nDRBDADM_VERSION_CODE=0x091a00\n";
    let utils = split_version("DRBDADM_VERSION_CODE", out).unwrap();
    assert_eq!(utils, Version { major: 9, minor: 26, patch: 0 });
    let kmod = split_version("DRBD_KERNEL_VERSION_CODE", out).unwrap();
    assert_eq!(kmod, Version { major: 9, minor: 1, patch: 7 });
    assert_eq!(
        split_version("DRBD_KERNEL_VERSION_CODE", "nothing here").unwrap_err(),
        VersionError::NoVersionLine
    );

    assert!(min_version((9, 26, 0), (9, 18, 0)).is_ok());
    assert_eq!(min_version((8, 4, 11), (9, 18, 0)).unwrap_err(), VersionError::MajorTooSmall);
    assert_eq!(min_version((9, 17, 9), (9, 18, 0)).unwrap_err(), VersionError::MinorTooSmall);
    assert_eq!(min_version((9, 18, 0), (9, 18, 1)).unwrap_err(), VersionError::PatchTooSmall);

    // utils below the events2 --poll minimum are refused
    assert!(events2_preflight((9, 17, 0), (9, 1, 7)).is_err());
    // a fresh enough pair has backing-device information
    assert_eq!(events2_preflight((9, 18, 0), (9, 1, 7)).unwrap(), true);
    // the one kernel line without it
    assert_eq!(events2_preflight((9, 18, 0), (9, 1, 0)).unwrap(), false);
    assert_eq!(events2_preflight((9, 18, 0), (9, 0, 28)).unwrap(), true);
}
