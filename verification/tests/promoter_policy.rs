use drbd_reactor::drbd::{
    Device, DeviceUpdateState, DiskState, EventType, PeerDevice, Connection, PluginUpdate,
    Resource, ResourceUpdateState, PeerDeviceUpdateState, Role, DevicePluginUpdate,
    PeerDevicePluginUpdate, ResourcePluginUpdate,
};
use drbd_reactor::plugin::promoter::{
    drbd_promote, get_sleep_before_promote_ms, process_drbd_event, track_may_promote,
    PromoterAction, PromoterOptResource, QuorumLossPolicy, SystemdDependency,
    SystemdFailureAction, SystemdSettings,
};

#[test]
fn sleep_before_promote_ms() {
    // be careful to only use a Resource *with* devices
    let mut r = Resource {
        name: "test".to_string(),
        devices: vec![
            Device {
                disk_state: DiskState::Diskless,
                ..Default::default()
            },
            Device {
                disk_state: DiskState::Failed,
                ..Default::default()
            },
            Device {
                disk_state: DiskState::UpToDate,
                ..Default::default()
            },
        ],
        ..Default::default()
    };
    assert_eq!(
        get_sleep_before_promote_ms(&r, &vec![], &QuorumLossPolicy::Shutdown, 1, None, 0),
        6000
    );

    r.role = Role::Secondary;
    assert_eq!(
        get_sleep_before_promote_ms(&r, &vec![], &QuorumLossPolicy::Freeze, 1, None, 0),
        6000 + 2000
    );
    assert_eq!(
        get_sleep_before_promote_ms(&r, &vec![], &QuorumLossPolicy::Shutdown, 2, None, 0),
        12000
    );
    let node_name = "node-a".to_string();
    assert_eq!(
        get_sleep_before_promote_ms(
            &r,
            &vec![
                "".to_string(),
                "".to_string(),
                node_name.clone(),
                "".to_string()
            ],
            &QuorumLossPolicy::Shutdown,
            1,
            Some(&node_name),
            0
        ),
        6000 + 2000
    );
    assert_eq!(
        get_sleep_before_promote_ms(
            &r,
            &vec!["".to_string(), "".to_string(), "".to_string()],
            &QuorumLossPolicy::Shutdown,
            1,
            Some(&node_name),
            0
        ),
        6000 + 3000
    );
}

#[test]
fn test_drbd_promote() {
    let empty = drbd_promote(
        &SystemdSettings {
            target_as: SystemdDependency::Wants,
            dependencies_as: SystemdDependency::Wants,
            failure_action: SystemdFailureAction::NoAction,
        },
        false,
    );

    assert_eq!(
        r"[Service]
ExecStart=/lib/drbd/scripts/drbd-service-shim.sh primary %I
ExecCondition=
[Unit]
",
        empty
    );

    let on_failure = drbd_promote(
        &SystemdSettings {
            target_as: SystemdDependency::Wants,
            dependencies_as: SystemdDependency::Wants,
            failure_action: SystemdFailureAction::Reboot,
        },
        true,
    );

    assert_eq!(
        r"[Service]
ExecStart=/lib/drbd/scripts/drbd-service-shim.sh primary %I
ExecCondition=
ExecStop=
ExecStop=/lib/drbd/scripts/drbd-service-shim.sh secondary-secondary-force %I
[Unit]
OnFailure=drbd-demote-or-escalate@%i.service
OnFailureJobMode=replace-irreversibly
",
        on_failure
    );
}

#[test]
fn scenario_promotion_race_delay() {
    // one UpToDate device, local host absent from a three-node preferred
    // list, shutdown policy, factor one: (0 + 3) * 1000 ms
    let r = Resource {
        name: "r1".to_string(),
        devices: vec![Device {
            disk_state: DiskState::UpToDate,
            ..Default::default()
        }],
        ..Default::default()
    };
    let nodes = vec!["a".to_string(), "b".to_string(), "c".to_string()];
    let local = "local".to_string();
    assert_eq!(
        get_sleep_before_promote_ms(&r, &nodes, &QuorumLossPolicy::Shutdown, 1, Some(&local), 0),
        3000
    );
}

#[test]
fn delay_monotone_in_disk_rank() {
    // the worse-ranked resource waits at least as long
    let mk = |ds: DiskState| Resource {
        name: "r1".to_string(),
        devices: vec![Device {
            disk_state: ds,
            ..Default::default()
        }],
        ..Default::default()
    };
    let nodes: Vec<String> = vec![];
    let ranks = [
        DiskState::UpToDate,
        DiskState::Consistent,
        DiskState::Outdated,
        DiskState::Inconsistent,
        DiskState::DUnknown,
    ];
    let mut last = 0;
    for ds in ranks {
        let d = get_sleep_before_promote_ms(&mk(ds), &nodes, &QuorumLossPolicy::Shutdown, 1, None, 0);
        assert!(d >= last);
        last = d;
    }
    // a later preferred position waits at least as long as an earlier one
    let nodes = vec!["a".to_string(), "b".to_string(), "c".to_string()];
    let at = |n: &str| {
        let name = n.to_string();
        get_sleep_before_promote_ms(
            &mk(DiskState::UpToDate),
            &nodes,
            &QuorumLossPolicy::Shutdown,
            1,
            Some(&name),
            0,
        )
    };
    assert!(at("a") <= at("b"));
    assert!(at("b") <= at("c"));
    assert!(at("c") <= at("nowhere"));
    // freeze plus Secondary adds exactly 2000 ms
    let mut sec = mk(DiskState::UpToDate);
    sec.role = Role::Secondary;
    let base = get_sleep_before_promote_ms(&sec, &nodes, &QuorumLossPolicy::Shutdown, 1, None, 0);
    let frozen = get_sleep_before_promote_ms(&sec, &nodes, &QuorumLossPolicy::Freeze, 1, None, 0);
    assert_eq!(frozen, base + 2000);
}

fn plain_res_cfg(policy: QuorumLossPolicy, preferred: Vec<String>) -> PromoterOptResource {
    let mut res = PromoterOptResource::default();
    res.on_quorum_loss = policy;
    res.preferred_nodes = preferred;
    res
}

#[test]
fn scenario_quorum_loss_freeze() {
    // quorum true -> false under the freeze policy freezes the stack
    let res = plain_res_cfg(QuorumLossPolicy::Freeze, vec![]);
    let up = PluginUpdate::Device(DevicePluginUpdate {
        event_type: EventType::Change,
        resource_name: "r1".to_string(),
        volume: 0,
        old: DeviceUpdateState {
            quorum: true,
            ..Default::default()
        },
        new: DeviceUpdateState {
            quorum: false,
            ..Default::default()
        },
        resource: Resource::with_name("r1"),
    });
    assert_eq!(
        process_drbd_event(&up, &res, None, 0, 100_000),
        PromoterAction::FreezeStack
    );
    // under the shutdown policy the stack is stopped instead
    let res = plain_res_cfg(QuorumLossPolicy::Shutdown, vec![]);
    assert_eq!(process_drbd_event(&up, &res, None, 0, 100_000), PromoterAction::Stop);
}

#[test]
fn scenario_quorum_gain_thaws_primary() {
    let res = plain_res_cfg(QuorumLossPolicy::Freeze, vec![]);
    let mut resource = Resource::with_name("r1");
    resource.role = Role::Primary;
    let up = PluginUpdate::Device(DevicePluginUpdate {
        event_type: EventType::Change,
        resource_name: "r1".to_string(),
        volume: 0,
        old: DeviceUpdateState {
            quorum: false,
            ..Default::default()
        },
        new: DeviceUpdateState {
            quorum: true,
            ..Default::default()
        },
        resource,
    });
    assert_eq!(process_drbd_event(&up, &res, None, 0, 100_000), PromoterAction::ThawStack);
}

#[test]
fn scenario_preferred_node_yield() {
    // peer `a` turns up to date while we are Primary and stand later in the
    // preferred list: stop the stack locally
    let res = plain_res_cfg(
        QuorumLossPolicy::Shutdown,
        vec!["a".to_string(), "b".to_string(), "local".to_string()],
    );
    let mut resource = Resource::with_name("r1");
    resource.role = Role::Primary;
    let mut conn = Connection {
        peer_node_id: 1,
        conn_name: "a".to_string(),
        ..Default::default()
    };
    conn.peerdevices.push(PeerDevice {
        peer_node_id: 1,
        volume: 0,
        conn_name: "a".to_string(),
        peer_disk_state: DiskState::UpToDate,
        ..Default::default()
    });
    resource.connections.push(conn);
    let up = PluginUpdate::PeerDevice(PeerDevicePluginUpdate {
        event_type: EventType::Change,
        resource_name: "r1".to_string(),
        volume: 0,
        peer_node_id: 1,
        old: PeerDeviceUpdateState {
            peer_disk_state: DiskState::Inconsistent,
            ..Default::default()
        },
        new: PeerDeviceUpdateState {
            peer_disk_state: DiskState::UpToDate,
            ..Default::default()
        },
        resource,
    });
    let local = "local".to_string();
    assert_eq!(
        process_drbd_event(&up, &res, Some(&local), 0, 100_000),
        PromoterAction::Stop
    );
    // with the peer later in the list than us, nothing happens
    let res = plain_res_cfg(
        QuorumLossPolicy::Shutdown,
        vec!["local".to_string(), "a".to_string()],
    );
    assert_eq!(
        process_drbd_event(&up, &res, Some(&local), 0, 100_000),
        PromoterAction::Nothing
    );
}

#[test]
fn promotion_start_and_hold_down() {
    let res = plain_res_cfg(QuorumLossPolicy::Shutdown, vec![]);
    let mut resource = Resource::with_name("r1");
    resource.devices.push(Device {
        disk_state: DiskState::UpToDate,
        ..Default::default()
    });
    let up = PluginUpdate::Resource(ResourcePluginUpdate {
        event_type: EventType::Change,
        resource_name: "r1".to_string(),
        old: ResourceUpdateState {
            may_promote: false,
            role: Role::Secondary,
            promotion_score: 0,
        },
        new: ResourceUpdateState {
            may_promote: true,
            role: Role::Secondary,
            promotion_score: 0,
        },
        resource,
    });
    // delay 0 ms; a start 20 s after the last one goes ahead
    assert_eq!(
        process_drbd_event(&up, &res, None, 0, 20_000),
        PromoterAction::Start { sleep_ms: 0 }
    );
    // too soon after the last start: held down
    assert_eq!(process_drbd_event(&up, &res, None, 0, 10_000), PromoterAction::Nothing);
    // forced demotion while frozen stops the stack
    let res = plain_res_cfg(QuorumLossPolicy::Freeze, vec![]);
    let up = PluginUpdate::Resource(ResourcePluginUpdate {
        event_type: EventType::Change,
        resource_name: "r1".to_string(),
        old: ResourceUpdateState {
            may_promote: false,
            role: Role::Primary,
            promotion_score: 0,
        },
        new: ResourceUpdateState {
            may_promote: false,
            role: Role::Secondary,
            promotion_score: 0,
        },
        resource: Resource::with_name("r1"),
    });
    assert_eq!(process_drbd_event(&up, &res, None, 0, 100_000), PromoterAction::Stop);
}

#[test]
fn may_promote_tracking() {
    let mut set: Vec<String> = Vec::new();
    let mk = |may: bool| {
        PluginUpdate::Resource(ResourcePluginUpdate {
            event_type: EventType::Change,
            resource_name: "r1".to_string(),
            old: ResourceUpdateState {
                may_promote: false,
                role: Role::Secondary,
                promotion_score: 0,
            },
            new: ResourceUpdateState {
                may_promote: may,
                role: Role::Secondary,
                promotion_score: 0,
            },
            resource: Resource::with_name("r1"),
        })
    };
    track_may_promote(&mut set, &mk(true));
    assert_eq!(set, vec!["r1".to_string()]);
    track_may_promote(&mut set, &mk(true));
    assert_eq!(set, vec!["r1".to_string()]);
    track_may_promote(&mut set, &mk(false));
    assert!(set.is_empty());
}
