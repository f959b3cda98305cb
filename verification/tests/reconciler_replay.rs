use drbd_reactor::drbd::{EventType, PluginUpdate, Resource, Role};
use drbd_reactor::events::{parse_events2_line, EventUpdate};
use drbd_reactor::matchable::{BasicPattern, PartialMatchable};
use drbd_reactor::plugin::umh::{matching_rules, CommonRule, ResourceRule, UMHConfig, UMH};
use drbd_reactor::plugin::{namefilter, typefilter};
use drbd_reactor::reconciler::Core;

fn feed(core: &mut Core, line: &str) -> Option<PluginUpdate> {
    let ev = parse_events2_line(line).expect("line must parse");
    core.apply(&ev)
}

#[test]
fn scenario_destroy_cascade() {
    let mut core = Core::new();
    feed(&mut core, "exists resource name:foo role:Secondary");
    feed(&mut core, "exists device name:foo volume:0 disk:UpToDate");
    feed(&mut core, "exists connection name:foo peer-node-id:1 conn-name:bar");
    feed(&mut core, "exists connection name:foo peer-node-id:2 conn-name:baz");
    assert_eq!(core.resources.len(), 1);
    assert_eq!(core.resources[0].devices.len(), 1);
    assert_eq!(core.resources[0].connections.len(), 2);

    // destroying the resource removes it wholesale
    feed(&mut core, "destroy resource name:foo");
    assert!(core.resources.is_empty());

    // a later device event lazily recreates it with that device
    feed(&mut core, "exists device name:foo volume:0 disk:UpToDate");
    assert_eq!(core.resources.len(), 1);
    assert_eq!(core.resources[0].name, "foo");
    assert_eq!(core.resources[0].devices.len(), 1);
    assert!(core.resources[0].connections.is_empty());
}

#[test]
fn destroy_child_keeps_siblings() {
    let mut core = Core::new();
    feed(&mut core, "exists device name:foo volume:0 disk:UpToDate");
    feed(&mut core, "exists device name:foo volume:1 disk:UpToDate");
    feed(&mut core, "destroy device name:foo volume:1");
    assert_eq!(core.resources[0].devices.len(), 1);
    assert_eq!(core.resources[0].devices[0].volume, 0);

    feed(&mut core, "exists connection name:foo peer-node-id:1 conn-name:a");
    feed(&mut core, "exists connection name:foo peer-node-id:2 conn-name:b");
    feed(&mut core, "destroy connection name:foo peer-node-id:1");
    assert_eq!(core.resources[0].connections.len(), 1);
    assert_eq!(core.resources[0].connections[0].peer_node_id, 2);
}

#[test]
fn change_suppression() {
    let mut core = Core::new();
    let first = feed(&mut core, "exists resource name:foo role:Primary");
    assert!(first.is_some());
    // the same projection again produces no update
    let second = feed(&mut core, "exists resource name:foo role:Primary");
    assert!(second.is_none());
    // a counter-only device change does not move the projection
    let d1 = feed(&mut core, "exists device name:foo volume:0 disk:UpToDate read:1");
    assert!(d1.is_some());
    let d2 = feed(&mut core, "change device name:foo volume:0 disk:UpToDate read:999");
    assert!(d2.is_none());
    // a destroy is never suppressed
    let d3 = feed(&mut core, "destroy device name:foo volume:0");
    assert!(d3.is_some());
}

#[test]
fn peerdevice_and_path_auto_parent() {
    let mut core = Core::new();
    feed(
        &mut core,
        "exists peer-device name:foo peer-node-id:7 conn-name:bar volume:0 replication:Established",
    );
    assert_eq!(core.resources[0].connections.len(), 1);
    assert_eq!(core.resources[0].connections[0].peer_node_id, 7);
    assert_eq!(core.resources[0].connections[0].peerdevices.len(), 1);

    let mut core = Core::new();
    feed(
        &mut core,
        "exists path name:foo peer-node-id:9 conn-name:bar local:ipv4:10.0.0.1:7000 peer:ipv4:10.0.0.2:7000 established:no",
    );
    assert_eq!(core.resources[0].connections.len(), 1);
    assert_eq!(core.resources[0].connections[0].peer_node_id, 9);
    assert_eq!(core.resources[0].connections[0].paths.len(), 1);
}

#[test]
fn connection_merge_preserves_children() {
    let mut core = Core::new();
    feed(&mut core, "exists connection name:foo peer-node-id:1 conn-name:bar");
    feed(
        &mut core,
        "exists peer-device name:foo peer-node-id:1 conn-name:bar volume:0 replication:Established",
    );
    feed(
        &mut core,
        "exists path name:foo peer-node-id:1 conn-name:bar local:ipv4:10.0.0.1:7000 peer:ipv4:10.0.0.2:7000 established:yes",
    );
    // a connection change without children must not clobber them
    feed(
        &mut core,
        "change connection name:foo peer-node-id:1 conn-name:bar connection:Connected",
    );
    let conn = &core.resources[0].connections[0];
    assert_eq!(conn.peerdevices.len(), 1);
    assert_eq!(conn.paths.len(), 1);
}

#[test]
fn snapshot_replay_rebuilds_state() {
    let mut core = Core::new();
    feed(&mut core, "exists resource name:foo role:Primary promotion_score:11");
    feed(&mut core, "exists device name:foo volume:0 disk:UpToDate size:100");
    feed(&mut core, "exists connection name:foo peer-node-id:1 conn-name:bar connection:Connected");
    feed(
        &mut core,
        "exists peer-device name:foo peer-node-id:1 conn-name:bar volume:0 replication:Established peer-disk:UpToDate",
    );
    feed(
        &mut core,
        "exists path name:foo peer-node-id:1 conn-name:bar local:ipv4:10.0.0.1:7000 peer:ipv4:10.0.0.2:7000 established:yes",
    );
    let state: Resource = core.resources[0].clone();

    // the synthetic update stream ends with a change carrying the full state
    let updates = state.to_plugin_updates();
    assert!(updates.len() >= 2);
    match updates.first().unwrap() {
        PluginUpdate::Resource(u) => {
            assert_eq!(u.event_type, EventType::Exists);
            assert_eq!(u.resource_name, "foo");
        }
        _ => panic!("replay must open with the resource announcement"),
    }
    match updates.last().unwrap() {
        PluginUpdate::Resource(u) => {
            assert_eq!(u.event_type, EventType::Change);
            assert_eq!(u.resource, state);
        }
        _ => panic!("replay must close with the resource change"),
    }
}

#[test]
fn update_filters() {
    let mut core = Core::new();
    let up = feed(&mut core, "exists resource name:foo role:Primary").unwrap();
    let names = vec!["foo".to_string()];
    let others = vec!["bar".to_string()];
    assert!(namefilter(&names, &up));
    assert!(!namefilter(&others, &up));
    assert!(typefilter(&EventType::Exists, &up));
    assert!(!typefilter(&EventType::Change, &up));
    assert_eq!(up.get_name(), "foo");
    assert_eq!(up.get_resource().role, Role::Primary);
}

#[test]
fn umh_rule_matching() {
    let mut core = Core::new();
    let up = feed(&mut core, "exists resource name:foo role:Primary").unwrap();
    let rule = ResourceRule {
        common: CommonRule {
            command: "handler.sh".to_string(),
            name: "on-foo".to_string(),
            env: vec![],
        },
        event_type: None,
        resource_name: Some(BasicPattern::Plain("foo".to_string())),
        old: None,
        new: None,
    };
    let mut cfg = UMHConfig::default();
    cfg.resource.push(rule);
    let umh = UMH::new(cfg);
    let hits = matching_rules(&umh, &up);
    assert_eq!(hits.len(), 1);
    assert_eq!(hits[0].name, "on-foo");

    // a rule for another resource does not fire
    let other = UMHConfig {
        resource: vec![ResourceRule {
            common: CommonRule {
                command: "handler.sh".to_string(),
                name: "on-bar".to_string(),
                env: vec![],
            },
            event_type: None,
            resource_name: Some(BasicPattern::Plain("bar".to_string())),
            old: None,
            new: None,
        }],
        ..UMHConfig::default()
    };
    assert!(matching_rules(&UMH::new(other), &up).is_empty());

    // field-wise matching on a plain value
    match &up {
        PluginUpdate::Resource(u) => {
            assert!(u.resource_name.matches(&Some(BasicPattern::Plain("foo".to_string()))));
            assert!(!u.resource_name.matches(&Some(BasicPattern::Plain("bar".to_string()))));
            assert!(u.resource_name.matches(&None));
        }
        _ => panic!("not a resource update"),
    }
}

#[test]
fn env_of_resource_update() {
    let mut core = Core::new();
    let up = feed(&mut core, "exists resource name:foo role:Primary may_promote:yes").unwrap();
    let env = up.get_env();
    assert_eq!(env[0], ("DRBD_RES_NAME".to_string(), "foo".to_string()));
    assert_eq!(env[1], ("DRBD_OLD_ROLE".to_string(), "Unknown".to_string()));
    assert_eq!(env[2], ("DRBD_NEW_ROLE".to_string(), "Primary".to_string()));
    assert_eq!(env[3], ("DRBD_OLD_MAY_PROMOTE".to_string(), "false".to_string()));
    assert_eq!(env[4], ("DRBD_NEW_MAY_PROMOTE".to_string(), "true".to_string()));
}
