use drbd_reactor::config::{basename_without_ext, SnippetNameError};
use drbd_reactor::drbdstatus;
use drbd_reactor::plugin::promoter::{
    check_resource_options, generate_systemd_templates, QuorumLossPolicy, SystemdDependency,
    SystemdFailureAction, SystemdSettings, TemplateError,
};
use drbd_reactor::systemd::{
    escape_name, escaped_ocf_parse_to_env, escaped_services_target, is_active, UnitActiveState,
};

#[test]
fn test_ocf_parse_to_env() {
    let (name, env) = escaped_ocf_parse_to_env(
        "res1",
        "vendor1",
        "agent1",
        "name1\nk1=v1 \nk2=\"with whitespace\" k3=with\\ different\\ whitespace foo empty='' pass='*pass/'",
    )
    .expect("should work");

    assert_eq!(name, "ocf.ra@name1_res1.service");
    assert_eq!(
        &env[..],
        &[
            "OCF_RESKEY_k1=v1",
            "OCF_RESKEY_k2=with\\x20whitespace",
            "OCF_RESKEY_k3=with\\x20different\\x20whitespace",
            "OCF_RESKEY_foo=",
            "OCF_RESKEY_empty=",
            "OCF_RESKEY_pass=\\x2apass/",
            "AGENT=/usr/lib/ocf/resource.d/vendor1/agent1"
        ]
    );

    // escaping
    let (name, _env) = escaped_ocf_parse_to_env("res-1", "vendor1", "agent1", "name-1 do not care")
        .expect("should work");

    assert_eq!(name, "ocf.ra@name\\x2d1_res\\x2d1.service");
}

#[test]
fn name_escaping() {
    assert_eq!(escape_name("res1"), "res1");
    assert_eq!(escape_name("res-1"), "res\\x2d1");
    assert_eq!(escape_name("a/b"), "a-b");
    assert_eq!(escape_name(".hidden"), "\\x2ehidden");
    assert_eq!(escape_name("a.b"), "a.b");
    assert_eq!(escaped_services_target("res-1"), "drbd-services@res\\x2d1.target");
}

#[test]
fn unit_state_parse() {
    let st = UnitActiveState::from_str("active").unwrap();
    assert!(is_active(&st));
    let st = UnitActiveState::from_str("inactive").unwrap();
    assert!(!is_active(&st));
    assert!(UnitActiveState::from_str("bogus").is_err());
}

#[test]
fn generate_stack_units() {
    let settings = SystemdSettings {
        dependencies_as: SystemdDependency::Requires,
        target_as: SystemdDependency::Requires,
        failure_action: SystemdFailureAction::NoAction,
    };
    let actions = vec![
        "ocf:heartbeat:Filesystem fs_foo device=/dev/drbd1".to_string(),
        "data.mount".to_string(),
        "svc@foo.service".to_string(),
    ];
    let (files, services) = generate_systemd_templates("foo", &actions, &settings, false)
        .expect("generation should work");
    assert_eq!(
        services,
        vec![
            "ocf.ra@fs_foo_foo.service".to_string(),
            "data.mount".to_string(),
            "svc@foo.service".to_string(),
        ]
    );
    // promote override, three service overrides plus one mount conf, target
    // conf and the shutdown-ordering conf
    assert_eq!(files.len(), 1 + 4 + 2);
    assert_eq!(files[0].dir, "/run/systemd/system/drbd-promote@foo.service.d");
    assert_eq!(files[0].name, "reactor.conf");
    assert_eq!(
        files[0].content,
        "# Auto-generated by drbd-reactor, DO NOT EDIT\n[Service]\nExecStart=/lib/drbd/scripts/drbd-service-shim.sh primary %I\nExecCondition=\n[Unit]\n\n"
    );
    assert_eq!(files[1].dir, "/run/systemd/system/ocf.ra@fs_foo_foo.service.d");
    assert_eq!(
        files[1].content,
        "# Auto-generated by drbd-reactor, DO NOT EDIT\n[Unit]\nDescription=drbd-reactor controlled %N\nPartOf = drbd-services@foo.target\n\nRequires = drbd-promote@foo.service\nAfter = drbd-promote@foo.service\n\n[Service]\nEnvironment= OCF_RESKEY_device=/dev/drbd1\nEnvironment= AGENT=/usr/lib/ocf/resource.d/heartbeat/Filesystem\n"
    );
    assert_eq!(files[2].dir, "/run/systemd/system/data.mount.d");
    assert_eq!(files[2].name, "reactor-50-mount.conf");
    assert_eq!(
        files[2].content,
        "# Auto-generated by drbd-reactor, DO NOT EDIT\n[Unit]\nDefaultDependencies=no\n"
    );
    assert_eq!(
        files[3].content,
        "# Auto-generated by drbd-reactor, DO NOT EDIT\n[Unit]\nDescription=drbd-reactor controlled %N\nPartOf = drbd-services@foo.target\n\nRequires = drbd-promote@foo.service\nAfter = drbd-promote@foo.service\nRequires = ocf.ra@fs_foo_foo.service\nAfter = ocf.ra@fs_foo_foo.service\n"
    );
    assert_eq!(files[5].dir, "/run/systemd/system/drbd-services@foo.target.d");
    assert_eq!(files[5].name, "reactor.conf");
    assert_eq!(
        files[5].content,
        "# Auto-generated by drbd-reactor, DO NOT EDIT\n[Unit]\nRequires = ocf.ra@fs_foo_foo.service\nRequires = data.mount\nRequires = svc@foo.service\n"
    );
    assert_eq!(files[6].name, "reactor-50-before.conf");
    assert_eq!(
        files[6].content,
        "# Auto-generated by drbd-reactor, DO NOT EDIT\n[Unit]\nBefore=drbd-reactor.service\n"
    );
}

#[test]
fn generate_refusals() {
    let settings = SystemdSettings {
        dependencies_as: SystemdDependency::Requires,
        target_as: SystemdDependency::Requires,
        failure_action: SystemdFailureAction::NoAction,
    };
    // a slash in a service name could overwrite unintended paths
    let actions = vec!["/mnt/data".to_string()];
    assert_eq!(
        generate_systemd_templates("foo", &actions, &settings, false).unwrap_err(),
        TemplateError::SlashInServiceName
    );
    // the same service twice in one stack
    let actions = vec!["a.service".to_string(), "a.service".to_string()];
    assert_eq!(
        generate_systemd_templates("foo", &actions, &settings, false).unwrap_err(),
        TemplateError::DuplicateServiceName
    );
    // an OCF descriptor whose arguments do not tokenize
    let actions = vec!["ocf:v:a 'unclosed".to_string()];
    assert_eq!(
        generate_systemd_templates("foo", &actions, &settings, false).unwrap_err(),
        TemplateError::BadOcfArgs
    );
    // shell comments leave no agent name behind
    let actions = vec!["ocf:v:a #only-a-comment".to_string()];
    assert_eq!(
        generate_systemd_templates("foo", &actions, &settings, false).unwrap_err(),
        TemplateError::BadOcfArgs
    );
}

#[test]
fn escalation_units_generated() {
    let settings = SystemdSettings {
        dependencies_as: SystemdDependency::Requires,
        target_as: SystemdDependency::Requires,
        failure_action: SystemdFailureAction::Reboot,
    };
    let actions = vec!["a.service".to_string()];
    let (files, _services) =
        generate_systemd_templates("foo", &actions, &settings, true).expect("should work");
    assert_eq!(files[1].dir, "/run/systemd/system/drbd-demote-or-escalate@foo.service.d");
    assert_eq!(
        files[1].content,
        "# Auto-generated by drbd-reactor, DO NOT EDIT\n[Unit]\nFailureAction=reboot\nConflicts=drbd-promote@%i.service\n\n[Service]\nExecStart=\nExecStart=/lib/drbd/scripts/drbd-service-shim.sh secondary-secondary-force-or-escalate %I\n\n"
    );
}

#[test]
fn resource_option_check() {
    let shown = drbdstatus::Resource {
        resource: "foo".to_string(),
        options: drbdstatus::Options {
            auto_promote: true,
            quorum: "majority".to_string(),
            on_no_quorum: "suspend-io".to_string(),
            on_suspended_primary_outdated: "force-secondary".to_string(),
            on_no_data_accessible: "io-error".to_string(),
        },
        connections: vec![drbdstatus::Connection {
            net: drbdstatus::Net {
                rr_conflict: "disconnect".to_string(),
                fencing: "dont-care".to_string(),
            },
        }],
    };
    let mismatches = check_resource_options(&shown, &QuorumLossPolicy::Freeze);
    assert_eq!(mismatches.len(), 3);
    assert_eq!(mismatches[0].what, "auto-promote");
    assert_eq!(mismatches[0].expected, "no");
    assert_eq!(mismatches[0].actual, "yes");
    assert_eq!(mismatches[1].what, "on-no-data-accessible");
    assert_eq!(mismatches[1].expected, "suspend-io");
    assert_eq!(mismatches[2].what, "rr-conflict");
    assert_eq!(mismatches[2].expected, "retry-connect");

    // everything as required: no warnings
    let good = drbdstatus::Resource {
        resource: "foo".to_string(),
        options: drbdstatus::Options {
            auto_promote: false,
            quorum: "majority".to_string(),
            on_no_quorum: "io-error".to_string(),
            on_suspended_primary_outdated: "force-secondary".to_string(),
            on_no_data_accessible: "io-error".to_string(),
        },
        connections: vec![],
    };
    assert!(check_resource_options(&good, &QuorumLossPolicy::Shutdown).is_empty());
}

#[test]
fn test_basename_without_ext() {
    let bn = basename_without_ext("/x/foo.toml").expect("getting basename from /x/foo.toml");
    assert_eq!(bn, "foo");

    let bn = basename_without_ext("/x/foo.toml.disabled")
        .expect("getting basename from /x/foo.toml.disabled");
    assert_eq!(bn, "foo");

    let bn = basename_without_ext("/x/foo.bar");
    assert!(bn.is_err());
    assert_eq!(bn.unwrap_err(), SnippetNameError::WrongExtension);
}
