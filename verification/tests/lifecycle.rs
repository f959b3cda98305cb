use drbd_reactor::plugin::debugger::DebuggerConfig;
use drbd_reactor::plugin::promoter::PromoterConfig;
use drbd_reactor::plugin::prometheus::PrometheusConfig;
use drbd_reactor::plugin::{plan_reload, PluginCfg, PluginConfig, PluginType, ReloadError};

fn empty_cfg() -> PluginConfig {
    PluginConfig {
        promoter: vec![],
        debugger: vec![],
        umh: vec![],
        prometheus: vec![],
        agentx: vec![],
    }
}

#[test]
fn reload_unchanged_is_idempotent() {
    // one debugger and one promoter are running, and stay configured
    let running = vec![
        PluginCfg::Debugger(DebuggerConfig { id: None }),
        PluginCfg::Promoter(PromoterConfig::default()),
    ];
    let mut cfg = empty_cfg();
    cfg.debugger.push(DebuggerConfig { id: None });
    cfg.promoter.push(PromoterConfig::default());
    let plan = plan_reload(&running, &cfg).expect("no duplicates");
    assert_eq!(plan.keep.len(), 2);
    assert!(plan.stop.is_empty());
    assert!(plan.start.is_empty());
}

#[test]
fn reload_one_changed_swaps_one() {
    let running = vec![
        PluginCfg::Debugger(DebuggerConfig { id: None }),
        PluginCfg::Prometheus(PrometheusConfig {
            address: "[::]:9942".to_string(),
            enums: false,
            id: None,
        }),
    ];
    let mut cfg = empty_cfg();
    cfg.debugger.push(DebuggerConfig { id: None });
    cfg.prometheus.push(PrometheusConfig {
        address: "[::]:9999".to_string(),
        enums: false,
        id: None,
    });
    let plan = plan_reload(&running, &cfg).expect("no duplicates");
    assert_eq!(plan.keep.len(), 1);
    assert_eq!(plan.stop.len(), 1);
    assert_eq!(plan.start.len(), 1);
    match (&plan.stop[0], &plan.start[0]) {
        (PluginCfg::Prometheus(old), PluginCfg::Prometheus(new)) => {
            assert_eq!(old.address, "[::]:9942");
            assert_eq!(new.address, "[::]:9999");
        }
        _ => panic!("wrong plugins planned"),
    }
}

#[test]
fn duplicate_config_rejected() {
    let mut cfg = empty_cfg();
    cfg.prometheus.push(PrometheusConfig::default());
    cfg.prometheus.push(PrometheusConfig::default());
    let running: Vec<PluginCfg> = vec![];
    assert_eq!(plan_reload(&running, &cfg).unwrap_err(), ReloadError::DuplicateConfig);
}

#[test]
fn plugin_classes() {
    assert_eq!(
        PluginCfg::Promoter(PromoterConfig::default()).plugin_type(),
        PluginType::Change
    );
    assert_eq!(
        PluginCfg::Debugger(DebuggerConfig { id: None }).plugin_type(),
        PluginType::Change
    );
    assert_eq!(
        PluginCfg::Prometheus(PrometheusConfig::default()).plugin_type(),
        PluginType::Event
    );
}
