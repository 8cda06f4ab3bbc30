use edgerouter_scripts::config::{Config, Timing, WanInterface, WanKind, Webhooks};
use edgerouter_scripts::remote_commands::{dispatch_action, normalize_command, RemoteAction};

fn config() -> Config {
    Config {
        scripts_dir: "/config/scripts".into(),
        log_file: "/tmp/log".into(),
        ping_fail_count_file: "/tmp/count".into(),
        log_last_upload_file: "/tmp/last".into(),
        conntrack_path: "/usr/sbin/conntrack".into(),
        runop: "/opt/vyatta/bin/vyatta-op-cmd-wrapper".into(),
        nat_probe_device: "192.168.1.96".into(),
        wan_interfaces: vec![
            WanInterface {
                name: "pppoe0".into(),
                kind: WanKind::Pppoe,
            },
            WanInterface {
                name: "pppoe1".into(),
                kind: WanKind::Pppoe,
            },
            WanInterface {
                name: "eth2".into(),
                kind: WanKind::Ethernet,
            },
        ],
        webhooks: Webhooks {
            reset_logs_url: "u".into(),
            reset_logs_access_key: "k".into(),
            router_commands_url: "u".into(),
            router_commands_access_key: "k".into(),
        },
        timing: Timing::default(),
    }
}

#[test]
fn command_is_trimmed_and_empty_rejected() {
    assert_eq!(normalize_command(Some("reset-pppoe0")).as_deref(), Some("reset-pppoe0"));
    assert_eq!(normalize_command(Some("  restart  ")).as_deref(), Some("restart"));
    assert_eq!(normalize_command(Some("   ")), None);
    assert_eq!(normalize_command(Some("")), None);
    assert_eq!(normalize_command(None), None);
}

#[test]
fn restart_and_resets() {
    let c = config();
    assert_eq!(dispatch_action(&c, "restart"), RemoteAction::Restart);
    assert_eq!(dispatch_action(&c, "restart-now"), RemoteAction::Ignore);
    assert_eq!(dispatch_action(&c, "reset-pppoe0"), RemoteAction::Reset(0));
    assert_eq!(dispatch_action(&c, "reset-eth2"), RemoteAction::Reset(2));
    assert_eq!(dispatch_action(&c, "reset-eth9"), RemoteAction::Ignore);
}

#[test]
fn enable_disable_only_ethernet() {
    let c = config();
    assert_eq!(dispatch_action(&c, "disable-eth2"), RemoteAction::Disable(2));
    assert_eq!(dispatch_action(&c, "enable-eth2"), RemoteAction::Enable(2));
    assert_eq!(dispatch_action(&c, "disable-pppoe1"), RemoteAction::Ignore);
    assert_eq!(dispatch_action(&c, "enable-pppoe0"), RemoteAction::Ignore);
    assert_eq!(dispatch_action(&c, "enable-"), RemoteAction::Ignore);
    assert_eq!(dispatch_action(&c, "shutdown"), RemoteAction::Ignore);
}
