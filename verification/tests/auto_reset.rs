use edgerouter_scripts::auto_reset::{
    first_inet_line, in_status_window, missing_ip_action, parse_trimmed_u32, ping_failure_step,
    pppoe_reset_order, status_summary, wan_preference_target, MissingIpAction, PingAction,
};
use edgerouter_scripts::config::{Config, Timing, WanInterface, WanKind, Webhooks};
use edgerouter_scripts::ip_test::{InterfaceIps, IpTestResult};

fn wan(name: &str, kind: WanKind) -> WanInterface {
    WanInterface {
        name: name.to_string(),
        kind,
    }
}

fn config_with(wans: Vec<WanInterface>) -> Config {
    Config {
        scripts_dir: "/config/scripts".into(),
        log_file: "/tmp/log".into(),
        ping_fail_count_file: "/tmp/count".into(),
        log_last_upload_file: "/tmp/last".into(),
        conntrack_path: "/usr/sbin/conntrack".into(),
        runop: "/opt/vyatta/bin/vyatta-op-cmd-wrapper".into(),
        nat_probe_device: "192.168.1.96".into(),
        wan_interfaces: wans,
        webhooks: Webhooks {
            reset_logs_url: "u".into(),
            reset_logs_access_key: "k".into(),
            router_commands_url: "u".into(),
            router_commands_access_key: "k".into(),
        },
        timing: Timing::default(),
    }
}

fn three() -> Config {
    config_with(vec![
        wan("pppoe0", WanKind::Pppoe),
        wan("pppoe1", WanKind::Pppoe),
        wan("eth2", WanKind::Ethernet),
    ])
}

fn entries(list: &[(&str, Option<&str>)]) -> Vec<(String, Option<String>)> {
    list.iter()
        .map(|(n, ip)| ((*n).to_string(), ip.map(str::to_string)))
        .collect()
}

#[test]
fn ping_counter_escalates() {
    let mut count = 0;
    let mut actions = Vec::new();
    for _ in 0..10 {
        let step = ping_failure_step(count, false);
        count = step.count;
        actions.push(step.action);
    }
    assert_eq!(count, 10);
    assert_eq!(actions[0], PingAction::LogOnly);
    assert_eq!(actions[1], PingAction::LogOnly);
    assert_eq!(actions[2], PingAction::ResetAllPppoe);
    assert_eq!(actions[7], PingAction::ResetAllPppoe);
    assert_eq!(actions[8], PingAction::Reboot);
    assert_eq!(actions[9], PingAction::Reboot);
    assert!(!PingAction::LogOnly.ends_checks());
    assert!(PingAction::ResetAllPppoe.ends_checks());
    assert!(PingAction::Reboot.ends_checks());
    let ok = ping_failure_step(count, true);
    assert_eq!(ok.count, 0);
    assert_eq!(ok.action, PingAction::NoAction);
    assert!(!ok.action.ends_checks());
}

#[test]
fn status_window_times() {
    assert!(in_status_window(2, 2));
    assert!(in_status_window(14, 8));
    assert!(!in_status_window(2, 1));
    assert!(!in_status_window(14, 9));
    assert!(!in_status_window(3, 5));
}

#[test]
fn summary_lists_each_interface() {
    let e = entries(&[("pppoe0", Some("inet 1.1.1.1")), ("eth2", None)]);
    assert_eq!(status_summary(&e), "pppoe0: inet 1.1.1.1, eth2: ");
    assert_eq!(status_summary(&[]), "");
}

#[test]
fn pppoe_reset_order_is_lowest_first() {
    let order = pppoe_reset_order(&three());
    assert_eq!(
        order,
        vec![wan("pppoe1", WanKind::Pppoe), wan("pppoe0", WanKind::Pppoe)]
    );
}

#[test]
fn missing_ip_decisions() {
    let c = three();
    let all_down = entries(&[("pppoe0", None), ("pppoe1", None), ("eth2", Some("x"))]);
    assert_eq!(missing_ip_action(&c, &all_down), MissingIpAction::ResetAllPppoe);
    let primary_down = entries(&[("pppoe0", None), ("pppoe1", Some("x")), ("eth2", None)]);
    assert_eq!(missing_ip_action(&c, &primary_down), MissingIpAction::ResetPrimary);
    let primary_up = entries(&[("pppoe0", Some("x")), ("pppoe1", None), ("eth2", None)]);
    assert_eq!(missing_ip_action(&c, &primary_up), MissingIpAction::NoAction);
    let only_eth = config_with(vec![wan("eth2", WanKind::Ethernet)]);
    assert_eq!(missing_ip_action(&only_eth, &entries(&[("eth2", None)])), MissingIpAction::NoAction);
    let eth_primary = config_with(vec![wan("eth2", WanKind::Ethernet), wan("pppoe0", WanKind::Pppoe)]);
    assert_eq!(
        missing_ip_action(&eth_primary, &entries(&[("eth2", None), ("pppoe0", Some("x"))])),
        MissingIpAction::NoAction
    );
    assert_eq!(
        missing_ip_action(&eth_primary, &entries(&[("eth2", None)])),
        MissingIpAction::ResetAllPppoe
    );
}

#[test]
fn preference_target_is_configured_better_wan() {
    let c = three();
    let result = IpTestResult::Matched {
        index: 2,
        interface: "eth2".into(),
        ip: "3.3.3.3".into(),
        interfaces: InterfaceIps {
            nat_ip: Some("3.3.3.3".into()),
            wans: entries(&[
                ("pppoe0", None),
                ("pppoe1", Some("2.2.2.2")),
                ("eth2", Some("3.3.3.3")),
            ]),
        },
    };
    assert_eq!(wan_preference_target(&c, &result), Some(&wan("pppoe1", WanKind::Pppoe)));
    let missing = IpTestResult::MissingIp {
        interfaces: InterfaceIps {
            nat_ip: None,
            wans: vec![],
        },
    };
    assert_eq!(wan_preference_target(&c, &missing), None);
}

#[test]
fn inet_line_and_counters() {
    let out = "2: eth2: <BROADCAST>\n    link/ether 00:11\n    inet 192.168.1.5/24 brd x\n    inet 10.0.0.1/8\n";
    assert_eq!(first_inet_line(out).as_deref(), Some("inet 192.168.1.5/24 brd x"));
    assert_eq!(first_inet_line("    inet6 ::1/128\n"), None);
    assert_eq!(parse_trimmed_u32(" 7\n"), Some(7));
    assert_eq!(parse_trimmed_u32("14"), Some(14));
    assert_eq!(parse_trimmed_u32(""), None);
    assert_eq!(parse_trimmed_u32("-1"), None);
    assert_eq!(parse_trimmed_u32("4294967296"), None);
}
