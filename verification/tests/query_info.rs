use at_serial::models::{ConfigInfo, ConnectionStatus, DeviceInfo};
use at_serial::query_info::{
    QueryInfo, ReplyLine, AUTO_DIAL_COMMAND, CONNECTION_STATUS_COMMAND, DEVICE_INFO_COMMAND,
    LAN_MODE_COMMAND, POWER_MANAGEMENT_COMMAND,
};

#[test]
fn device_info_reads_each_field() {
    let reply = "Manufacturer: TD Tech Ltd\r\nModel: MT5700M-CN\r\nRevision: V200R001\r\nIMEI: 861234567890123\r\n+GCAP: +CGSM,+DS,+ES\r\n\r\nOK\r\n";
    let info = QueryInfo::new().get_device_info(reply);
    assert_eq!(
        info,
        DeviceInfo {
            manufacturer: "TD Tech Ltd".to_string(),
            model: "MT5700M-CN".to_string(),
            version: "V200R001".to_string(),
            imei: "861234567890123".to_string(),
            capabilities: "+CGSM,+DS,+ES".to_string(),
        }
    );
}

#[test]
fn device_info_missing_fields_are_empty() {
    let info = QueryInfo::new().get_device_info("Model: X\r\nOK\r\n");
    assert_eq!(info.manufacturer, "");
    assert_eq!(info.model, "X");
    assert_eq!(info.version, "");
    assert_eq!(info.imei, "");
    assert_eq!(info.capabilities, "");
}

#[test]
fn device_info_last_line_wins() {
    let info = QueryInfo::new().get_device_info("Model: first\nModel: second\n");
    assert_eq!(info.model, "second");
}

#[test]
fn device_info_prefix_is_taken_once() {
    let info = QueryInfo::new().get_device_info("Model: Model: X\n");
    assert_eq!(info.model, "Model: X");
}

#[test]
fn device_info_keeps_carriage_return_of_unfinished_line() {
    let info = QueryInfo::new().get_device_info("IMEI: 12\r");
    assert_eq!(info.imei, "12\r");
}

#[test]
fn connstat_reads_the_four_fields() {
    let reply = "^NDISSTATQRY: 1,,,\"IPV4\",0,33,,\"IPV6\"\r\n\r\nOK\r\n";
    let status = QueryInfo::new().get_connstat(reply);
    assert_eq!(
        status,
        ConnectionStatus {
            ipv4_stat: "1".to_string(),
            ipv4_err: "".to_string(),
            ipv6_stat: "0".to_string(),
            ipv6_err: "33".to_string(),
        }
    );
}

#[test]
fn connstat_needs_eight_fields() {
    let status = QueryInfo::new().get_connstat("^NDISSTATQRY: 1,2,3,4,5,6,7\r\nOK\r\n");
    assert_eq!(status.ipv4_stat, "");
    assert_eq!(status.ipv4_err, "");
    assert_eq!(status.ipv6_stat, "");
    assert_eq!(status.ipv6_err, "");
}

#[test]
fn connstat_takes_repeated_prefix_off() {
    let status =
        QueryInfo::new().get_connstat("^NDISSTATQRY:^NDISSTATQRY: 2 , 7 ,c,d, 1 , 9 ,g,h\n");
    assert_eq!(status.ipv4_stat, "2");
    assert_eq!(status.ipv4_err, "7");
    assert_eq!(status.ipv6_stat, "1");
    assert_eq!(status.ipv6_err, "9");
}

#[test]
fn config_defaults_when_replies_say_nothing() {
    let config = QueryInfo::new().get_config_info("OK\r\n", "OK\r\n", "OK\r\n");
    assert_eq!(
        config,
        ConfigInfo {
            pcie_lan_mode: 1,
            pcie_pm_enabled: false,
            auto_dial_enabled: false,
            dial_mode: 0,
        }
    );
}

#[test]
fn config_reads_each_reply() {
    let config = QueryInfo::new().get_config_info(
        "^TDPCIELANCFG: 2\r\n\r\nOK\r\n",
        "^TDPMCFG: 1,0,0,0\r\n\r\nOK\r\n",
        "^SETAUTODAIL: 1, 2\r\n\r\nOK\r\n",
    );
    assert_eq!(
        config,
        ConfigInfo {
            pcie_lan_mode: 2,
            pcie_pm_enabled: true,
            auto_dial_enabled: true,
            dial_mode: 2,
        }
    );
}

#[test]
fn config_lan_mode_skips_lines_without_a_number() {
    let config =
        QueryInfo::new().get_config_info("^TDPCIELANCFG: 2\n^TDPCIELANCFG: fast\n", "", "");
    assert_eq!(config.pcie_lan_mode, 2);
}

#[test]
fn config_dial_mode_keeps_default_when_not_a_number() {
    let config = QueryInfo::new().get_config_info("", "", "^SETAUTODAIL:1,x\n");
    assert!(config.auto_dial_enabled);
    assert_eq!(config.dial_mode, 0);
}

#[test]
fn config_auto_dial_needs_two_fields() {
    let config = QueryInfo::new().get_config_info("", "", "^SETAUTODAIL:1\n");
    assert!(!config.auto_dial_enabled);
    assert_eq!(config.dial_mode, 0);
}

#[test]
fn config_power_management_reads_first_field_only() {
    let config = QueryInfo::new().get_config_info("", "^TDPMCFG:0,1\n", "");
    assert!(!config.pcie_pm_enabled);
    let config = QueryInfo::new().get_config_info("", "^TDPMCFG: 1 \n", "");
    assert!(config.pcie_pm_enabled);
}

#[test]
fn query_commands() {
    assert_eq!(DEVICE_INFO_COMMAND, "ATI");
    assert_eq!(CONNECTION_STATUS_COMMAND, "AT^NDISSTATQRY=8");
    assert_eq!(LAN_MODE_COMMAND, "AT^TDPCIELANCFG?");
    assert_eq!(POWER_MANAGEMENT_COMMAND, "AT^TDPMCFG?");
    assert_eq!(AUTO_DIAL_COMMAND, "AT^SETAUTODIAL?");
}

#[test]
fn supported_model() {
    let info = QueryInfo::new().get_device_info("Model: MT5700M-CN\r\nOK\r\n");
    assert!(info.is_supported());
    let info = QueryInfo::new().get_device_info("Model: MT5700M\r\nOK\r\n");
    assert!(!info.is_supported());
}

#[test]
fn config_labels() {
    let config = ConfigInfo {
        pcie_lan_mode: 1,
        pcie_pm_enabled: false,
        auto_dial_enabled: true,
        dial_mode: 0,
    };
    assert_eq!(config.lan_speed(), "1Gbps");
    assert_eq!(config.dial_mode_name(), "modem");
    let config = ConfigInfo { pcie_lan_mode: 2, dial_mode: 1, ..config };
    assert_eq!(config.lan_speed(), "2.5Gbps");
    assert_eq!(config.dial_mode_name(), "host (usb)");
    let config = ConfigInfo { pcie_lan_mode: 3, dial_mode: 2, ..config };
    assert_eq!(config.lan_speed(), "unknown");
    assert_eq!(config.dial_mode_name(), "host (phy)");
    let config = ConfigInfo { pcie_lan_mode: 0, dial_mode: -1, ..config };
    assert_eq!(config.lan_speed(), "unknown");
    assert_eq!(config.dial_mode_name(), "unknown");
}

fn chars(s: &str) -> Vec<char> {
    s.chars().collect()
}

#[test]
fn reply_line_prefixes() {
    assert_eq!(ReplyLine::Manufacturer.prefix(), "Manufacturer: ");
    assert_eq!(ReplyLine::Model.prefix(), "Model: ");
    assert_eq!(ReplyLine::Revision.prefix(), "Revision: ");
    assert_eq!(ReplyLine::Imei.prefix(), "IMEI: ");
    assert_eq!(ReplyLine::Capabilities.prefix(), "+GCAP: ");
    assert_eq!(ReplyLine::ConnectionStatus.prefix(), "^NDISSTATQRY:");
    assert_eq!(ReplyLine::LanMode.prefix(), "^TDPCIELANCFG:");
    assert_eq!(ReplyLine::PowerManagement.prefix(), "^TDPMCFG:");
    assert_eq!(ReplyLine::AutoDial.prefix(), "^SETAUTODAIL:");
    assert_eq!(ReplyLine::DialMode.prefix(), "^SETAUTODAIL:");
}

#[test]
fn reply_line_rules() {
    assert!(ReplyLine::Model.is_accepted(&chars("Model: ")));
    assert!(!ReplyLine::Model.is_accepted(&chars("model: x")));
    assert!(!ReplyLine::Model.is_accepted(&chars(" Model: x")));
    assert!(ReplyLine::ConnectionStatus.is_accepted(&chars("^NDISSTATQRY:,,,,,,,")));
    assert!(!ReplyLine::ConnectionStatus.is_accepted(&chars("^NDISSTATQRY:,,,,,,")));
    assert!(ReplyLine::LanMode.is_accepted(&chars("^TDPCIELANCFG: -3 ")));
    assert!(!ReplyLine::LanMode.is_accepted(&chars("^TDPCIELANCFG:")));
    assert!(!ReplyLine::LanMode.is_accepted(&chars("^TDPCIELANCFG: 1 2")));
    assert!(ReplyLine::PowerManagement.is_accepted(&chars("^TDPMCFG:")));
    assert!(ReplyLine::AutoDial.is_accepted(&chars("^SETAUTODAIL:,")));
    assert!(!ReplyLine::AutoDial.is_accepted(&chars("^SETAUTODAIL:1")));
    assert!(!ReplyLine::AutoDial.is_accepted(&chars("^SETAUTODIAL:1,2")));
    assert!(ReplyLine::DialMode.is_accepted(&chars("^SETAUTODAIL:x, 2 ,y")));
    assert!(!ReplyLine::DialMode.is_accepted(&chars("^SETAUTODAIL:1,")));
}

#[test]
fn reply_line_finds_the_last_accepted_line() {
    let lines = vec![chars("Model: a"), chars("x"), chars("Model: b"), chars("IMEI: 1")];
    assert_eq!(ReplyLine::Model.find_last(&lines), Some(2));
    assert_eq!(ReplyLine::Imei.find_last(&lines), Some(3));
    assert_eq!(ReplyLine::Revision.find_last(&lines), None);
    assert_eq!(ReplyLine::Model.find_last(&Vec::new()), None);
}
