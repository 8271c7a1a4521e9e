use fleet_state::architecture::Architecture;
use fleet_state::logsource::LogSource;
use fleet_state::node::Node;
use fleet_state::settings::{find_setting, flag_setting, text_setting, ConfigValue, Setting};

fn set(key: &str, value: ConfigValue) -> Setting {
    Setting { key: key.to_string(), value }
}

fn text(value: &str) -> ConfigValue {
    ConfigValue::Text(value.to_string())
}

fn sample() -> Node {
    Node::from_config(
        "n1".to_string(),
        &vec![
            set("name", text("alpha")),
            set("tftp-prefix", text("aa-bb")),
            set("mac-address", text("01-02-03-04-05-06")),
            set("ipv4-address", text("10.0.0.1")),
            set("serial-number", text("SN1")),
            set("architecture", text("X86_64")),
            set("pxe", ConfigValue::Boolean(true)),
        ],
        Vec::new(),
    )
}

#[test]
fn empty_configuration_gives_every_default() {
    let node = Node::from_config("n0".to_string(), &Vec::new(), Vec::new());
    assert_eq!(node.id, "n0");
    assert_eq!(node.name, "node");
    assert_eq!(node.tftp_prefix, "00-00-00-00-00-00");
    assert_eq!(node.mac_address, "00-00-00-00-00-00");
    assert_eq!(node.serial_number, "00-00-00-00-00-00");
    assert_eq!(node.ipv4_address, "0.0.0.0");
    assert_eq!(node.architecture, Architecture::ARM64);
    assert!(!node.pxe);
    assert!(node.log_inputs.is_empty());
}

#[test]
fn configuration_fills_every_field() {
    let node = sample();
    assert_eq!(node.id, "n1");
    assert_eq!(node.name, "alpha");
    assert_eq!(node.tftp_prefix, "aa-bb");
    assert_eq!(node.mac_address, "01-02-03-04-05-06");
    assert_eq!(node.ipv4_address, "10.0.0.1");
    assert_eq!(node.serial_number, "SN1");
    assert_eq!(node.architecture, Architecture::X86_64);
    assert!(node.pxe);
}

#[test]
fn log_sources_are_carried_through() {
    let logs = vec![LogSource { source: "journal".to_string() }, LogSource { source: "file".to_string() }];
    let node = Node::from_config("n".to_string(), &Vec::new(), logs);
    assert_eq!(node.log_inputs.len(), 2);
    assert_eq!(node.log_inputs[0].source, "journal");
    assert_eq!(node.log_inputs[1].source, "file");
}

#[test]
fn nodes_that_differ_in_address_only_are_equal() {
    let a = sample();
    let mut b = sample();
    b.ipv4_address = "192.168.1.1".to_string();
    b.pxe = false;
    b.architecture = Architecture::ARM64;
    b.log_inputs = vec![LogSource { source: "x".to_string() }];
    assert!(a == b);
}

#[test]
fn nodes_that_differ_in_identity_are_not_equal() {
    let a = sample();
    let mut b = sample();
    b.id = "other".to_string();
    assert!(a != b);
    let mut b = sample();
    b.name = "other".to_string();
    assert!(a != b);
    let mut b = sample();
    b.tftp_prefix = "other".to_string();
    assert!(a != b);
    let mut b = sample();
    b.mac_address = "other".to_string();
    assert!(a != b);
    let mut b = sample();
    b.serial_number = "other".to_string();
    assert!(a != b);
}

#[test]
fn values_read_as_text() {
    let entries = vec![
        set("number", ConfigValue::Integer(-42)),
        set("flag", ConfigValue::Boolean(true)),
        set("off", ConfigValue::Boolean(false)),
        set("nil", ConfigValue::Nil),
        set("table", ConfigValue::Composite),
        set("text", text("plain")),
    ];
    assert_eq!(text_setting(&entries, "number", "d"), "-42");
    assert_eq!(text_setting(&entries, "flag", "d"), "true");
    assert_eq!(text_setting(&entries, "off", "d"), "false");
    assert_eq!(text_setting(&entries, "nil", "d"), "d");
    assert_eq!(text_setting(&entries, "table", "d"), "d");
    assert_eq!(text_setting(&entries, "text", "d"), "plain");
    assert_eq!(text_setting(&entries, "missing", "d"), "d");
}

#[test]
fn values_read_as_truth_values() {
    let entries = vec![
        set("yes", text("Yes")),
        set("on", text("on")),
        set("one", text("1")),
        set("true", text("TRUE")),
        set("no", text("no")),
        set("zero", text("0")),
        set("other", text("maybe")),
        set("number", ConfigValue::Integer(5)),
        set("none", ConfigValue::Integer(0)),
        set("flag", ConfigValue::Boolean(true)),
        set("nil", ConfigValue::Nil),
        set("table", ConfigValue::Composite),
    ];
    assert!(flag_setting(&entries, "yes"));
    assert!(flag_setting(&entries, "on"));
    assert!(flag_setting(&entries, "one"));
    assert!(flag_setting(&entries, "true"));
    assert!(!flag_setting(&entries, "no"));
    assert!(!flag_setting(&entries, "zero"));
    assert!(!flag_setting(&entries, "other"));
    assert!(flag_setting(&entries, "number"));
    assert!(!flag_setting(&entries, "none"));
    assert!(flag_setting(&entries, "flag"));
    assert!(!flag_setting(&entries, "nil"));
    assert!(!flag_setting(&entries, "table"));
    assert!(!flag_setting(&entries, "missing"));
}

#[test]
fn malformed_settings_never_fail() {
    let node = Node::from_config(
        "n".to_string(),
        &vec![
            set("name", ConfigValue::Nil),
            set("architecture", text("sparc")),
            set("pxe", text("perhaps")),
            set("ipv4-address", ConfigValue::Composite),
            set("serial-number", ConfigValue::Integer(17)),
        ],
        Vec::new(),
    );
    assert_eq!(node.name, "node");
    assert_eq!(node.architecture, Architecture::ARM64);
    assert!(!node.pxe);
    assert_eq!(node.ipv4_address, "0.0.0.0");
    assert_eq!(node.serial_number, "17");
    assert_eq!(node.mac_address, "00-00-00-00-00-00");
}

#[test]
fn the_first_setting_of_a_key_is_found() {
    let entries = vec![set("a", ConfigValue::Integer(1)), set("b", ConfigValue::Integer(2)), set("a", ConfigValue::Integer(3))];
    assert!(matches!(find_setting(&entries, "a"), Some(ConfigValue::Integer(1))));
    assert!(matches!(find_setting(&entries, "b"), Some(ConfigValue::Integer(2))));
    assert!(find_setting(&entries, "c").is_none());
    assert!(find_setting(&entries, "A").is_none());
}
