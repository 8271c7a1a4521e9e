use fleet_state::architecture::Architecture;
use fleet_state::document::{Document, Entry};
use fleet_state::service::{Service, ServiceColumns};
use fleet_state::timestamp::Timestamp;

fn at(seconds: i64) -> Timestamp {
    Timestamp { seconds, nanoseconds: 0 }
}

fn member(name: &str, image: &str, deployment: Option<i64>) -> Service {
    let mut service = Service::started_at(name, image, "host", at(10));
    service.deployment = deployment;
    service
}

fn pair(key: &str, value: Document) -> Entry {
    Entry { key: Document::Text(key.to_string()), value }
}

fn text(value: &str) -> Document {
    Document::Text(value.to_string())
}

#[test]
fn new_service_has_one_replica_and_nothing_else() {
    let service = Service::new("web", "nginx", "web-1");
    assert_eq!(service.id, None);
    assert_eq!(service.name, "web");
    assert_eq!(service.image, "nginx");
    assert_eq!(service.hostname, "web-1");
    assert_eq!(service.replicas, 1);
    assert_eq!(service.deployment, None);
    assert_eq!(service.ipv4_address, None);
    assert_eq!(service.preferred_node, None);
    assert_eq!(service.end, None);
    assert_eq!(service.node, None);
    assert_eq!(service.architecture, None);
    assert!(service.start.seconds > 1_500_000_000);
}

#[test]
fn started_at_keeps_the_start() {
    let service = Service::started_at("web", "nginx", "web-1", at(77));
    assert_eq!(service.start, at(77));
    assert_eq!(service.replicas, 1);
}

#[test]
fn grouping_collapses_services_of_one_image_and_deployment() {
    let grouped = Service::group_services(vec![
        member("A", "x", Some(1)),
        member("B", "x", Some(1)),
        member("C", "y", Some(2)),
    ]);
    assert_eq!(grouped.len(), 2);
    assert_eq!(grouped[0].name, "A");
    assert_eq!(grouped[0].image, "x");
    assert_eq!(grouped[0].replicas, 2);
    assert_eq!(grouped[1].name, "C");
    assert_eq!(grouped[1].image, "y");
    assert_eq!(grouped[1].replicas, 1);
}

#[test]
fn grouping_keeps_the_order_in_which_keys_first_occur() {
    let grouped = Service::group_services(vec![
        member("A", "z", Some(3)),
        member("B", "a", Some(1)),
        member("C", "z", Some(3)),
        member("D", "m", Some(2)),
        member("E", "a", Some(1)),
        member("F", "z", Some(3)),
    ]);
    let names: Vec<&str> = grouped.iter().map(|s| s.name.as_str()).collect();
    assert_eq!(names, vec!["A", "B", "D"]);
    let replicas: Vec<i64> = grouped.iter().map(|s| s.replicas).collect();
    assert_eq!(replicas, vec![3, 2, 1]);
}

#[test]
fn grouping_an_empty_list_gives_an_empty_list() {
    assert!(Service::group_services(Vec::new()).is_empty());
}

#[test]
fn grouping_overwrites_the_replicas_with_the_member_count() {
    let mut only = member("A", "x", Some(1));
    only.replicas = 9;
    let grouped = Service::group_services(vec![only]);
    assert_eq!(grouped.len(), 1);
    assert_eq!(grouped[0].replicas, 1);
}

#[test]
fn grouping_a_grouped_list_changes_nothing() {
    let once = Service::group_services(vec![
        member("A", "x", Some(1)),
        member("B", "y", Some(1)),
        member("C", "x", Some(2)),
    ]);
    let names: Vec<String> = once.iter().map(|s| s.name.clone()).collect();
    let replicas: Vec<i64> = once.iter().map(|s| s.replicas).collect();
    let twice = Service::group_services(once);
    assert_eq!(twice.iter().map(|s| s.name.clone()).collect::<Vec<String>>(), names);
    assert_eq!(twice.iter().map(|s| s.replicas).collect::<Vec<i64>>(), replicas);
    assert_eq!(replicas, vec![1, 1, 1]);
}

#[test]
fn no_deployment_groups_with_deployment_one() {
    let grouped = Service::group_services(vec![
        member("A", "x", None),
        member("B", "x", Some(1)),
        member("C", "x", Some(2)),
    ]);
    assert_eq!(grouped.len(), 2);
    assert_eq!(grouped[0].name, "A");
    assert_eq!(grouped[0].deployment, None);
    assert_eq!(grouped[0].replicas, 2);
    assert_eq!(grouped[1].name, "C");
    assert_eq!(grouped[1].replicas, 1);
}

#[test]
fn group_key_is_image_hyphen_deployment() {
    assert_eq!(member("A", "img", Some(42)).group_key(), "img-42");
    assert_eq!(member("A", "img", None).group_key(), "img-1");
    assert_eq!(member("A", "img", Some(-7)).group_key(), "img--7");
    assert_eq!(member("A", "", Some(0)).group_key(), "-0");
    assert_eq!(
        member("A", "i", Some(i64::MIN)).group_key(),
        "i--9223372036854775808"
    );
}

#[test]
fn grouping_keeps_the_other_fields_of_the_first_member() {
    let mut first = member("A", "x", Some(4));
    first.id = Some(12);
    first.ipv4_address = Some("10.0.0.1".to_string());
    first.node = Some("n1".to_string());
    first.architecture = Some(Architecture::X86_64);
    first.end = Some(at(99));
    let grouped = Service::group_services(vec![first, member("B", "x", Some(4))]);
    assert_eq!(grouped.len(), 1);
    assert_eq!(grouped[0].id, Some(12));
    assert_eq!(grouped[0].ipv4_address, Some("10.0.0.1".to_string()));
    assert_eq!(grouped[0].node, Some("n1".to_string()));
    assert_eq!(grouped[0].architecture, Some(Architecture::X86_64));
    assert_eq!(grouped[0].end, Some(at(99)));
    assert_eq!(grouped[0].start, at(10));
    assert_eq!(grouped[0].hostname, "host");
    assert_eq!(grouped[0].replicas, 2);
}

#[test]
fn mapping_fills_every_field_it_names() {
    let entries = vec![
        pair("image", text("nginx:1")),
        pair("hostname", text("front")),
        pair("replicas", Document::Integer(3)),
        pair("node", text("rack-2")),
        pair("ipv4-address", text("10.1.2.3")),
        pair("unknown", text("ignored")),
    ];
    let service = Service::from_yaml_with("web", &entries, "generated".to_string(), at(5));
    assert_eq!(service.id, None);
    assert_eq!(service.name, "web");
    assert_eq!(service.image, "nginx:1");
    assert_eq!(service.hostname, "front");
    assert_eq!(service.replicas, 3);
    assert_eq!(service.preferred_node, Some("rack-2".to_string()));
    assert_eq!(service.ipv4_address, Some("10.1.2.3".to_string()));
    assert_eq!(service.node, None);
    assert_eq!(service.deployment, None);
    assert_eq!(service.architecture, None);
    assert_eq!(service.start, at(5));
    assert_eq!(service.end, None);
}

#[test]
fn empty_mapping_gives_the_defaults() {
    let service = Service::from_yaml_with("web", &Vec::new(), "generated".to_string(), at(5));
    assert_eq!(service.image, "");
    assert_eq!(service.hostname, "generated");
    assert_eq!(service.replicas, 1);
    assert_eq!(service.preferred_node, None);
    assert_eq!(service.ipv4_address, None);
}

#[test]
fn replicas_that_are_no_positive_number_count_as_one() {
    for value in [
        Document::Integer(0),
        Document::Integer(-4),
        text("3"),
        Document::Null,
        Document::Boolean(true),
        Document::Other,
    ] {
        let entries = vec![pair("replicas", value)];
        let service = Service::from_yaml_with("web", &entries, "g".to_string(), at(5));
        assert_eq!(service.replicas, 1);
    }
}

#[test]
fn values_that_are_no_text_read_as_empty_text() {
    let entries = vec![
        pair("image", Document::Integer(7)),
        pair("hostname", Document::Sequence(Vec::new())),
        pair("node", Document::Null),
    ];
    let service = Service::from_yaml_with("web", &entries, "g".to_string(), at(5));
    assert_eq!(service.image, "");
    assert_eq!(service.hostname, "g");
    assert_eq!(service.preferred_node, Some(String::new()));
}

#[test]
fn a_key_that_is_no_text_is_never_found() {
    let entries = vec![Entry { key: Document::Integer(1), value: text("nginx") }];
    let service = Service::from_yaml_with("web", &entries, "g".to_string(), at(5));
    assert_eq!(service.image, "");
}

#[test]
fn the_first_of_two_pairs_with_one_key_counts() {
    let entries = vec![pair("image", text("one")), pair("image", text("two"))];
    let service = Service::from_yaml_with("web", &entries, "g".to_string(), at(5));
    assert_eq!(service.image, "one");
}

#[test]
fn mapping_without_hostname_gets_a_generated_one() {
    let service = Service::from_yaml("web", &vec![pair("image", text("nginx"))]);
    assert!(!service.hostname.is_empty());
    assert_eq!(service.image, "nginx");
    assert_eq!(service.node, None);
    let named = Service::from_yaml("web", &vec![pair("hostname", text("front"))]);
    assert_eq!(named.hostname, "front");
    let odd = Service::from_yaml("web", &vec![pair("hostname", Document::Integer(5))]);
    assert!(odd.hostname.contains('-'));
}

fn full_row() -> ServiceColumns {
    ServiceColumns {
        id: Some(Some(7)),
        name: Some("web".to_string()),
        image: Some("nginx".to_string()),
        deployment: Some(Some(3)),
        node: Some(Some("n1".to_string())),
        start: Some(at(100)),
        end: Some(Some(at(200))),
        ipv4_address: Some(Some("10.0.0.9".to_string())),
        hostname: Some("front".to_string()),
        architecture: Some("X86_64".to_string()),
    }
}

#[test]
fn row_maps_its_ten_columns() {
    let service = Service::from_row_with(&full_row(), at(1));
    assert_eq!(service.id, Some(7));
    assert_eq!(service.name, "web");
    assert_eq!(service.image, "nginx");
    assert_eq!(service.deployment, Some(3));
    assert_eq!(service.node, Some("n1".to_string()));
    assert_eq!(service.start, at(100));
    assert_eq!(service.end, Some(at(200)));
    assert_eq!(service.ipv4_address, Some("10.0.0.9".to_string()));
    assert_eq!(service.hostname, "front");
    assert_eq!(service.architecture, Some(Architecture::X86_64));
    assert_eq!(service.replicas, 1);
    assert_eq!(service.preferred_node, None);
}

#[test]
fn unreadable_columns_have_their_defaults() {
    let row = ServiceColumns {
        id: None,
        name: None,
        image: None,
        deployment: None,
        node: None,
        start: None,
        end: None,
        ipv4_address: None,
        hostname: None,
        architecture: None,
    };
    let service = Service::from_row_with(&row, at(55));
    assert_eq!(service.id, Some(0));
    assert_eq!(service.name, "");
    assert_eq!(service.image, "");
    assert_eq!(service.deployment, None);
    assert_eq!(service.node, None);
    assert_eq!(service.start, at(55));
    assert_eq!(service.end, None);
    assert_eq!(service.ipv4_address, None);
    assert_eq!(service.hostname, "");
    assert_eq!(service.architecture, Some(Architecture::ARM64));
    let read_now = Service::from_row(&row);
    assert!(read_now.start.seconds > 1_500_000_000);
    assert_eq!(Service::from_row(&full_row()).start, at(100));
}

#[test]
fn unknown_architecture_in_a_row_is_arm64() {
    let mut row = full_row();
    row.architecture = Some("riscv".to_string());
    assert_eq!(Service::from_row_with(&row, at(1)).architecture, Some(Architecture::ARM64));
    row.id = Some(None);
    assert_eq!(Service::from_row_with(&row, at(1)).id, None);
}

#[test]
fn with_replicas_changes_only_the_replicas() {
    let service = member("A", "x", Some(4)).with_replicas(6);
    assert_eq!(service.replicas, 6);
    assert_eq!(service.name, "A");
    assert_eq!(service.image, "x");
    assert_eq!(service.deployment, Some(4));
}
