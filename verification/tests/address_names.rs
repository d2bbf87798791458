use mijia_bridge::address::{parse_address, SensorAddress};
use mijia_bridge::names::{parse_name_line, parse_sensor_names, ConfigError, SensorNames};

#[test]
fn address_string_forms() {
    let a = SensorAddress::new(0xA4, 0xC1, 0x38, 0x01, 0x02, 0xFF);
    assert_eq!(a.to_address_string(), "A4:C1:38:01:02:FF");
    assert_eq!(a.to_node_id_string(), "A4C1380102FF");
}

#[test]
fn parse_address_accepts_both_letter_cases() {
    let a = parse_address("A4:C1:38:01:02:FF").unwrap();
    assert_eq!(a, SensorAddress::new(0xA4, 0xC1, 0x38, 0x01, 0x02, 0xFF));
    let b = parse_address("a4:c1:38:01:02:ff").unwrap();
    assert_eq!(a, b);
}

#[test]
fn parse_address_rejects_malformed_strings() {
    assert!(parse_address("").is_none());
    assert!(parse_address("A4:C1:38:01:02").is_none());
    assert!(parse_address("A4:C1:38:01:02:FF:00").is_none());
    assert!(parse_address("A4-C1-38-01-02-FF").is_none());
    assert!(parse_address("G4:C1:38:01:02:FF").is_none());
    assert!(parse_address("A4:C1:38:01:02:F").is_none());
}

#[test]
fn address_round_trips_through_its_string_form() {
    let a = SensorAddress::new(0x00, 0x10, 0xAB, 0xCD, 0xEF, 0x99);
    assert_eq!(parse_address(&a.to_address_string()), Some(a));
}

#[test]
fn parse_name_line_splits_at_first_equals() {
    let (addr, name) = parse_name_line("A4:C1:38:01:02:FF=Living room").unwrap();
    assert_eq!(addr, SensorAddress::new(0xA4, 0xC1, 0x38, 0x01, 0x02, 0xFF));
    assert_eq!(name, "Living room");

    // The name may itself contain an equals sign.
    let (_, name) = parse_name_line("A4:C1:38:01:02:FF=a=b").unwrap();
    assert_eq!(name, "a=b");

    // The name may be empty.
    let (_, name) = parse_name_line("A4:C1:38:01:02:FF=").unwrap();
    assert_eq!(name, "");
}

#[test]
fn parse_name_line_reports_malformed_lines() {
    assert!(matches!(
        parse_name_line("no separator here"),
        Err(ConfigError::MissingSeparator { .. })
    ));
    assert!(matches!(
        parse_name_line(""),
        Err(ConfigError::MissingSeparator { .. })
    ));
    assert!(matches!(
        parse_name_line("not-an-address=Name"),
        Err(ConfigError::InvalidAddress { .. })
    ));
}

#[test]
fn parse_sensor_names_builds_the_table() {
    let lines = vec![
        "A4:C1:38:01:02:03=Kitchen".to_string(),
        "A4:C1:38:04:05:06=Bedroom".to_string(),
    ];
    let names = parse_sensor_names(&lines).unwrap();
    let kitchen = SensorAddress::new(0xA4, 0xC1, 0x38, 0x01, 0x02, 0x03);
    let bedroom = SensorAddress::new(0xA4, 0xC1, 0x38, 0x04, 0x05, 0x06);
    let other = SensorAddress::new(0xA4, 0xC1, 0x38, 0x07, 0x08, 0x09);
    assert_eq!(names.get(&kitchen).unwrap().as_str(), "Kitchen");
    assert_eq!(names.get(&bedroom).unwrap().as_str(), "Bedroom");
    assert!(names.get(&other).is_none());
    assert!(names.contains(&kitchen));
    assert!(!names.contains(&other));
}

#[test]
fn parse_sensor_names_later_line_overrides_earlier() {
    let lines = vec![
        "A4:C1:38:01:02:03=Old".to_string(),
        "A4:C1:38:01:02:03=New".to_string(),
    ];
    let names = parse_sensor_names(&lines).unwrap();
    let addr = SensorAddress::new(0xA4, 0xC1, 0x38, 0x01, 0x02, 0x03);
    assert_eq!(names.get(&addr).unwrap().as_str(), "New");
}

#[test]
fn parse_sensor_names_reports_first_bad_line() {
    let lines = vec![
        "A4:C1:38:01:02:03=Fine".to_string(),
        "broken line".to_string(),
    ];
    assert!(matches!(
        parse_sensor_names(&lines),
        Err(ConfigError::MissingSeparator { line_index: 1 })
    ));
    let lines = vec!["xx=Name".to_string()];
    assert!(matches!(
        parse_sensor_names(&lines),
        Err(ConfigError::InvalidAddress { line_index: 0 })
    ));
}

#[test]
fn empty_file_gives_empty_table() {
    let names = parse_sensor_names(&Vec::new()).unwrap();
    let addr = SensorAddress::new(0, 0, 0, 0, 0, 0);
    assert!(!names.contains(&addr));
    let empty = SensorNames::new();
    assert!(!empty.contains(&addr));
}
