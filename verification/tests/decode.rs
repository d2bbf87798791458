use mijia_bridge::readings::{battery_percent_from_voltage, decode_value};

#[test]
fn decode_rejects_wrong_lengths() {
    assert!(decode_value(&[]).is_none());
    assert!(decode_value(&[0x01]).is_none());
    assert!(decode_value(&[0x01, 0x02]).is_none());
    assert!(decode_value(&[0x01, 0x02, 0x03, 0x04]).is_none());
    assert!(decode_value(&[0x01, 0x02, 0x03, 0x04, 0x05, 0x06]).is_none());
    assert!(decode_value(&[0u8; 32]).is_none());
}

#[test]
fn decode_example_payload() {
    let readings = decode_value(&[0xE8, 0x00, 0x38, 0x0C, 0x0C]).unwrap();
    // 0x00E8 = 232 hundredths of a degree, i.e. 2.32 degrees Celsius.
    assert_eq!(readings.temperature_centi, 232);
    assert_eq!(readings.temperature_string(), "2.32");
    assert_eq!(readings.humidity, 56);
    // 0x0C0C = 3084 mV; battery percent = (3084 - 2100) / 10 = 98.
    assert_eq!(readings.battery_voltage, 3084);
    assert_eq!(readings.battery_percent, 98);
}

#[test]
fn decode_negative_temperature() {
    // -5 hundredths of a degree: 0xFFFB little-endian.
    let readings = decode_value(&[0xFB, 0xFF, 0x10, 0x00, 0x00]).unwrap();
    assert_eq!(readings.temperature_centi, -5);
    assert_eq!(readings.temperature_string(), "-0.05");
}

#[test]
fn battery_percent_floors_to_zero_below_2100_mv() {
    // 2000 mV = 0x07D0 little-endian.
    let readings = decode_value(&[0x00, 0x00, 0x00, 0xD0, 0x07]).unwrap();
    assert_eq!(readings.battery_voltage, 2000);
    assert_eq!(readings.battery_percent, 0);
    assert_eq!(battery_percent_from_voltage(0), 0);
    assert_eq!(battery_percent_from_voltage(2099), 0);
    assert_eq!(battery_percent_from_voltage(2100), 0);
    assert_eq!(battery_percent_from_voltage(2110), 1);
    assert_eq!(battery_percent_from_voltage(3100), 100);
}

#[test]
fn readings_display_string() {
    let readings = decode_value(&[0xE8, 0x00, 0x38, 0x0C, 0x0C]).unwrap();
    assert_eq!(
        readings.display_string(),
        "Temperature: 2.32\u{00ba}C Humidity: 56% Battery: 3084 mV (98%)"
    );
}
