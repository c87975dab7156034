use led_oxide::protocol::{decode_response, ResponsePacketOption};
use led_oxide::status::{parse_color_param, parse_device_status, parse_status_fields, DeviceStatus};

#[test]
fn status_fields_are_read_in_order() {
    let s = parse_status_fields("1|4|FF|FF0000|3");
    assert_eq!(
        s,
        DeviceStatus {
            hw_debug: true,
            effect_id: 4,
            brightness: 0xff,
            color: String::from("FF0000"),
            fire_pallet_id: 3,
        }
    );
}

#[test]
fn missing_or_malformed_status_fields_count_as_zero() {
    let s = parse_status_fields("0|zz");
    assert_eq!(
        s,
        DeviceStatus {
            hw_debug: false,
            effect_id: 0,
            brightness: 0,
            color: String::from("#000000"),
            fire_pallet_id: 0,
        }
    );
    let s = parse_status_fields("100|a|80||7|extra");
    assert!(!s.hw_debug);
    assert_eq!(s.effect_id, 0x0a);
    assert_eq!(s.brightness, 0x80);
    assert_eq!(s.color, "");
    assert_eq!(s.fire_pallet_id, 7);
    assert_eq!(parse_status_fields("").color, "#000000");
}

#[test]
fn device_status_needs_a_second_parameter() {
    match decode_response("[CGS:0:1|2|3|00FF00|4]0000") {
        ResponsePacketOption::Success(pkt) => {
            let s = parse_device_status(&pkt).unwrap();
            assert!(s.hw_debug);
            assert_eq!(s.effect_id, 2);
            assert_eq!(s.color, "00FF00");
        }
        other => panic!("unexpected {:?}", other),
    }
    match decode_response("[CGS:0]0000") {
        ResponsePacketOption::Success(pkt) => assert_eq!(parse_device_status(&pkt), None),
        other => panic!("unexpected {:?}", other),
    }
}

#[test]
fn color_parameters_are_hexadecimal() {
    assert_eq!(parse_color_param("#4F2D86"), Some(0x4F2D86));
    assert_eq!(parse_color_param("4f2d86"), Some(0x4F2D86));
    assert_eq!(parse_color_param("##ff##"), Some(0xff));
    assert_eq!(parse_color_param("+10"), Some(0x10));
    assert_eq!(parse_color_param("FFFFFFFF"), Some(0xFFFF_FFFF));
    assert_eq!(parse_color_param("1FFFFFFFF"), None);
    assert_eq!(parse_color_param("#xyz"), None);
    assert_eq!(parse_color_param("#"), None);
    assert_eq!(parse_color_param(""), None);
    assert_eq!(parse_color_param("#12#34"), None);
}
