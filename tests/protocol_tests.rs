use led_oxide::color::Color24;
use led_oxide::protocol;
use led_oxide::protocol::ProtocolVersion;
use led_oxide::protocol::{
    Effect, CMD_ENTER_BOOTLOADER, CMD_FULL_RESET, CMD_PRINT_VERSION, CMD_SET_BRIGHTNESS,
    CMD_SET_COLOR, CMD_SET_EFFECT, PROTO_CR, PROTO_ETX, PROTO_NL, PROTO_PSC, PROTO_STX,
};

#[test]
fn get_effect_cmd_value_test() {
    let protocol_version = protocol::LedscTeensy001 {};

    assert_eq!(
        protocol_version.get_effect_cmd_value(&protocol::Effect::Off),
        0x00
    );
    assert_eq!(
        protocol_version.get_effect_cmd_value(&protocol::Effect::SolidColor),
        0x01
    );
    assert_eq!(
        protocol_version.get_effect_cmd_value(&protocol::Effect::RainbowCycle),
        0x02
    );
    assert_eq!(
        protocol_version.get_effect_cmd_value(&protocol::Effect::Comet),
        0x03
    );
    assert_eq!(
        protocol_version.get_effect_cmd_value(&protocol::Effect::CometRainbow),
        0x04
    );
    assert_eq!(
        protocol_version.get_effect_cmd_value(&protocol::Effect::FireColor),
        0x06
    );
    assert_eq!(
        protocol_version.get_effect_cmd_value(&protocol::Effect::Fire),
        0x05
    );
    assert_eq!(
        protocol_version.get_effect_cmd_value(&protocol::Effect::SolidColorPulse),
        0x07
    );
    assert_eq!(
        protocol_version.get_effect_cmd_value(&protocol::Effect::BouncingBall),
        0x08
    );
    assert_eq!(
        protocol_version.get_effect_cmd_value(&protocol::Effect::Twinkle),
        0x09
    );
    assert_eq!(
        protocol_version.get_effect_cmd_value(&protocol::Effect::MaxEffect),
        0x0a
    );
}

#[test]
fn get_fire_color_pallet_value_test() {
    let protocol_version = protocol::LedscTeensy001 {};

    assert_eq!(
        protocol_version.get_fire_color_pallet_value(&protocol::FireColorPallet::Heat),
        0x00
    );
    assert_eq!(
        protocol_version.get_fire_color_pallet_value(&protocol::FireColorPallet::Party),
        0x01
    );
    assert_eq!(
        protocol_version.get_fire_color_pallet_value(&protocol::FireColorPallet::Rainbow),
        0x02
    );
    assert_eq!(
        protocol_version.get_fire_color_pallet_value(&protocol::FireColorPallet::RainbowStripe),
        0x03
    );
    assert_eq!(
        protocol_version.get_fire_color_pallet_value(&protocol::FireColorPallet::Forest),
        0x04
    );
    assert_eq!(
        protocol_version.get_fire_color_pallet_value(&protocol::FireColorPallet::Ocean),
        0x05
    );
    assert_eq!(
        protocol_version.get_fire_color_pallet_value(&protocol::FireColorPallet::Lava),
        0x06
    );
    assert_eq!(
        protocol_version.get_fire_color_pallet_value(&protocol::FireColorPallet::Cloud),
        0x07
    );
}

#[test]
fn packet_command_get_cmd_string_test() {
    let protocol_version = protocol::LedscTeensy001 {};

    let test_str: String = format!(
        "{}{}{}{}{}{}",
        PROTO_STX, CMD_PRINT_VERSION, PROTO_ETX, "7D02", PROTO_CR, PROTO_NL
    );

    assert_eq!(
        protocol_version.create_cmd_string(protocol::Command::PrintVersion),
        test_str
    );

    let test_str: String = format!(
        "{}{}{}{}{}{}",
        PROTO_STX, CMD_ENTER_BOOTLOADER, PROTO_ETX, "1A26", PROTO_CR, PROTO_NL
    );

    assert_eq!(
        protocol_version.create_cmd_string(protocol::Command::EnterBootloader),
        test_str
    );

    let test_str: String = format!(
        "{}{}{}{}{}{}",
        PROTO_STX, CMD_FULL_RESET, PROTO_ETX, "4005", PROTO_CR, PROTO_NL
    );

    assert_eq!(
        protocol_version.create_cmd_string(protocol::Command::FullReset),
        test_str
    );

    let test_str: String = format!(
        "{}{}{}{}{}{}{}{}",
        PROTO_STX, CMD_SET_EFFECT, PROTO_PSC, "4", PROTO_ETX, "6C1C", PROTO_CR, PROTO_NL
    );

    assert_eq!(
        protocol_version.create_cmd_string(protocol::Command::SetEffect(Effect::CometRainbow)),
        test_str
    );

    let test_str: String = format!(
        "{}{}{}{}{}{}{}{}",
        PROTO_STX, CMD_SET_BRIGHTNESS, PROTO_PSC, "5C", PROTO_ETX, "4AEA", PROTO_CR, PROTO_NL
    );

    assert_eq!(
        protocol_version.create_cmd_string(protocol::Command::SetBrightness(0x5c)),
        test_str
    );

    let test_str: String = format!(
        "{}{}{}{}{}{}{}{}",
        PROTO_STX, CMD_SET_COLOR, PROTO_PSC, "4F2D86", PROTO_ETX, "E1A3", PROTO_CR, PROTO_NL
    );

    assert_eq!(
        protocol_version
            .create_cmd_string(protocol::Command::SetColor(Color24::from_u32(0x004F2D86))),
        test_str
    );
}

#[test]
fn parse_response_sting_test() {
    let protocol_version = protocol::LedscTeensy001 {};

    //
    // Set Effect OK response
    //
    let test_string: String = String::from("[CSE:0]A0D8");

    let response: protocol::ResponsePacketOption =
        protocol_version.parse_response_sting(test_string);

    match response {
        protocol::ResponsePacketOption::Success(pkt) => {
            assert_eq!(pkt.command, "CSE");
            assert_eq!(pkt.parameters[0], "0");
            assert_eq!(pkt.crc16_in, 0xA0D8);
            assert_eq!(pkt.crc16_calc, 0xA0D8);
        }
        protocol::ResponsePacketOption::FailedRemote(..) => assert!(
            false,
            "Parsing '[CSE:0]A0D8' should not return failed remote."
        ),
        protocol::ResponsePacketOption::FailedLocal(..) => assert!(
            false,
            "Parsing '[CSE:0]A0D8' should not return failed local."
        ),
    }

    //
    // Set Brightness OK response
    //
    let test_string: String = String::from("[CSB:0]F1F5");

    let response: protocol::ResponsePacketOption =
        protocol_version.parse_response_sting(test_string);

    match response {
        protocol::ResponsePacketOption::Success(pkt) => {
            assert_eq!(pkt.command, "CSB");
            assert_eq!(pkt.parameters[0], "0");
            assert_eq!(pkt.crc16_in, 0xF1F5);
            assert_eq!(pkt.crc16_calc, 0xF1F5);
        }
        protocol::ResponsePacketOption::FailedRemote(..) => assert!(
            false,
            "Parsing '[CSB:0]F1F5' should not return failed remote."
        ),
        protocol::ResponsePacketOption::FailedLocal(..) => assert!(
            false,
            "Parsing '[CSB:0]F1F5' should not return failed lcoal."
        ),
    }

    //
    // Missing framing character response
    //
    let test_string: String = String::from("[CS:-104]599D");

    let response: protocol::ResponsePacketOption =
        protocol_version.parse_response_sting(test_string);

    match response {
        protocol::ResponsePacketOption::Success(_pkt) => {
            assert!(false, "Parsing '[CS:-104]599D' should not return success.")
        }
        protocol::ResponsePacketOption::FailedRemote(pkt) => {
            assert_eq!(pkt.command, "CS");
            assert_eq!(pkt.parameters[0], "-104");
            assert_eq!(pkt.crc16_in, 0x599D);
            assert_eq!(pkt.crc16_calc, 0x599D);
        }
        protocol::ResponsePacketOption::FailedLocal(..) => assert!(
            false,
            "Parsing '[CS:-104]599D' should not return failed local."
        ),
    }
}

#[test]
fn get_known_protocol_version_from_str_test() {
    // Checking standard 001 all caps
    match protocol::get_known_protocol_version_from_str("LEDSC_TEENSY_001") {
        Some(protocol::KnownProtocolVersions::LedscTeensy001) => {
            assert!(true, "This is correct")
        }
        _ => assert!(
            false,
            "Failed Checking LEDSC_TEENSY_001 to LedscTeensy001 value"
        ),
    }

    // Checking lower case semi-incorrect formatting but should pass
    match protocol::get_known_protocol_version_from_str("Ledsc_teensy_001") {
        Some(protocol::KnownProtocolVersions::LedscTeensy001) => {
            assert!(true, "This is correct")
        }
        _ => assert!(
            false,
            "Failed Checking Ledsc_teensy_001 to LedscTeensy001 value"
        ),
    }

    // Checking some newer version than we know about
    match protocol::get_known_protocol_version_from_str("LEDSC_TEENSY_256") {
        Some(protocol::KnownProtocolVersions::LedscTeensyNewer) => {
            assert!(true, "This is correct")
        }
        _ => assert!(
            false,
            "Failed Checking LEDSC_TEENSY_256 to LedscTeensyNewer value"
        ),
    }

    // Testing garbage input
    match protocol::get_known_protocol_version_from_str("Something") {
        Some(protocol::KnownProtocolVersions::Unknown) => assert!(true, "This is correct"),
        _ => assert!(false, "Failed Checking garbage input to Unknown value"),
    }
}
