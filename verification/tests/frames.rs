use r05d_codec::command::complements_ok;
use r05d_codec::command::interpret_frame;
use r05d_codec::command::temperature_from_code;
use r05d_codec::command::AcMode;
use r05d_codec::command::Command;
use r05d_codec::command::DecodeError;
use r05d_codec::command::FanSpeed;
use r05d_codec::command::ProtocolVariant;
use r05d_codec::pipeline::decode_capture;
use r05d_codec::pipeline::decode_pulses;
use r05d_codec::timing::standard_config;
use r05d_codec::transmit::encode_command;
use r05d_codec::transmit::standard_trailer;

#[test]
fn power_off_sentinel_ignores_other_bytes() {
    let frame = [0x00, 0x11, 0x7B, 0x22, 0xE0, 0x33];
    assert_eq!(
        interpret_frame(&frame, ProtocolVariant::Standard),
        Ok(Command::PowerOff)
    );
    let other = [0xB2, 0x4D, 0x7B, 0x84, 0xE0, 0x1F, 0xFF, 0xFF];
    assert_eq!(
        interpret_frame(&other, ProtocolVariant::Standard),
        Ok(Command::PowerOff)
    );
}

#[test]
fn swing_sentinels() {
    let auto = [0x00, 0x00, 0xF5, 0x00, 0x04, 0x00];
    assert_eq!(
        interpret_frame(&auto, ProtocolVariant::Standard),
        Ok(Command::SwingAuto)
    );
    let manual = [0x00, 0x00, 0xF5, 0x00, 0x05, 0x00];
    assert_eq!(
        interpret_frame(&manual, ProtocolVariant::Standard),
        Ok(Command::SwingManual)
    );
}

#[test]
fn extended_dialect_sentinels() {
    let left_right = [0x00, 0x00, 0x6B, 0x00, 0xE0, 0x00];
    assert_eq!(
        interpret_frame(&left_right, ProtocolVariant::Extended),
        Ok(Command::SwingLeftRight)
    );
    let other = [0xB5, 0x00, 0xF5, 0x00, 0x99, 0x00];
    assert_eq!(
        interpret_frame(&other, ProtocolVariant::Extended),
        Ok(Command::Unrecognized)
    );
}

#[test]
fn standard_dialect_reads_extended_sentinels_as_settings() {
    // Complement-valid frame with byte 2 = 0x6B, byte 4 = 0xE0: the extended
    // dialect's left-right sentinel, a plain settings frame to the standard
    // one.  fan code (0x6B >> 5) & 7 = 3 -> Auto; mode (0xE0 >> 2) & 3 = 0
    // -> Cool; temperature code (0xE0 >> 4) & 0xF = 14 -> unmapped, 30.
    let left_right = [0x00, 0xFF, 0x6B, 0x94, 0xE0, 0x1F];
    assert_eq!(
        interpret_frame(&left_right, ProtocolVariant::Standard),
        Ok(Command::Settings {
            fan_speed: FanSpeed::Auto,
            mode: AcMode::Cool,
            temperature_celsius: 30,
        })
    );
}

#[test]
fn settings_field_extraction() {
    // fan code 4 (low) in bits 5-7 of byte 2; mode code 3 (heat) in bits 2-3
    // and temperature code 13 (26 degrees) in bits 4-7 of byte 4.
    let frame = [0x00, 0xFF, 0x80, 0x7F, 0xDC, 0x23];
    assert_eq!(
        interpret_frame(&frame, ProtocolVariant::Standard),
        Ok(Command::Settings {
            fan_speed: FanSpeed::Low,
            mode: AcMode::Heat,
            temperature_celsius: 26,
        })
    );
}

#[test]
fn complement_mismatch_is_a_decode_error() {
    // All-zero frame: byte 1 is 0, not !byte 0 = 0xFF, so the frame is
    // malformed and its fields are never interpreted.
    let zeros = [0x00, 0x00, 0x00, 0x00, 0x00, 0x00];
    assert_eq!(
        interpret_frame(&zeros, ProtocolVariant::Standard),
        Err(DecodeError::ComplementMismatch)
    );
    // One corrupted complement among otherwise valid pairs.
    let corrupted = [0xB2, 0x4D, 0xBF, 0x41, 0xE0, 0x1F];
    assert_eq!(
        interpret_frame(&corrupted, ProtocolVariant::Standard),
        Err(DecodeError::ComplementMismatch)
    );
}

#[test]
fn fan_speed_codes() {
    assert_eq!(FanSpeed::from_code(5, ProtocolVariant::Standard), FanSpeed::Auto);
    assert_eq!(FanSpeed::from_code(4, ProtocolVariant::Standard), FanSpeed::Low);
    assert_eq!(FanSpeed::from_code(2, ProtocolVariant::Standard), FanSpeed::Middle);
    assert_eq!(FanSpeed::from_code(1, ProtocolVariant::Standard), FanSpeed::High);
    assert_eq!(FanSpeed::from_code(7, ProtocolVariant::Standard), FanSpeed::Auto);
    assert_eq!(FanSpeed::from_code(0, ProtocolVariant::Standard), FanSpeed::Auto);
    assert_eq!(FanSpeed::from_code(0, ProtocolVariant::Extended), FanSpeed::Fixed);
    assert_eq!(FanSpeed::from_code(4, ProtocolVariant::Extended), FanSpeed::Low);
}

#[test]
fn fan_code_zero_reads_fixed_under_extended_dialect() {
    // Complement-valid frame with fan code (0x1F >> 5) & 7 = 0, mode 0,
    // temperature code 0.
    let frame = [0x00, 0xFF, 0x1F, 0xE0, 0x00, 0xFF];
    assert_eq!(
        interpret_frame(&frame, ProtocolVariant::Extended),
        Ok(Command::Settings {
            fan_speed: FanSpeed::Fixed,
            mode: AcMode::Cool,
            temperature_celsius: 17,
        })
    );
    assert_eq!(
        interpret_frame(&frame, ProtocolVariant::Standard),
        Ok(Command::Settings {
            fan_speed: FanSpeed::Auto,
            mode: AcMode::Cool,
            temperature_celsius: 17,
        })
    );
}

#[test]
fn mode_codes() {
    assert_eq!(AcMode::from_code(2), AcMode::Auto);
    assert_eq!(AcMode::from_code(0), AcMode::Cool);
    assert_eq!(AcMode::from_code(1), AcMode::Humidify);
    assert_eq!(AcMode::from_code(3), AcMode::Heat);
}

#[test]
fn temperature_codes() {
    let pairs = [
        (0u8, 17u8),
        (1, 18),
        (3, 19),
        (2, 20),
        (6, 21),
        (7, 22),
        (5, 23),
        (4, 24),
        (12, 25),
        (13, 26),
        (9, 27),
        (8, 28),
        (10, 29),
        (11, 30),
    ];
    for (code, celsius) in pairs {
        assert_eq!(temperature_from_code(code, ProtocolVariant::Standard), celsius);
        assert_eq!(temperature_from_code(code, ProtocolVariant::Extended), celsius);
    }
    assert_eq!(temperature_from_code(15, ProtocolVariant::Standard), 30);
    assert_eq!(temperature_from_code(14, ProtocolVariant::Standard), 30);
    assert_eq!(temperature_from_code(15, ProtocolVariant::Extended), 16);
    assert_eq!(temperature_from_code(14, ProtocolVariant::Extended), 31);
}

#[test]
fn empty_capture_yields_no_command() {
    let empty: [u8; 0] = [];
    assert_eq!(
        interpret_frame(&empty, ProtocolVariant::Standard),
        Err(DecodeError::NoCapture)
    );
}

#[test]
fn short_frame_yields_too_short() {
    for n in 1..6usize {
        let bytes = vec![0xB2u8; n];
        assert_eq!(
            interpret_frame(&bytes, ProtocolVariant::Standard),
            Err(DecodeError::TooShort)
        );
    }
}

#[test]
fn complement_pairing_check() {
    assert!(complements_ok(&[0xB2, 0x4D, 0xBF, 0x40, 0xE0, 0x1F]));
    assert!(complements_ok(&[]));
    assert!(!complements_ok(&[0xB2, 0x4D, 0xBF, 0x41, 0xE0, 0x1F]));
}

#[test]
fn round_trip_bytes_without_trailer() {
    let cfg = standard_config();
    let no_trailer: [u8; 0] = [];
    let pulses = encode_command(&cfg, 0xB2, 0xBF, 0xE0, &no_trailer);
    // two frames: header + 48 bit pairs + stop each
    assert_eq!(pulses.len(), 100);
    let bytes = decode_pulses(&cfg, &pulses);
    assert_eq!(
        bytes,
        vec![0xB2, 0x4D, 0xBF, 0x40, 0xE0, 0x1F, 0xB2, 0x4D, 0xBF, 0x40, 0xE0, 0x1F]
    );
}

#[test]
fn round_trip_bytes_with_trailer() {
    let cfg = standard_config();
    let trailer = standard_trailer();
    let pulses = encode_command(&cfg, 0xB2, 0xBF, 0xE0, &trailer);
    assert_eq!(pulses.len(), 150);
    let bytes = decode_pulses(&cfg, &pulses);
    assert_eq!(
        bytes,
        vec![
            0xB2, 0x4D, 0xBF, 0x40, 0xE0, 0x1F, 0xB2, 0x4D, 0xBF, 0x40, 0xE0, 0x1F, 0xD5, 0x66,
            0x00, 0x10, 0x00, 0x4B
        ]
    );
}

#[test]
fn round_trip_settings_command() {
    // Built frames always carry valid complement pairs, so the settings
    // path decodes: fan code 4 -> low, mode 3 -> heat, temperature 13 -> 26.
    let cfg = standard_config();
    let no_trailer: [u8; 0] = [];
    let pulses = encode_command(&cfg, 0xB2, 0x9F, 0xDC, &no_trailer);
    assert_eq!(
        decode_capture(&cfg, &pulses, ProtocolVariant::Standard),
        Ok(Command::Settings {
            fan_speed: FanSpeed::Low,
            mode: AcMode::Heat,
            temperature_celsius: 26,
        })
    );
}

#[test]
fn round_trip_reaches_the_interpreter() {
    let cfg = standard_config();
    let trailer = standard_trailer();
    let pulses = encode_command(&cfg, 0xB2, 0x7B, 0xE0, &trailer);
    assert_eq!(
        decode_capture(&cfg, &pulses, ProtocolVariant::Standard),
        Ok(Command::PowerOff)
    );
}

#[test]
fn empty_pulse_capture_decodes_to_no_command() {
    let cfg = standard_config();
    let pulses: [r05d_codec::signal::PulsePair; 0] = [];
    assert_eq!(
        decode_capture(&cfg, &pulses, ProtocolVariant::Standard),
        Err(DecodeError::NoCapture)
    );
}
