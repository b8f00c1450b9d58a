//! The frame interpreter: reading an assembled byte sequence as a semantic
//! air-conditioner command.

use vstd::prelude::*;

verus! {

/// Fan-speed setting carried by a settings frame.  `Fixed` is the meaning
/// the extended dialect gives to code 0; the standard dialect has no such
/// setting.
#[derive(Clone, Copy, Debug, PartialEq, Eq, Structural)]
pub enum FanSpeed {
    Auto,
    Low,
    Middle,
    High,
    Fixed,
}

/// Operating mode carried by a settings frame.
#[derive(Clone, Copy, Debug, PartialEq, Eq, Structural)]
pub enum AcMode {
    Auto,
    Cool,
    Humidify,
    Heat,
}

/// Which of the two observed protocol dialects to interpret frames under.
/// The extended dialect adds two sentinel frames and maps the two
/// temperature codes the standard dialect leaves unused.
#[derive(Clone, Copy, Debug, PartialEq, Eq, Structural)]
pub enum ProtocolVariant {
    Standard,
    Extended,
}

/// The semantic decode result of one frame.
#[derive(Clone, Copy, Debug, PartialEq, Eq, Structural)]
pub enum Command {
    PowerOff,
    SwingAuto,
    SwingManual,
    SwingLeftRight,
    Unrecognized,
    Settings { fan_speed: FanSpeed, mode: AcMode, temperature_celsius: u8 },
}

/// Why a byte sequence yielded no command.
#[derive(Clone, Copy, Debug, PartialEq, Eq, Structural)]
pub enum DecodeError {
    /// Nothing was captured: no frame to interpret.
    NoCapture,
    /// Fewer than the six bytes of one protocol repetition.
    TooShort,
    /// The six data bytes do not come in (value, complement) pairs, so the
    /// frame is malformed and its fields are not interpreted.
    ComplementMismatch,
}

/// The fan-speed lookup: 5 auto, 4 low, 2 middle, 1 high; code 0 means the
/// fixed setting under the extended dialect; any other code degrades to
/// auto rather than failing on a noisy capture.
pub open spec fn spec_fan_speed(code: u8, variant: ProtocolVariant) -> FanSpeed {
    if code == 4 {
        FanSpeed::Low
    } else if code == 2 {
        FanSpeed::Middle
    } else if code == 1 {
        FanSpeed::High
    } else if code == 0 && variant == ProtocolVariant::Extended {
        FanSpeed::Fixed
    } else {
        FanSpeed::Auto
    }
}

/// The mode lookup: 2 auto, 0 cool, 1 humidify/fan, 3 heat; an unmapped
/// code degrades to auto.
pub open spec fn spec_mode(code: u8) -> AcMode {
    if code == 0 {
        AcMode::Cool
    } else if code == 1 {
        AcMode::Humidify
    } else if code == 3 {
        AcMode::Heat
    } else {
        AcMode::Auto
    }
}

/// The temperature lookup, a non-monotonic 4-bit code.  The standard
/// dialect leaves codes 14 and 15 unmapped and degrades them to 30 degrees;
/// the extended dialect maps 15 to 16 degrees and 14 to 31 degrees.
pub open spec fn spec_temperature(code: u8, variant: ProtocolVariant) -> u8 {
    if code == 0 {
        17
    } else if code == 1 {
        18
    } else if code == 3 {
        19
    } else if code == 2 {
        20
    } else if code == 6 {
        21
    } else if code == 7 {
        22
    } else if code == 5 {
        23
    } else if code == 4 {
        24
    } else if code == 12 {
        25
    } else if code == 13 {
        26
    } else if code == 9 {
        27
    } else if code == 8 {
        28
    } else if code == 10 {
        29
    } else if code == 11 {
        30
    } else if code == 15 && variant == ProtocolVariant::Extended {
        16
    } else if code == 14 && variant == ProtocolVariant::Extended {
        31
    } else {
        30
    }
}

/// How one frame repetition reads as a command, from the bytes the
/// interpreter looks at.  Sentinel patterns are checked first, in order;
/// any other frame decodes through the bit fields of bytes 2 and 4.
pub open spec fn spec_interpret(b0: u8, b2: u8, b4: u8, variant: ProtocolVariant) -> Command {
    if b2 == 0x7B && b4 == 0xE0 {
        Command::PowerOff
    } else if b2 == 0xF5 && b4 == 0x04 {
        Command::SwingAuto
    } else if b2 == 0xF5 && b4 == 0x05 {
        Command::SwingManual
    } else if variant == ProtocolVariant::Extended && b2 == 0x6B && b4 == 0xE0 {
        Command::SwingLeftRight
    } else if variant == ProtocolVariant::Extended && b0 == 0xB5 && b2 == 0xF5 {
        Command::Unrecognized
    } else {
        Command::Settings {
            fan_speed: spec_fan_speed((b2 >> 5u8) & 0x7, variant),
            mode: spec_mode((b4 >> 2u8) & 0x3),
            temperature_celsius: spec_temperature((b4 >> 4u8) & 0xF, variant),
        }
    }
}

/// What interpreting a byte sequence yields: no capture on an empty
/// sequence, too short under six bytes, else the command of the first
/// repetition.  A sentinel frame is matched on its pattern bytes alone; a
/// frame that reaches field extraction must carry its six data bytes in
/// (value, complement) pairs, else it is malformed and decoding fails
/// rather than interpreting fields of a corrupted capture.
pub open spec fn spec_decode(bytes: Seq<u8>, variant: ProtocolVariant) -> Result<
    Command,
    DecodeError,
> {
    if bytes.len() == 0 {
        Err(DecodeError::NoCapture)
    } else if bytes.len() < 6 {
        Err(DecodeError::TooShort)
    } else {
        let cmd = spec_interpret(bytes[0], bytes[2], bytes[4], variant);
        if (cmd is Settings) && !spec_complements_ok(bytes.take(6)) {
            Err(DecodeError::ComplementMismatch)
        } else {
            Ok(cmd)
        }
    }
}

impl FanSpeed {
    /// Maps a 3-bit fan-speed code to its setting under the given dialect.
    pub fn from_code(code: u8, variant: ProtocolVariant) -> (s: FanSpeed)
        ensures
            s == spec_fan_speed(code, variant),
    {
        match code {
            4 => FanSpeed::Low,
            2 => FanSpeed::Middle,
            1 => FanSpeed::High,
            0 => if variant == ProtocolVariant::Extended {
                FanSpeed::Fixed
            } else {
                FanSpeed::Auto
            },
            _ => FanSpeed::Auto,
        }
    }
}

impl AcMode {
    /// Maps a 2-bit mode code to its setting.
    pub fn from_code(code: u8) -> (m: AcMode)
        ensures
            m == spec_mode(code),
    {
        match code {
            0 => AcMode::Cool,
            1 => AcMode::Humidify,
            3 => AcMode::Heat,
            _ => AcMode::Auto,
        }
    }
}

/// Maps a 4-bit temperature code to degrees Celsius under the given
/// dialect.
pub fn temperature_from_code(code: u8, variant: ProtocolVariant) -> (t: u8)
    ensures
        t == spec_temperature(code, variant),
{
    match code {
        0 => 17,
        1 => 18,
        3 => 19,
        2 => 20,
        6 => 21,
        7 => 22,
        5 => 23,
        4 => 24,
        12 => 25,
        13 => 26,
        9 => 27,
        8 => 28,
        10 => 29,
        11 => 30,
        15 => if variant == ProtocolVariant::Extended { 16 } else { 30 },
        14 => if variant == ProtocolVariant::Extended { 31 } else { 30 },
        _ => 30,
    }
}

/// Whether the data bytes of one repetition come in (value, complement)
/// pairs: byte 1 is the bitwise NOT of byte 0, and so on.
pub open spec fn spec_complements_ok(bytes: Seq<u8>) -> bool {
    forall|i: int| 0 <= i < bytes.len() / 2 ==> #[trigger] bytes[2 * i + 1] == !bytes[2 * i]
}

/// Checks the (value, complement) pairing over the even-length prefix of
/// the byte sequence.
pub fn complements_ok(bytes: &[u8]) -> (r: bool)
    ensures
        r == spec_complements_ok(bytes@),
{
    let n: usize = bytes.len();
    let mut i: usize = 0;
    while i < n / 2
        invariant
            n == bytes@.len(),
            i <= n / 2,
            forall|k: int| 0 <= k < i ==> #[trigger] bytes@[2 * k + 1] == !bytes@[2 * k],
        decreases n / 2 - i,
    {
        if bytes[2 * i + 1] != !bytes[2 * i] {
            return false;
        }
        i += 1;
    }
    true
}

proof fn lemma_first_repetition_complements(bytes: Seq<u8>)
    requires
        bytes.len() >= 6,
    ensures
        spec_complements_ok(bytes.take(6)) == (bytes[1] == !bytes[0] && bytes[3] == !bytes[2]
            && bytes[5] == !bytes[4]),
{
    let t = bytes.take(6);
    assert(t.len() == 6);
    assert(t[0] == bytes[0] && t[1] == bytes[1] && t[2] == bytes[2] && t[3] == bytes[3] && t[4]
        == bytes[4] && t[5] == bytes[5]);
    if bytes[1] == !bytes[0] && bytes[3] == !bytes[2] && bytes[5] == !bytes[4] {
        assert forall|i: int| 0 <= i < t.len() / 2 implies #[trigger] t[2 * i + 1] == !t[2 * i] by {
            if i == 0 {
                assert(2 * i + 1 == 1 && 2 * i == 0);
            } else if i == 1 {
                assert(2 * i + 1 == 3 && 2 * i == 2);
            } else {
                assert(i == 2);
                assert(2 * i + 1 == 5 && 2 * i == 4);
            }
        }
    } else {
        if spec_complements_ok(t) {
            let i0: int = 0;
            assert(t[2 * i0 + 1] == !t[2 * i0]);
            let i1: int = 1;
            assert(t[2 * i1 + 1] == !t[2 * i1]);
            let i2: int = 2;
            assert(t[2 * i2 + 1] == !t[2 * i2]);
            assert(false);
        }
    }
}

/// Interprets an assembled byte sequence as a command.  An empty capture
/// and a short frame are recoverable decode errors, never a panic or an
/// out-of-bounds access; a frame whose bytes 2 and 4 carry the power-off
/// sentinel decodes to `PowerOff` whatever the other bytes hold; a frame
/// that reaches field extraction with its data bytes not in (value,
/// complement) pairs is malformed and yields a recoverable error instead
/// of an interpretation of corrupted fields.
pub fn interpret_frame(bytes: &[u8], variant: ProtocolVariant) -> (r: Result<
    Command,
    DecodeError,
>)
    ensures
        r == spec_decode(bytes@, variant),
        bytes@.len() == 0 ==> r == Err::<Command, DecodeError>(DecodeError::NoCapture),
        bytes@.len() >= 6 && bytes@[2] == 0x7B && bytes@[4] == 0xE0 ==> r == Ok::<
            Command,
            DecodeError,
        >(Command::PowerOff),
{
    if bytes.len() == 0 {
        return Err(DecodeError::NoCapture);
    }
    if bytes.len() < 6 {
        return Err(DecodeError::TooShort);
    }
    let b0 = bytes[0];
    let b2 = bytes[2];
    let b4 = bytes[4];
    if b2 == 0x7B && b4 == 0xE0 {
        Ok(Command::PowerOff)
    } else if b2 == 0xF5 && b4 == 0x04 {
        Ok(Command::SwingAuto)
    } else if b2 == 0xF5 && b4 == 0x05 {
        Ok(Command::SwingManual)
    } else if variant == ProtocolVariant::Extended && b2 == 0x6B && b4 == 0xE0 {
        Ok(Command::SwingLeftRight)
    } else if variant == ProtocolVariant::Extended && b0 == 0xB5 && b2 == 0xF5 {
        Ok(Command::Unrecognized)
    } else {
        proof {
            lemma_first_repetition_complements(bytes@);
        }
        if !(bytes[1] == !bytes[0] && bytes[3] == !bytes[2] && bytes[5] == !bytes[4]) {
            return Err(DecodeError::ComplementMismatch);
        }
        let fan_code: u8 = (b2 >> 5u8) & 0x7;
        let mode_code: u8 = (b4 >> 2u8) & 0x3;
        let temp_code: u8 = (b4 >> 4u8) & 0xF;
        Ok(
            Command::Settings {
                fan_speed: FanSpeed::from_code(fan_code, variant),
                mode: AcMode::from_code(mode_code),
                temperature_celsius: temperature_from_code(temp_code, variant),
            },
        )
    }
}

} // verus!
