use crate::checksum::{checksum, crc16_xmodem, Crc16Xmodem};
use crate::color::Color24;
use crate::hex::{hex_upper, lemma_parse_hex_upper, parse_hex, parse_hex_range, push_hex_upper};
use crate::text::{
    chars_of, has_prefix, is_white_space, push_char, push_str, same_chars, string_of_range, to_upper,
    trim, trim_back, trim_bounds, trim_front, upper_of,
};
use vstd::prelude::*;
use vstd::utf8::encode_utf8;

verus! {

broadcast use vstd::string::group_string_axioms;

// ---------------------------------------------------------------------------
// Framing characters
// ---------------------------------------------------------------------------

/// Start of a frame.
pub const PROTO_STX: char = '[';

/// End of a frame's body; the checksum follows it.
pub const PROTO_ETX: char = ']';

/// Separates the mnemonic and the parameters.
pub const PROTO_PSC: char = ':';

/// Carriage return, ends the checksum.
pub const PROTO_CR: char = '\r';

/// Line feed, ends a frame.
pub const PROTO_NL: char = '\n';

// ---------------------------------------------------------------------------
// Firmware version strings
// ---------------------------------------------------------------------------

/// An unknown firmware.
pub const FWV_LEDSC_UNKNOWN: &'static str = "UNKNOWN";

/// The family prefix of the Teensy firmware versions.
pub const FWV_LEDSC_TEENSY: &'static str = "LEDSC_TEENSY_";

/// The first Teensy firmware version.
pub const FWV_LEDSC_TEENSY_001: &'static str = "LEDSC_TEENSY_001";

// ---------------------------------------------------------------------------
// Command mnemonics
// ---------------------------------------------------------------------------

pub const CMD_PRINT_VERSION: &'static str = "CPV";

pub const CMD_FULL_RESET: &'static str = "CFR";

pub const CMD_ENTER_BOOTLOADER: &'static str = "CEB";

pub const CMD_SET_DEBUGGING: &'static str = "CSD";

pub const CMD_SET_EFFECT: &'static str = "CSE";

pub const CMD_SET_COLOR: &'static str = "CSC";

pub const CMD_SET_BRIGHTNESS: &'static str = "CSB";

pub const CMD_SET_FIRE_PALLET: &'static str = "CSFP";

pub const CMD_GET_STATUS: &'static str = "CGS";

// ---------------------------------------------------------------------------
// Status and error codes
// ---------------------------------------------------------------------------

/// Success, no error.
pub const ERR_PROTO_SUCCESS: i16 = 0;

/// Generic command processing error.
pub const ERR_PROTO_CMD_PARSING: i16 = -100;

/// The frame lacks its start character.
pub const ERR_PROTO_CP_MISSING_STX: i16 = -101;

/// The frame lacks its end character.
pub const ERR_PROTO_CP_MISSING_ETX: i16 = -102;

/// A parameter separator is missing.
pub const ERR_PROTO_CP_MISSING_PSC: i16 = -103;

/// A framing character is missing.
pub const ERR_PROTO_CP_MISSING_EFC: i16 = -104;

/// The command buffer overflowed.
pub const ERR_PROTO_CP_CMD_OVERFLOW: i16 = -105;

/// The command is not implemented.
pub const ERR_PROTO_CP_CMD_NOT_IMP: i16 = -106;

/// The command is unknown.
pub const ERR_PROTO_CP_CMD_UNKNOWN: i16 = -107;

/// The frame carries no parameter.
pub const ERR_PROTO_CP_MISSING_PARAMS: i16 = -108;

/// A parameter is out of range.
pub const ERR_PROTO_CP_PARAM_OUT_RANGE: i16 = -109;

/// The checksum does not match.
pub const ERR_PROTO_CP_CRC16_MISMATCH: i16 = -110;

/// The checksum is missing.
pub const ERR_PROTO_CP_MISSING_CRC16: i16 = -111;

// ---------------------------------------------------------------------------
// Data
// ---------------------------------------------------------------------------

/// The LED strip effects.
#[derive(Clone, Copy, Debug, PartialEq, Eq, Structural)]
pub enum Effect {
    Off,
    SolidColor,
    RainbowCycle,
    Comet,
    CometRainbow,
    Fire,
    FireColor,
    SolidColorPulse,
    BouncingBall,
    Twinkle,
    MaxEffect,
}

/// The color pallets of the fire effect.
#[derive(Clone, Copy, Debug, PartialEq, Eq, Structural)]
pub enum FireColorPallet {
    Heat,
    Party,
    Rainbow,
    RainbowStripe,
    Forest,
    Ocean,
    Lava,
    Cloud,
}

/// The commands a controller accepts.
#[derive(Clone, Copy, Debug, PartialEq, Eq, Structural)]
pub enum Command {
    Empty,
    PrintVersion,
    FullReset,
    EnterBootloader,
    SetDebugging(bool),
    SetEffect(Effect),
    SetColor(Color24),
    SetBrightness(u8),
    SetFireColorPallet(FireColorPallet),
    GetStatus,
}

/// How a firmware version string is classified.
#[derive(Clone, Copy, Debug, PartialEq, Eq, Structural)]
pub enum KnownProtocolVersions {
    /// An unknown firmware version.
    Unknown,
    /// Exactly version `LEDSC_TEENSY_001`.
    LedscTeensy001,
    /// A version of the `LEDSC_TEENSY_` family newer than those known here.
    LedscTeensyNewer,
}

/// A parsed response frame.
#[derive(Clone, Debug)]
pub struct ResponsePacket {
    pub command: String,
    pub parameters: Vec<String>,
    /// The checksum the frame carried.
    pub crc16_in: u16,
    /// The checksum computed over the frame from its start through its end character.
    pub crc16_calc: u16,
}

/// The outcome of parsing a response.
#[derive(Clone, Debug)]
pub enum ResponsePacketOption {
    /// A well-formed frame whose status parameter reports success.
    Success(ResponsePacket),
    /// A well-formed frame whose status parameter reports a failure.
    FailedRemote(ResponsePacket),
    /// A malformed frame, with the error code that says why.
    FailedLocal(i16),
}

/// The mathematical content of a `ResponsePacket`.
pub struct PacketModel {
    pub command: Seq<char>,
    pub parameters: Seq<Seq<char>>,
    pub crc16_in: u16,
    pub crc16_calc: u16,
}

/// The mathematical content of a `ResponsePacketOption`.
pub enum ResponseModel {
    Success(PacketModel),
    FailedRemote(PacketModel),
    FailedLocal(i16),
}

impl View for ResponsePacket {
    type V = PacketModel;

    open spec fn view(&self) -> PacketModel {
        PacketModel {
            command: self.command@,
            parameters: self.parameters@.map_values(|p: String| p@),
            crc16_in: self.crc16_in,
            crc16_calc: self.crc16_calc,
        }
    }
}

impl View for ResponsePacketOption {
    type V = ResponseModel;

    open spec fn view(&self) -> ResponseModel {
        match self {
            ResponsePacketOption::Success(p) => ResponseModel::Success(p@),
            ResponsePacketOption::FailedRemote(p) => ResponseModel::FailedRemote(p@),
            ResponsePacketOption::FailedLocal(e) => ResponseModel::FailedLocal(*e),
        }
    }
}

// ---------------------------------------------------------------------------
// Encoding
// ---------------------------------------------------------------------------

/// The mnemonic of a command; `Empty` has the empty one.
pub open spec fn mnemonic(command: Command) -> Seq<char> {
    match command {
        Command::Empty => seq![],
        Command::PrintVersion => seq!['C', 'P', 'V'],
        Command::FullReset => seq!['C', 'F', 'R'],
        Command::EnterBootloader => seq!['C', 'E', 'B'],
        Command::SetDebugging(_) => seq!['C', 'S', 'D'],
        Command::SetEffect(_) => seq!['C', 'S', 'E'],
        Command::SetColor(_) => seq!['C', 'S', 'C'],
        Command::SetBrightness(_) => seq!['C', 'S', 'B'],
        Command::SetFireColorPallet(_) => seq!['C', 'S', 'F', 'P'],
        Command::GetStatus => seq!['C', 'G', 'S'],
    }
}

/// The rendered parameter of a command, if it carries one; effects and pallets
/// are rendered through the codes that a policy gives them.
pub open spec fn command_param(
    command: Command,
    effect_code: spec_fn(Effect) -> u8,
    pallet_code: spec_fn(FireColorPallet) -> u8,
) -> Option<Seq<char>> {
    match command {
        Command::SetDebugging(on) => Some(
            if on {
                seq!['0', 'x', '0', '1']
            } else {
                seq!['0', 'x', '0', '0']
            },
        ),
        Command::SetEffect(e) => Some(hex_upper(effect_code(e) as nat)),
        Command::SetColor(c) => Some(hex_upper(c.packed())),
        Command::SetBrightness(b) => Some(hex_upper(b as nat)),
        Command::SetFireColorPallet(p) => Some(hex_upper(pallet_code(p) as nat)),
        _ => None,
    }
}

/// The checksummed part of a frame: `[`, mnemonic, `:` and parameter if any, `]`.
pub open spec fn frame_body(mnemonic: Seq<char>, param: Option<Seq<char>>) -> Seq<char> {
    seq![PROTO_STX] + mnemonic + match param {
        Some(p) => seq![PROTO_PSC] + p,
        None => Seq::<char>::empty(),
    } + seq![PROTO_ETX]
}

/// A whole frame: the body, the uppercase hexadecimal CRC-16/XMODEM of the body's
/// UTF-8 bytes, CR and LF.
pub open spec fn framed(body: Seq<char>) -> Seq<char> {
    body + hex_upper(crc16_xmodem(encode_utf8(body)) as nat) + seq![PROTO_CR, PROTO_NL]
}

fn mnemonic_str(command: &Command) -> (r: &'static str)
    ensures
        r@ == mnemonic(*command),
{
    match command {
        Command::Empty => {
            proof { reveal_strlit(""); }
            ""
        },
        Command::PrintVersion => {
            proof { reveal_strlit("CPV"); }
            CMD_PRINT_VERSION
        },
        Command::FullReset => {
            proof { reveal_strlit("CFR"); }
            CMD_FULL_RESET
        },
        Command::EnterBootloader => {
            proof { reveal_strlit("CEB"); }
            CMD_ENTER_BOOTLOADER
        },
        Command::SetDebugging(_) => {
            proof { reveal_strlit("CSD"); }
            CMD_SET_DEBUGGING
        },
        Command::SetEffect(_) => {
            proof { reveal_strlit("CSE"); }
            CMD_SET_EFFECT
        },
        Command::SetColor(_) => {
            proof { reveal_strlit("CSC"); }
            CMD_SET_COLOR
        },
        Command::SetBrightness(_) => {
            proof { reveal_strlit("CSB"); }
            CMD_SET_BRIGHTNESS
        },
        Command::SetFireColorPallet(_) => {
            proof { reveal_strlit("CSFP"); }
            CMD_SET_FIRE_PALLET
        },
        Command::GetStatus => {
            proof { reveal_strlit("CGS"); }
            CMD_GET_STATUS
        },
    }
}

/// Appends the checksum of `body`, CR and LF.
fn finish_frame(s: &mut String)
    ensures
        final(s)@ == framed(old(s)@),
{
    let crc = checksum(s.as_str().as_bytes());
    push_hex_upper(s, crc as u32);
    push_char(s, PROTO_CR);
    push_char(s, PROTO_NL);
}

// ---------------------------------------------------------------------------
// Version policy
// ---------------------------------------------------------------------------

/// What a firmware protocol version offers: which commands and effects it takes,
/// and the byte codes of effects and pallets on the wire.
pub trait ProtocolVersion {
    spec fn version_code(&self) -> Seq<char>;

    spec fn supports_command(&self, command: Command) -> bool;

    spec fn supports_effect(&self, effect: Effect) -> bool;

    spec fn effect_code(&self, effect: Effect) -> u8;

    spec fn effect_of_code(&self, code: u8) -> Effect;

    spec fn pallet_code(&self, pallet: FireColorPallet) -> u8;

    spec fn pallet_of_code(&self, code: u8) -> FireColorPallet;

    /// The version string of this protocol.
    fn get_version_code(&self) -> (r: &str)
        ensures
            r@ == self.version_code(),
    ;

    /// Whether this version takes the command.
    fn is_cmd_supported(&self, command: &Command) -> (r: bool)
        ensures
            r == self.supports_command(*command),
    ;

    /// Whether this version has the effect.
    fn is_effect_supported(&self, effect: &Effect) -> (r: bool)
        ensures
            r == self.supports_effect(*effect),
    ;

    /// The wire code of an effect.
    fn get_effect_cmd_value(&self, effect: &Effect) -> (r: u8)
        ensures
            r == self.effect_code(*effect),
    ;

    /// The effect of a wire code.
    fn get_effect_from_cmd_value(&self, effect_id: &u8) -> (r: Effect)
        ensures
            r == self.effect_of_code(*effect_id),
    ;

    /// The wire code of a fire color pallet.
    fn get_fire_color_pallet_value(&self, pallet: &FireColorPallet) -> (r: u8)
        ensures
            r == self.pallet_code(*pallet),
    ;

    /// The fire color pallet of a wire code.
    fn get_fire_color_pallet_from_cmd_value(&self, pallet_id: &u8) -> (r: FireColorPallet)
        ensures
            r == self.pallet_of_code(*pallet_id),
    ;

    /// The frame that sends `command` to a controller of this version.
    fn create_cmd_string(&self, command: Command) -> (r: String)
        ensures
            r@ == framed(
                frame_body(
                    mnemonic(command),
                    command_param(
                        command,
                        |e: Effect| self.effect_code(e),
                        |p: FireColorPallet| self.pallet_code(p),
                    ),
                ),
            ),
    {
        let mut s = String::new();
        push_char(&mut s, PROTO_STX);
        push_str(&mut s, mnemonic_str(&command));
        match command {
            Command::SetDebugging(on) => {
                push_char(&mut s, PROTO_PSC);
                if on {
                    proof { reveal_strlit("0x01"); }
                    push_str(&mut s, "0x01");
                } else {
                    proof { reveal_strlit("0x00"); }
                    push_str(&mut s, "0x00");
                }
            },
            Command::SetEffect(effect) => {
                push_char(&mut s, PROTO_PSC);
                let code = self.get_effect_cmd_value(&effect);
                push_hex_upper(&mut s, code as u32);
            },
            Command::SetColor(color) => {
                push_char(&mut s, PROTO_PSC);
                push_hex_upper(&mut s, color.to_u32());
            },
            Command::SetBrightness(brightness) => {
                push_char(&mut s, PROTO_PSC);
                push_hex_upper(&mut s, brightness as u32);
            },
            Command::SetFireColorPallet(pallet) => {
                push_char(&mut s, PROTO_PSC);
                let code = self.get_fire_color_pallet_value(&pallet);
                push_hex_upper(&mut s, code as u32);
            },
            _ => {},
        }
        push_char(&mut s, PROTO_ETX);
        let ghost param = command_param(
            command,
            |e: Effect| self.effect_code(e),
            |p: FireColorPallet| self.pallet_code(p),
        );
        assert(s@ =~= frame_body(mnemonic(command), param));
        finish_frame(&mut s);
        s
    }

    /// Parses a response frame received from a controller of this version.
    fn parse_response_sting(&self, response_str: String) -> (r: ResponsePacketOption)
        ensures
            r@ == decode(response_str@),
    {
        decode_response(response_str.as_str())
    }
}

// ---------------------------------------------------------------------------
// The policy of firmware LEDSC_TEENSY_001
// ---------------------------------------------------------------------------

/// The wire code of each effect under the first firmware version.
pub open spec fn teensy_001_effect_code(effect: Effect) -> u8 {
    match effect {
        Effect::Off => 0x00,
        Effect::SolidColor => 0x01,
        Effect::RainbowCycle => 0x02,
        Effect::Comet => 0x03,
        Effect::CometRainbow => 0x04,
        Effect::Fire => 0x05,
        Effect::FireColor => 0x06,
        Effect::SolidColorPulse => 0x07,
        Effect::BouncingBall => 0x08,
        Effect::Twinkle => 0x09,
        Effect::MaxEffect => 0x0a,
    }
}

/// The effect of each wire code under the first firmware version: the inverse of
/// `teensy_001_effect_code`, and `Off` for a code that no effect has.
pub open spec fn teensy_001_effect_of_code(code: u8) -> Effect {
    if code == 0x01 {
        Effect::SolidColor
    } else if code == 0x02 {
        Effect::RainbowCycle
    } else if code == 0x03 {
        Effect::Comet
    } else if code == 0x04 {
        Effect::CometRainbow
    } else if code == 0x05 {
        Effect::Fire
    } else if code == 0x06 {
        Effect::FireColor
    } else if code == 0x07 {
        Effect::SolidColorPulse
    } else if code == 0x08 {
        Effect::BouncingBall
    } else if code == 0x09 {
        Effect::Twinkle
    } else if code == 0x0a {
        Effect::MaxEffect
    } else {
        Effect::Off
    }
}

/// The wire code of each fire color pallet under the first firmware version.
pub open spec fn teensy_001_pallet_code(pallet: FireColorPallet) -> u8 {
    match pallet {
        FireColorPallet::Heat => 0x00,
        FireColorPallet::Party => 0x01,
        FireColorPallet::Rainbow => 0x02,
        FireColorPallet::RainbowStripe => 0x03,
        FireColorPallet::Forest => 0x04,
        FireColorPallet::Ocean => 0x05,
        FireColorPallet::Lava => 0x06,
        FireColorPallet::Cloud => 0x07,
    }
}

/// The fire color pallet of each wire code under the first firmware version: the
/// inverse of `teensy_001_pallet_code`, and `Heat` for a code that no pallet has.
pub open spec fn teensy_001_pallet_of_code(code: u8) -> FireColorPallet {
    if code == 0x01 {
        FireColorPallet::Party
    } else if code == 0x02 {
        FireColorPallet::Rainbow
    } else if code == 0x03 {
        FireColorPallet::RainbowStripe
    } else if code == 0x04 {
        FireColorPallet::Forest
    } else if code == 0x05 {
        FireColorPallet::Ocean
    } else if code == 0x06 {
        FireColorPallet::Lava
    } else if code == 0x07 {
        FireColorPallet::Cloud
    } else {
        FireColorPallet::Heat
    }
}

/// The policy of firmware `LEDSC_TEENSY_001`, also used for unknown and newer
/// firmware.
#[derive(Clone, Copy, Debug, PartialEq, Eq, Structural)]
pub struct LedscTeensy001 {}

impl ProtocolVersion for LedscTeensy001 {
    open spec fn version_code(&self) -> Seq<char> {
        FWV_LEDSC_TEENSY_001@
    }

    /// Every command but the empty one, full reset and entering the bootloader.
    open spec fn supports_command(&self, command: Command) -> bool {
        match command {
            Command::Empty | Command::FullReset | Command::EnterBootloader => false,
            Command::SetEffect(e) => self.supports_effect(e),
            _ => true,
        }
    }

    /// Every effect.
    open spec fn supports_effect(&self, effect: Effect) -> bool {
        true
    }

    open spec fn effect_code(&self, effect: Effect) -> u8 {
        teensy_001_effect_code(effect)
    }

    open spec fn effect_of_code(&self, code: u8) -> Effect {
        teensy_001_effect_of_code(code)
    }

    open spec fn pallet_code(&self, pallet: FireColorPallet) -> u8 {
        teensy_001_pallet_code(pallet)
    }

    open spec fn pallet_of_code(&self, code: u8) -> FireColorPallet {
        teensy_001_pallet_of_code(code)
    }

    fn get_version_code(&self) -> (r: &str) {
        FWV_LEDSC_TEENSY_001
    }

    fn is_cmd_supported(&self, command: &Command) -> (r: bool) {
        match command {
            Command::Empty => false,
            Command::PrintVersion => true,
            Command::FullReset => false,
            Command::EnterBootloader => false,
            Command::SetDebugging(..) => true,
            Command::SetEffect(effect) => self.is_effect_supported(effect),
            Command::SetColor(..) => true,
            Command::SetBrightness(..) => true,
            Command::SetFireColorPallet(..) => true,
            Command::GetStatus => true,
        }
    }

    fn is_effect_supported(&self, effect: &Effect) -> (r: bool) {
        match effect {
            Effect::Off => true,
            Effect::SolidColor => true,
            Effect::RainbowCycle => true,
            Effect::Comet => true,
            Effect::CometRainbow => true,
            Effect::Fire => true,
            Effect::FireColor => true,
            Effect::SolidColorPulse => true,
            Effect::BouncingBall => true,
            Effect::Twinkle => true,
            Effect::MaxEffect => true,
        }
    }

    fn get_effect_cmd_value(&self, effect: &Effect) -> (r: u8) {
        match effect {
            Effect::Off => 0x00,
            Effect::SolidColor => 0x01,
            Effect::RainbowCycle => 0x02,
            Effect::Comet => 0x03,
            Effect::CometRainbow => 0x04,
            Effect::Fire => 0x05,
            Effect::FireColor => 0x06,
            Effect::SolidColorPulse => 0x07,
            Effect::BouncingBall => 0x08,
            Effect::Twinkle => 0x09,
            Effect::MaxEffect => 0x0a,
        }
    }

    fn get_effect_from_cmd_value(&self, effect_id: &u8) -> (r: Effect) {
        match *effect_id {
            0x00 => Effect::Off,
            0x01 => Effect::SolidColor,
            0x02 => Effect::RainbowCycle,
            0x03 => Effect::Comet,
            0x04 => Effect::CometRainbow,
            0x05 => Effect::Fire,
            0x06 => Effect::FireColor,
            0x07 => Effect::SolidColorPulse,
            0x08 => Effect::BouncingBall,
            0x09 => Effect::Twinkle,
            0x0a => Effect::MaxEffect,
            _ => Effect::Off,
        }
    }

    fn get_fire_color_pallet_value(&self, pallet: &FireColorPallet) -> (r: u8) {
        match pallet {
            FireColorPallet::Heat => 0x00,
            FireColorPallet::Party => 0x01,
            FireColorPallet::Rainbow => 0x02,
            FireColorPallet::RainbowStripe => 0x03,
            FireColorPallet::Forest => 0x04,
            FireColorPallet::Ocean => 0x05,
            FireColorPallet::Lava => 0x06,
            FireColorPallet::Cloud => 0x07,
        }
    }

    fn get_fire_color_pallet_from_cmd_value(&self, pallet_id: &u8) -> (r: FireColorPallet) {
        match *pallet_id {
            0x00 => FireColorPallet::Heat,
            0x01 => FireColorPallet::Party,
            0x02 => FireColorPallet::Rainbow,
            0x03 => FireColorPallet::RainbowStripe,
            0x04 => FireColorPallet::Forest,
            0x05 => FireColorPallet::Ocean,
            0x06 => FireColorPallet::Lava,
            0x07 => FireColorPallet::Cloud,
            _ => FireColorPallet::Heat,
        }
    }
}

/// Each effect's code leads back to the effect.
pub proof fn lemma_effect_code_round_trip(e: Effect)
    ensures
        teensy_001_effect_of_code(teensy_001_effect_code(e)) == e,
{
}

/// Each pallet's code leads back to the pallet.
pub proof fn lemma_pallet_code_round_trip(p: FireColorPallet)
    ensures
        teensy_001_pallet_of_code(teensy_001_pallet_code(p)) == p,
{
}

// ---------------------------------------------------------------------------
// Version classification
// ---------------------------------------------------------------------------

/// The classification of an already uppercased version string: an exact known
/// version, a newer version of the known family, or unknown.
pub open spec fn classify_upper(u: Seq<char>) -> KnownProtocolVersions {
    if u == FWV_LEDSC_TEENSY_001@ {
        KnownProtocolVersions::LedscTeensy001
    } else if FWV_LEDSC_TEENSY@.len() <= u.len() && u.subrange(0, FWV_LEDSC_TEENSY@.len() as int)
        == FWV_LEDSC_TEENSY@ {
        KnownProtocolVersions::LedscTeensyNewer
    } else {
        KnownProtocolVersions::Unknown
    }
}

impl KnownProtocolVersions {
    /// The version string that stands for the classification.
    pub open spec fn spec_value(&self) -> Seq<char> {
        match self {
            KnownProtocolVersions::Unknown => FWV_LEDSC_UNKNOWN@,
            KnownProtocolVersions::LedscTeensy001 => FWV_LEDSC_TEENSY_001@,
            KnownProtocolVersions::LedscTeensyNewer => FWV_LEDSC_TEENSY@,
        }
    }

    /// The version string that stands for the classification.
    pub fn value(&self) -> (r: &'static str)
        ensures
            r@ == self.spec_value(),
    {
        match self {
            KnownProtocolVersions::Unknown => FWV_LEDSC_UNKNOWN,
            KnownProtocolVersions::LedscTeensy001 => FWV_LEDSC_TEENSY_001,
            KnownProtocolVersions::LedscTeensyNewer => FWV_LEDSC_TEENSY,
        }
    }
}

/// Classifies a version string that is already uppercase.
pub fn classify_uppercased(upper: &str) -> (r: KnownProtocolVersions)
    ensures
        r == classify_upper(upper@),
{
    let u = chars_of(upper);
    if same_chars(&u, &chars_of(FWV_LEDSC_TEENSY_001)) {
        KnownProtocolVersions::LedscTeensy001
    } else if has_prefix(&u, &chars_of(FWV_LEDSC_TEENSY)) {
        KnownProtocolVersions::LedscTeensyNewer
    } else {
        KnownProtocolVersions::Unknown
    }
}

/// Classifies a firmware version string, ignoring case.
pub fn get_known_protocol_version_from_str(proto_str: &str) -> (r: Option<KnownProtocolVersions>)
    ensures
        r == Some(classify_upper(upper_of(proto_str@))),
{
    let upper = to_upper(proto_str);
    Some(classify_uppercased(upper.as_str()))
}

/// The policy for a classification: every classification currently falls back
/// to the first firmware version's table.
pub fn protocol_version_for(version: KnownProtocolVersions) -> (r: LedscTeensy001)
    ensures
        r == (LedscTeensy001 {}),
{
    match version {
        KnownProtocolVersions::Unknown => LedscTeensy001 {},
        KnownProtocolVersions::LedscTeensy001 => LedscTeensy001 {},
        KnownProtocolVersions::LedscTeensyNewer => LedscTeensy001 {},
    }
}

/// The policy for a firmware version string.
pub fn get_protocol_version_impl_from_str(protocol_str: &str) -> (r: LedscTeensy001)
    ensures
        r == (LedscTeensy001 {}),
{
    match get_known_protocol_version_from_str(protocol_str) {
        Some(version) => protocol_version_for(version),
        None => LedscTeensy001 {},
    }
}

// ---------------------------------------------------------------------------
// Decoding
// ---------------------------------------------------------------------------

/// Whether `c` ends a mnemonic or a parameter.
pub open spec fn is_delimiter(c: char) -> bool {
    c == PROTO_PSC || c == PROTO_ETX
}

/// The first position at or after `i` that holds a delimiter, or the length of
/// `t` if there is none.
pub open spec fn next_delimiter(t: Seq<char>, i: int) -> int
    decreases t.len() - i,
{
    if i < 0 || i >= t.len() {
        t.len() as int
    } else if is_delimiter(t[i]) {
        i
    } else {
        next_delimiter(t, i + 1)
    }
}

/// The parameters of a frame, read from position `j`: while `t[j]` is a
/// separator, the chars after it up to the next delimiter form one parameter.
pub open spec fn params_from(t: Seq<char>, j: int) -> Seq<Seq<char>>
    decreases t.len() - j,
{
    if 0 <= j < t.len() && t[j] == PROTO_PSC {
        let e = next_delimiter(t, j + 1);
        if j < e <= t.len() {
            seq![t.subrange(j + 1, e)] + params_from(t, e)
        } else {
            Seq::empty()
        }
    } else {
        Seq::empty()
    }
}

/// The position where the parameters read from position `j` stop: the end
/// character, or the length of `t` if the frame is cut short.
pub open spec fn params_end(t: Seq<char>, j: int) -> int
    decreases t.len() - j,
{
    if 0 <= j < t.len() && t[j] == PROTO_PSC {
        let e = next_delimiter(t, j + 1);
        if j < e <= t.len() {
            params_end(t, e)
        } else {
            j
        }
    } else {
        j
    }
}

/// The first position at or after `i` that holds a carriage return, or the
/// length of `t`.
pub open spec fn next_cr(t: Seq<char>, i: int) -> int
    decreases t.len() - i,
{
    if i < 0 || i >= t.len() {
        t.len() as int
    } else if t[i] == PROTO_CR {
        i
    } else {
        next_cr(t, i + 1)
    }
}

/// The outcome of decoding a frame that has already been trimmed.
pub open spec fn decode_trimmed(t: Seq<char>) -> ResponseModel {
    if t.len() == 0 || t[0] != PROTO_STX {
        ResponseModel::FailedLocal(ERR_PROTO_CP_MISSING_STX)
    } else {
        let c = next_delimiter(t, 1);
        let params = params_from(t, c);
        let e = params_end(t, c);
        if params.len() == 0 {
            ResponseModel::FailedLocal(ERR_PROTO_CP_MISSING_PARAMS)
        } else if e >= t.len() {
            ResponseModel::FailedLocal(ERR_PROTO_CP_MISSING_ETX)
        } else {
            let packet = PacketModel {
                command: t.subrange(1, c),
                parameters: params,
                crc16_in: match parse_hex(t.subrange(e + 1, next_cr(t, e + 1)), 0xffff) {
                    Some(n) => n as u16,
                    None => 0,
                },
                crc16_calc: crc16_xmodem(encode_utf8(t.subrange(0, e + 1))),
            };
            if params[0] == seq!['0'] {
                ResponseModel::Success(packet)
            } else {
                ResponseModel::FailedRemote(packet)
            }
        }
    }
}

/// The outcome of decoding a raw response: surrounding whitespace is ignored.
pub open spec fn decode(raw: Seq<char>) -> ResponseModel {
    decode_trimmed(trim(raw))
}

proof fn lemma_next_delimiter(t: Seq<char>, i: int)
    requires
        0 <= i <= t.len(),
    ensures
        i <= next_delimiter(t, i) <= t.len(),
        next_delimiter(t, i) < t.len() ==> is_delimiter(t[next_delimiter(t, i)]),
        forall|k: int| i <= k < next_delimiter(t, i) ==> !is_delimiter(#[trigger] t[k]),
    decreases t.len() - i,
{
    if i < t.len() && !is_delimiter(t[i]) {
        lemma_next_delimiter(t, i + 1);
    }
}

proof fn lemma_params_end(t: Seq<char>, j: int)
    requires
        0 <= j <= t.len(),
        j < t.len() ==> is_delimiter(t[j]),
    ensures
        j <= params_end(t, j) <= t.len(),
        params_end(t, j) < t.len() ==> t[params_end(t, j)] == PROTO_ETX,
        params_from(t, j).len() == 0 <==> !(j < t.len() && t[j] == PROTO_PSC),
    decreases t.len() - j,
{
    if 0 <= j < t.len() && t[j] == PROTO_PSC {
        lemma_next_delimiter(t, j + 1);
        lemma_params_end(t, next_delimiter(t, j + 1));
    }
}

/// The UTF-8 encoding of joined char sequences is the joined encodings.
pub proof fn lemma_encode_utf8_concat(a: Seq<char>, b: Seq<char>)
    ensures
        encode_utf8(a + b) == encode_utf8(a) + encode_utf8(b),
    decreases a.len(),
{
    if a.len() == 0 {
        assert(a + b =~= b);
        assert(encode_utf8(a) =~= Seq::<u8>::empty());
        assert(encode_utf8(a) + encode_utf8(b) =~= encode_utf8(b));
    } else {
        assert((a + b).drop_first() =~= a.drop_first() + b);
        lemma_encode_utf8_concat(a.drop_first(), b);
        assert(encode_utf8(a + b) =~= encode_utf8(a) + encode_utf8(b));
    }
}

/// Feeds the UTF-8 bytes of `t[i]` into the checksum.
fn feed_char(crc: &mut Crc16Xmodem, t: &Vec<char>, i: usize)
    requires
        old(crc).wf(),
        i < t@.len(),
        old(crc).consumed() == encode_utf8(t@.subrange(0, i as int)),
    ensures
        final(crc).wf(),
        final(crc).consumed() == encode_utf8(t@.subrange(0, i + 1)),
{
    let mut one = String::new();
    push_char(&mut one, t[i]);
    crc.update(one.as_str().as_bytes());
    proof {
        assert(t@.subrange(0, i + 1) =~= t@.subrange(0, i as int) + one@);
        lemma_encode_utf8_concat(t@.subrange(0, i as int), one@);
    }
}

/// Copies `v[lo..hi]`.
fn copy_range(v: &Vec<char>, lo: usize, hi: usize) -> (r: Vec<char>)
    requires
        lo <= hi <= v@.len(),
    ensures
        r@ == v@.subrange(lo as int, hi as int),
{
    let mut r: Vec<char> = Vec::new();
    let mut i = lo;
    while i < hi
        invariant
            lo <= i <= hi <= v@.len(),
            r@ == v@.subrange(lo as int, i as int),
        decreases hi - i,
    {
        r.push(v[i]);
        i = i + 1;
        assert(r@ =~= v@.subrange(lo as int, i as int));
    }
    r
}

/// Parses a raw response frame.
pub fn decode_response(raw: &str) -> (r: ResponsePacketOption)
    ensures
        r@ == decode(raw@),
{
    let v = chars_of(raw);
    let (lo, hi) = trim_bounds(&v);
    let t = copy_range(&v, lo, hi);
    let n = t.len();
    if n == 0 || t[0] != PROTO_STX {
        return ResponsePacketOption::FailedLocal(ERR_PROTO_CP_MISSING_STX);
    }
    let mut crc = Crc16Xmodem::new();
    proof {
        assert(t@.subrange(0, 0) =~= Seq::<char>::empty());
    }
    feed_char(&mut crc, &t, 0);
    // Mnemonic
    let mut i: usize = 1;
    while i < n && t[i] != PROTO_PSC && t[i] != PROTO_ETX
        invariant
            n == t@.len(),
            1 <= i <= n,
            next_delimiter(t@, i as int) == next_delimiter(t@, 1),
            crc.wf(),
            crc.consumed() == encode_utf8(t@.subrange(0, i as int)),
        decreases n - i,
    {
        feed_char(&mut crc, &t, i);
        i = i + 1;
    }
    let ghost c = i as int;
    assert(next_delimiter(t@, i as int) == i);
    let command = string_of_range(&t, 1, i);
    // Parameters
    let mut params: Vec<String> = Vec::new();
    let mut first_is_zero = false;
    proof {
        lemma_params_end(t@, c);
    }
    while i < n && t[i] == PROTO_PSC
        invariant
            n == t@.len(),
            c <= i <= n,
            i < n ==> is_delimiter(t@[i as int]),
            crc.wf(),
            crc.consumed() == encode_utf8(t@.subrange(0, i as int)),
            params@.map_values(|p: String| p@) + params_from(t@, i as int) == params_from(t@, c),
            params_end(t@, i as int) == params_end(t@, c),
            params@.len() > 0 ==> first_is_zero == (params_from(t@, c)[0] == seq!['0']),
        decreases n - i,
    {
        let ghost at = i as int;
        proof {
            lemma_next_delimiter(t@, at + 1);
        }
        feed_char(&mut crc, &t, i);
        i = i + 1;
        let start = i;
        while i < n && t[i] != PROTO_PSC && t[i] != PROTO_ETX
            invariant
                n == t@.len(),
                start <= i <= n,
                start == at + 1,
                next_delimiter(t@, i as int) == next_delimiter(t@, start as int),
                crc.wf(),
                crc.consumed() == encode_utf8(t@.subrange(0, i as int)),
            decreases n - i,
        {
            feed_char(&mut crc, &t, i);
            i = i + 1;
        }
        assert(next_delimiter(t@, i as int) == i);
        let param = string_of_range(&t, start, i);
        let ghost before = params@.map_values(|p: String| p@);
        if params.len() == 0 {
            first_is_zero = i - start == 1 && t[start] == '0';
            proof {
                let p = t@.subrange(start as int, i as int);
                assert(params_from(t@, c) =~= params_from(t@, at));
                assert(params_from(t@, at)[0] == p);
                if first_is_zero {
                    assert(p =~= seq!['0']);
                } else if p.len() == 1 {
                    assert(p[0] != '0');
                    assert(p != seq!['0']);
                }
            }
        }
        params.push(param);
        proof {
            assert(params@.map_values(|p: String| p@) =~= before.push(
                t@.subrange(start as int, i as int),
            ));
            assert(params_from(t@, at) == seq![t@.subrange(start as int, i as int)]
                + params_from(t@, i as int));
            assert(params@.map_values(|p: String| p@) + params_from(t@, i as int) =~= before
                + params_from(t@, at));
            if before.len() > 0 {
                assert((before + params_from(t@, at))[0] == before[0]);
                assert((params@.map_values(|p: String| p@) + params_from(t@, i as int))[0]
                    == before[0]);
            }
        }
    }
    proof {
        lemma_params_end(t@, i as int);
        assert(params_from(t@, i as int) =~= Seq::<Seq<char>>::empty());
        assert(params@.map_values(|p: String| p@) =~= params_from(t@, c));
    }
    if params.len() == 0 {
        return ResponsePacketOption::FailedLocal(ERR_PROTO_CP_MISSING_PARAMS);
    }
    if i >= n {
        return ResponsePacketOption::FailedLocal(ERR_PROTO_CP_MISSING_ETX);
    }
    let e = i;
    feed_char(&mut crc, &t, e);
    // Checksum
    let mut k = e + 1;
    while k < n && t[k] != PROTO_CR
        invariant
            n == t@.len(),
            e + 1 <= k <= n,
            next_cr(t@, k as int) == next_cr(t@, e + 1),
        decreases n - k,
    {
        k = k + 1;
    }
    let crc16_in = match parse_hex_range(&t, e + 1, k, 0xffff) {
        Some(value) => value as u16,
        None => 0,
    };
    let packet = ResponsePacket {
        command,
        parameters: params,
        crc16_in,
        crc16_calc: crc.finalize(),
    };
    if first_is_zero {
        ResponsePacketOption::Success(packet)
    } else {
        ResponsePacketOption::FailedRemote(packet)
    }
}

// ---------------------------------------------------------------------------
// Encoding and decoding agree
// ---------------------------------------------------------------------------

/// No char of `s` is a delimiter, a carriage return or whitespace.
pub open spec fn plain_chars(s: Seq<char>) -> bool {
    forall|i: int|
        0 <= i < s.len() ==> !is_delimiter(#[trigger] s[i]) && s[i] != PROTO_CR
            && !is_white_space(s[i])
}

proof fn lemma_hex_upper_plain(n: nat)
    ensures
        plain_chars(hex_upper(n)),
        hex_upper(n).len() > 0,
{
    lemma_parse_hex_upper(n, n);
    let h = hex_upper(n);
    assert forall|i: int| 0 <= i < h.len() implies !is_delimiter(#[trigger] h[i]) && h[i]
        != PROTO_CR && !is_white_space(h[i]) by {
        crate::hex::lemma_hex_upper_chars(n, i);
    }
}

proof fn lemma_param_plain(
    command: Command,
    effect_code: spec_fn(Effect) -> u8,
    pallet_code: spec_fn(FireColorPallet) -> u8,
)
    requires
        command_param(command, effect_code, pallet_code) is Some,
    ensures
        plain_chars(command_param(command, effect_code, pallet_code)->0),
{
    match command {
        Command::SetDebugging(on) => {
            let p = command_param(command, effect_code, pallet_code)->0;
            assert forall|i: int| 0 <= i < p.len() implies !is_delimiter(#[trigger] p[i]) && p[i]
                != PROTO_CR && !is_white_space(p[i]) by {
                assert(p[i] == '0' || p[i] == 'x' || p[i] == '1');
            }
        },
        Command::SetEffect(e) => lemma_hex_upper_plain(effect_code(e) as nat),
        Command::SetColor(c) => lemma_hex_upper_plain(c.packed()),
        Command::SetBrightness(b) => lemma_hex_upper_plain(b as nat),
        Command::SetFireColorPallet(p) => lemma_hex_upper_plain(pallet_code(p) as nat),
        _ => {},
    }
}

proof fn lemma_next_delimiter_at(t: Seq<char>, i: int, j: int)
    requires
        0 <= i <= j < t.len(),
        is_delimiter(t[j]),
        forall|k: int| i <= k < j ==> !is_delimiter(#[trigger] t[k]),
    ensures
        next_delimiter(t, i) == j,
    decreases j - i,
{
    if i < j {
        lemma_next_delimiter_at(t, i + 1, j);
    }
}

proof fn lemma_next_cr_none(t: Seq<char>, i: int)
    requires
        0 <= i <= t.len(),
        forall|k: int| i <= k < t.len() ==> #[trigger] t[k] != PROTO_CR,
    ensures
        next_cr(t, i) == t.len(),
    decreases t.len() - i,
{
    if i < t.len() {
        lemma_next_cr_none(t, i + 1);
    }
}

/// Decoding the frame of a command that carries a parameter gives back its
/// mnemonic and its parameter, and the checksum read from the frame equals the
/// CRC-16/XMODEM computed over the frame's body, which is the checksum decoding
/// computes. This holds whatever codes the policy gives effects and pallets.
pub proof fn lemma_decode_encoded(
    command: Command,
    effect_code: spec_fn(Effect) -> u8,
    pallet_code: spec_fn(FireColorPallet) -> u8,
)
    requires
        command_param(command, effect_code, pallet_code) is Some,
    ensures
        ({
            let param = command_param(command, effect_code, pallet_code)->0;
            let body = frame_body(mnemonic(command), Some(param));
            let packet = PacketModel {
                command: mnemonic(command),
                parameters: seq![param],
                crc16_in: crc16_xmodem(encode_utf8(body)),
                crc16_calc: crc16_xmodem(encode_utf8(body)),
            };
            decode(framed(body)) == if param == seq!['0'] {
                ResponseModel::Success(packet)
            } else {
                ResponseModel::FailedRemote(packet)
            }
        }),
{
    let param = command_param(command, effect_code, pallet_code)->0;
    let m = mnemonic(command);
    let body = frame_body(m, Some(param));
    let crc = crc16_xmodem(encode_utf8(body));
    let h = hex_upper(crc as nat);
    let f = framed(body);
    let t = body + h;
    lemma_param_plain(command, effect_code, pallet_code);
    lemma_hex_upper_plain(crc as nat);
    lemma_parse_hex_upper(crc as nat, 0xffff);
    assert(plain_chars(m));
    // Trimming removes exactly the CR and LF.
    assert(f =~= t + seq![PROTO_CR, PROTO_NL]);
    assert(trim_front(f) == f);
    assert(f.drop_last() =~= t.push(PROTO_CR));
    assert(t.push(PROTO_CR).drop_last() =~= t);
    assert(t.last() == h.last());
    assert(!is_white_space(t.last()));
    assert(trim_back(t) == t);
    assert(is_white_space(f.last()));
    assert(trim_back(f) == trim_back(t.push(PROTO_CR)));
    assert(is_white_space(t.push(PROTO_CR).last()));
    assert(trim_back(t.push(PROTO_CR)) == trim_back(t));
    assert(trim(f) == t);
    // The positions of the delimiters.
    let c: int = 1 + m.len() as int;
    let e: int = c + 1 + param.len() as int;
    assert(t[0] == PROTO_STX);
    assert(t[c] == PROTO_PSC);
    assert(t[e] == PROTO_ETX);
    assert forall|k: int| 1 <= k < c implies !is_delimiter(#[trigger] t[k]) by {
        assert(t[k] == m[k - 1]);
    }
    lemma_next_delimiter_at(t, 1, c);
    assert forall|k: int| c + 1 <= k < e implies !is_delimiter(#[trigger] t[k]) by {
        assert(t[k] == param[k - c - 1]);
    }
    lemma_next_delimiter_at(t, c + 1, e);
    assert(params_from(t, e) == Seq::<Seq<char>>::empty());
    assert(t.subrange(c + 1, e) =~= param);
    assert(params_from(t, c) =~= seq![param]);
    assert(params_end(t, e) == e);
    assert(params_end(t, c) == params_end(t, e));
    assert(t.subrange(1, c) =~= m);
    assert(t.subrange(0, e + 1) =~= body);
    assert(t.subrange(e + 1, t.len() as int) =~= h);
    assert forall|k: int| e + 1 <= k < t.len() implies #[trigger] t[k] != PROTO_CR by {
        assert(t[k] == h[k - e - 1]);
    }
    lemma_next_cr_none(t, e + 1);
}

/// Decoding the frame of a command that carries no parameter fails locally for
/// want of a status parameter.
pub proof fn lemma_decode_encoded_without_param(
    command: Command,
    effect_code: spec_fn(Effect) -> u8,
    pallet_code: spec_fn(FireColorPallet) -> u8,
)
    requires
        command_param(command, effect_code, pallet_code) is None,
    ensures
        decode(framed(frame_body(mnemonic(command), None))) == ResponseModel::FailedLocal(
            ERR_PROTO_CP_MISSING_PARAMS,
        ),
{
    let m = mnemonic(command);
    let body = frame_body(m, None);
    let crc = crc16_xmodem(encode_utf8(body));
    let h = hex_upper(crc as nat);
    let f = framed(body);
    let t = body + h;
    lemma_hex_upper_plain(crc as nat);
    assert(plain_chars(m));
    assert(f =~= t + seq![PROTO_CR, PROTO_NL]);
    assert(trim_front(f) == f);
    assert(f.drop_last() =~= t.push(PROTO_CR));
    assert(t.push(PROTO_CR).drop_last() =~= t);
    assert(t.last() == h.last());
    assert(trim_back(t) == t);
    assert(trim_back(f) == trim_back(t.push(PROTO_CR)));
    assert(trim_back(t.push(PROTO_CR)) == trim_back(t));
    let c: int = 1 + m.len() as int;
    assert(t[0] == PROTO_STX);
    assert(t[c] == PROTO_ETX);
    assert forall|k: int| 1 <= k < c implies !is_delimiter(#[trigger] t[k]) by {
        assert(t[k] == m[k - 1]);
    }
    lemma_next_delimiter_at(t, 1, c);
}

/// Whatever the input, when its trimmed text does not begin with the start
/// character, decoding fails locally for want of it.
pub proof fn lemma_missing_start_marker(raw: Seq<char>)
    requires
        trim(raw).len() == 0 || trim(raw)[0] != PROTO_STX,
    ensures
        decode(raw) == ResponseModel::FailedLocal(ERR_PROTO_CP_MISSING_STX),
{
}

} // verus!
