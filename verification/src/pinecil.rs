//! The Pinecil's Bluetooth interface (IronOS 2.21 and later): characteristics, settings and
//! the live data frame.

use crate::text::{decimal, digit_char, fixed_hex, owned, push_decimal, push_fixed_hex};
use crate::uuids::{is_hyphenated, parse_uuid, uuid_value};
use vstd::prelude::*;

verus! {

/// The bulk data service.
pub const BULK_DATA_SERVICE: &'static str = "9eae1000-9d0d-48c5-aa55-33e27f9bc533";

/// The live data frame of the bulk data service.
pub const BULK_LIVE_DATA: &'static str = "9eae1001-9d0d-48c5-aa55-33e27f9bc533";

/// The firmware build text of the bulk data service.
pub const BULK_BUILD_INFO: &'static str = "9eae1003-9d0d-48c5-aa55-33e27f9bc533";

/// The settings service.
pub const SETTINGS_SERVICE: &'static str = "f6d80000-5a10-4eba-aa55-33e27f9bc533";

/// Writing here makes the iron keep its settings.
pub const SETTINGS_SAVE: &'static str = "f6d7ffff-5a10-4eba-aa55-33e27f9bc533";

pub const SETTING_SETPOINT: u16 = 0;

pub const SETTING_BOOST_TEMP: u16 = 4;

pub const SETTING_SLEEP_TEMP: u16 = 5;

pub const SETTING_SLEEP_TIMEOUT: u16 = 6;

pub const SETTING_BRIGHTNESS: u16 = 14;

pub const SETTING_TEMP_UNIT: u16 = 18;

/// The characteristic of the setting at `index`: `f6d7NNNN-5a10-4eba-aa55-33e27f9bc533`, with
/// the index in four hexadecimal digits.
pub open spec fn setting_uuid_text(index: u16) -> Seq<char> {
    "f6d7"@ + fixed_hex(index as nat, 4) + "-5a10-4eba-aa55-33e27f9bc533"@
}

/// The number of the characteristic of the setting at `index`.
pub open spec fn setting_uuid_value(index: u16) -> nat {
    (0xf6d7_0000_5a10_4eba_aa55_33e2_7f9b_c533 + index * 0x1_0000_0000_0000_0000_0000_0000) as nat
}

proof fn lemma_setting_uuid(index: u16)
    ensures
        is_hyphenated(setting_uuid_text(index)),
        uuid_value(setting_uuid_text(index)) == setting_uuid_value(index),
{
    reveal_strlit("f6d7");
    reveal_strlit("-5a10-4eba-aa55-33e27f9bc533");
    reveal_with_fuel(fixed_hex, 5);
    let t = setting_uuid_text(index);
    let n = index as nat;
    assert(t.len() == 36);
    assert(t[4] == digit_char(n / 16 / 16 / 16 % 16));
    assert(t[5] == digit_char(n / 16 / 16 % 16));
    assert(t[6] == digit_char(n / 16 % 16));
    assert(t[7] == digit_char(n % 16));
}

/// The characteristic of a setting.
pub fn setting_uuid(index: u16) -> (r: u128)
    ensures
        r == setting_uuid_value(index),
        r == uuid_value(setting_uuid_text(index)),
{
    let mut text = owned("f6d7");
    push_fixed_hex(&mut text, index as u128, 4);
    text.append("-5a10-4eba-aa55-33e27f9bc533");
    proof {
        lemma_setting_uuid(index);
    }
    parse_uuid(text.as_str())
}

/// The characteristic of the live data frame.
pub fn live_data_uuid() -> (r: u128)
    ensures
        r == 0x9eae1001_9d0d_48c5_aa55_33e27f9bc533,
        r == uuid_value(BULK_LIVE_DATA@),
{
    proof {
        reveal_strlit("9eae1001-9d0d-48c5-aa55-33e27f9bc533");
    }
    parse_uuid(BULK_LIVE_DATA)
}

/// The characteristic of the firmware build text.
pub fn build_info_uuid() -> (r: u128)
    ensures
        r == 0x9eae1003_9d0d_48c5_aa55_33e27f9bc533,
        r == uuid_value(BULK_BUILD_INFO@),
{
    proof {
        reveal_strlit("9eae1003-9d0d-48c5-aa55-33e27f9bc533");
    }
    parse_uuid(BULK_BUILD_INFO)
}

/// The characteristic that makes the iron keep its settings.
pub fn settings_save_uuid() -> (r: u128)
    ensures
        r == 0xf6d7ffff_5a10_4eba_aa55_33e27f9bc533,
        r == uuid_value(SETTINGS_SAVE@),
{
    proof {
        reveal_strlit("f6d7ffff-5a10-4eba-aa55-33e27f9bc533");
    }
    parse_uuid(SETTINGS_SAVE)
}

/// Distinct settings have distinct characteristics, and none of them but the one at index
/// `0xffff` is the one that saves.
pub proof fn law_settings_are_told_apart(a: u16, b: u16)
    ensures
        setting_uuid_value(a) == setting_uuid_value(b) <==> a == b,
        setting_uuid_value(a) == 0xf6d7ffff_5a10_4eba_aa55_33e27f9bc533 <==> a == 0xffff,
{
}

/// The length of a live data frame: fourteen little-endian words.
pub const FRAME_LEN: usize = 56;

/// The little-endian 32-bit word at `at`.
pub open spec fn word(data: Seq<u8>, at: int) -> u32 {
    (data[at] + 0x100 * data[at + 1] + 0x1_0000 * data[at + 2] + 0x100_0000 * data[at + 3]) as u32
}

/// A word read as a two's complement number.
pub open spec fn signed_word(word: u32) -> i32 {
    if word < 0x8000_0000 {
        word as i32
    } else {
        (word - 0x1_0000_0000) as i32
    }
}

/// One frame of readings. Temperatures in whole degrees stand as they are; a reading in tenths
/// of its unit (volts, degrees, ohms, watts) stands as the number of tenths.
#[derive(Debug, Clone, Copy)]
pub struct LiveData {
    /// Tip temperature, °C.
    pub tip_temp: u32,
    /// Temperature to reach, °C.
    pub setpoint: u32,
    /// Supply voltage, 0.1 V.
    pub voltage: u32,
    /// Handle temperature, 0.1 °C.
    pub handle_temp: u32,
    /// Heater duty, percent.
    pub power_pwm: u32,
    pub power_source: PowerSource,
    /// Tip resistance, 0.1 Ω.
    pub tip_resistance: u32,
    /// Time since power-up, s.
    pub uptime_secs: u32,
    /// Time since the iron last moved, s.
    pub last_move_secs: u32,
    /// Highest temperature that can be set, °C.
    pub max_temp: u32,
    /// Raw tip reading.
    pub raw_tip: u32,
    /// Hall sensor reading.
    pub hall_sensor: i32,
    pub operating_mode: OperatingMode,
    /// Estimated power, 0.1 W.
    pub estimated_watts: u32,
}

impl LiveData {
    /// Whether `data` is a frame that the iron has filled in: long enough, and not with both
    /// the tip temperature and the setpoint at zero.
    pub open spec fn is_frame(data: Seq<u8>) -> bool {
        data.len() >= FRAME_LEN && !(word(data, 0) == 0 && word(data, 4) == 0)
    }

    /// The readings in a frame.
    pub open spec fn decode(data: Seq<u8>) -> LiveData {
        LiveData {
            tip_temp: word(data, 0),
            setpoint: word(data, 4),
            voltage: word(data, 8),
            handle_temp: word(data, 12),
            power_pwm: word(data, 16),
            power_source: PowerSource::of_code(word(data, 20)),
            tip_resistance: word(data, 24),
            uptime_secs: word(data, 28),
            last_move_secs: word(data, 32),
            max_temp: word(data, 36),
            raw_tip: word(data, 40),
            hall_sensor: signed_word(word(data, 44)),
            operating_mode: OperatingMode::of_code(word(data, 48)),
            estimated_watts: word(data, 52),
        }
    }

    /// What a read of the live data characteristic holds, if anything.
    pub open spec fn reading(data: Seq<u8>) -> Option<LiveData> {
        if LiveData::is_frame(data) {
            Some(LiveData::decode(data))
        } else {
            None
        }
    }

    /// Decodes a live data frame. A frame that is too short, or that the iron has not filled in
    /// yet, holds no readings.
    pub fn from_bulk(data: &[u8]) -> (r: Option<LiveData>)
        ensures
            r == LiveData::reading(data@),
    {
        if data.len() < FRAME_LEN {
            return None;
        }
        let tip_temp: u32 = read_word(data, 0);
        let setpoint: u32 = read_word(data, 4);
        if tip_temp == 0 && setpoint == 0 {
            return None;
        }
        Some(
            LiveData {
                tip_temp,
                setpoint,
                voltage: read_word(data, 8),
                handle_temp: read_word(data, 12),
                power_pwm: read_word(data, 16),
                power_source: PowerSource::from(read_word(data, 20)),
                tip_resistance: read_word(data, 24),
                uptime_secs: read_word(data, 28),
                last_move_secs: read_word(data, 32),
                max_temp: read_word(data, 36),
                raw_tip: read_word(data, 40),
                hall_sensor: read_signed_word(data, 44),
                operating_mode: OperatingMode::from(read_word(data, 48)),
                estimated_watts: read_word(data, 52),
            },
        )
    }
}

fn read_word(data: &[u8], at: usize) -> (r: u32)
    requires
        at + 4 <= data@.len(),
    ensures
        r == word(data@, at as int),
{
    data[at] as u32 + 0x100 * (data[at + 1] as u32) + 0x1_0000 * (data[at + 2] as u32) + 0x100_0000
        * (data[at + 3] as u32)
}

fn read_signed_word(data: &[u8], at: usize) -> (r: i32)
    requires
        at + 4 <= data@.len(),
    ensures
        r == signed_word(word(data@, at as int)),
{
    let w: u32 = read_word(data, at);
    if w < 0x8000_0000 {
        w as i32
    } else {
        (w as i64 - 0x1_0000_0000) as i32
    }
}

/// What feeds the iron.
#[derive(Debug, Clone, Copy, PartialEq, Eq, Structural)]
pub enum PowerSource {
    DC,
    QC,
    PDPPS,
    USBPD,
    Unknown(u32),
}

impl PowerSource {
    /// The power source that a code in the live data frame stands for.
    pub open spec fn of_code(v: u32) -> PowerSource {
        if v == 0 {
            PowerSource::DC
        } else if v == 1 {
            PowerSource::QC
        } else if v == 2 {
            PowerSource::PDPPS
        } else if v == 3 {
            PowerSource::USBPD
        } else {
            PowerSource::Unknown(v)
        }
    }

    /// The name shown for a power source.
    pub open spec fn label(self) -> Seq<char> {
        match self {
            PowerSource::DC => "DC"@,
            PowerSource::QC => "QC"@,
            PowerSource::PDPPS => "PD PPS"@,
            PowerSource::USBPD => "USB-PD"@,
            PowerSource::Unknown(v) => unknown_label(v),
        }
    }

    /// The name shown for a power source.
    pub fn to_string(&self) -> (r: String)
        ensures
            r@ == self.label(),
    {
        match self {
            PowerSource::DC => owned("DC"),
            PowerSource::QC => owned("QC"),
            PowerSource::PDPPS => owned("PD PPS"),
            PowerSource::USBPD => owned("USB-PD"),
            PowerSource::Unknown(v) => unknown_text(*v),
        }
    }
}

impl From<u32> for PowerSource {
    fn from(v: u32) -> (r: Self) {
        match v {
            0 => PowerSource::DC,
            1 => PowerSource::QC,
            2 => PowerSource::PDPPS,
            3 => PowerSource::USBPD,
            other => PowerSource::Unknown(other),
        }
    }
}

impl vstd::std_specs::convert::FromSpecImpl<u32> for PowerSource {
    open spec fn obeys_from_spec() -> bool {
        true
    }

    open spec fn from_spec(v: u32) -> Self {
        PowerSource::of_code(v)
    }
}

/// What the iron is doing.
#[derive(Debug, Clone, Copy, PartialEq, Eq, Structural)]
pub enum OperatingMode {
    Idle,
    Soldering,
    Boost,
    Sleeping,
    Standby,
    Debug,
    Unknown(u32),
}

impl OperatingMode {
    /// The operating mode that a code in the live data frame stands for.
    pub open spec fn of_code(v: u32) -> OperatingMode {
        if v == 0 {
            OperatingMode::Idle
        } else if v == 1 {
            OperatingMode::Soldering
        } else if v == 2 {
            OperatingMode::Boost
        } else if v == 3 {
            OperatingMode::Sleeping
        } else if v == 4 {
            OperatingMode::Standby
        } else if v == 5 {
            OperatingMode::Debug
        } else {
            OperatingMode::Unknown(v)
        }
    }

    /// The name shown for an operating mode.
    pub open spec fn label(self) -> Seq<char> {
        match self {
            OperatingMode::Idle => "IDLE"@,
            OperatingMode::Soldering => "SOLDERING"@,
            OperatingMode::Boost => "BOOST"@,
            OperatingMode::Sleeping => "SLEEPING"@,
            OperatingMode::Standby => "STANDBY"@,
            OperatingMode::Debug => "DEBUG"@,
            OperatingMode::Unknown(v) => unknown_label(v),
        }
    }

    /// The name shown for an operating mode.
    pub fn to_string(&self) -> (r: String)
        ensures
            r@ == self.label(),
    {
        match self {
            OperatingMode::Idle => owned("IDLE"),
            OperatingMode::Soldering => owned("SOLDERING"),
            OperatingMode::Boost => owned("BOOST"),
            OperatingMode::Sleeping => owned("SLEEPING"),
            OperatingMode::Standby => owned("STANDBY"),
            OperatingMode::Debug => owned("DEBUG"),
            OperatingMode::Unknown(v) => unknown_text(*v),
        }
    }
}

impl From<u32> for OperatingMode {
    fn from(v: u32) -> (r: Self) {
        match v {
            0 => OperatingMode::Idle,
            1 => OperatingMode::Soldering,
            2 => OperatingMode::Boost,
            3 => OperatingMode::Sleeping,
            4 => OperatingMode::Standby,
            5 => OperatingMode::Debug,
            other => OperatingMode::Unknown(other),
        }
    }
}

impl vstd::std_specs::convert::FromSpecImpl<u32> for OperatingMode {
    open spec fn obeys_from_spec() -> bool {
        true
    }

    open spec fn from_spec(v: u32) -> Self {
        OperatingMode::of_code(v)
    }
}

/// The name shown for a code without one: `?(code)`.
pub open spec fn unknown_label(v: u32) -> Seq<char> {
    "?("@ + decimal(v as nat) + ")"@
}

fn unknown_text(v: u32) -> (r: String)
    ensures
        r@ == unknown_label(v),
{
    let mut out = owned("?(");
    push_decimal(&mut out, v as u128);
    out.append(")");
    out
}

/// No two codes are taken for the same power source, nor for the same operating mode.
pub proof fn law_codes_are_told_apart(a: u32, b: u32)
    ensures
        PowerSource::of_code(a) == PowerSource::of_code(b) <==> a == b,
        OperatingMode::of_code(a) == OperatingMode::of_code(b) <==> a == b,
{
}

/// What follows the fourteen words of a frame changes nothing.
pub proof fn law_trailing_bytes_are_ignored(data: Seq<u8>, more: Seq<u8>)
    requires
        data.len() >= FRAME_LEN,
    ensures
        LiveData::reading(data + more) == LiveData::reading(data),
{
    assert forall|i: int| 0 <= i < FRAME_LEN implies #[trigger] (data + more)[i] == data[i] by {}
}

proof fn lemma_word_bytes(a: Seq<u8>, b: Seq<u8>, at: int)
    ensures
        word(a, at) == word(b, at) <==> (a[at] == b[at] && a[at + 1] == b[at + 1] && a[at + 2]
            == b[at + 2] && a[at + 3] == b[at + 3]),
{
}

/// Readings are lost by nothing but the frame's own filter: two frames give the same readings
/// exactly when their fourteen words agree.
pub proof fn law_decoding_is_lossless(a: Seq<u8>, b: Seq<u8>)
    requires
        LiveData::is_frame(a),
        LiveData::is_frame(b),
    ensures
        LiveData::reading(a) == LiveData::reading(b) <==> a.take(FRAME_LEN as int) == b.take(
            FRAME_LEN as int,
        ),
{
    let ta = a.take(FRAME_LEN as int);
    let tb = b.take(FRAME_LEN as int);
    if ta == tb {
        assert forall|i: int| 0 <= i < FRAME_LEN implies #[trigger] a[i] == b[i] by {
            assert(ta[i] == a[i] && tb[i] == b[i]);
        }
        assert(LiveData::decode(a) == LiveData::decode(b));
    }
    if LiveData::reading(a) == LiveData::reading(b) {
        law_codes_are_told_apart(word(a, 20), word(b, 20));
        law_codes_are_told_apart(word(a, 48), word(b, 48));
        lemma_word_bytes(a, b, 0);
        lemma_word_bytes(a, b, 4);
        lemma_word_bytes(a, b, 8);
        lemma_word_bytes(a, b, 12);
        lemma_word_bytes(a, b, 16);
        lemma_word_bytes(a, b, 20);
        lemma_word_bytes(a, b, 24);
        lemma_word_bytes(a, b, 28);
        lemma_word_bytes(a, b, 32);
        lemma_word_bytes(a, b, 36);
        lemma_word_bytes(a, b, 40);
        lemma_word_bytes(a, b, 44);
        lemma_word_bytes(a, b, 48);
        lemma_word_bytes(a, b, 52);
        assert(ta =~= tb);
    }
}

} // verus!
