//! What the iron's frames and codes mean.

use crate::pinecil::{setting_uuid_text, setting_uuid_value, LiveData, OperatingMode, PowerSource};
use crate::pinecil::{
    BULK_BUILD_INFO, BULK_DATA_SERVICE, BULK_LIVE_DATA, SETTINGS_SAVE, SETTINGS_SERVICE,
    SETTING_BOOST_TEMP, SETTING_BRIGHTNESS, SETTING_SETPOINT, SETTING_SLEEP_TEMP,
    SETTING_SLEEP_TIMEOUT, SETTING_TEMP_UNIT,
};
use crate::text::{decimal, fixed_hex};
use crate::text_laws::{law_decimal_reads_back, law_fixed_hex_reads_back};
use crate::text_laws::{hex_value, reads};
use crate::uuids::{is_hyphenated, uuid_value};
use vstd::arithmetic::power::pow;
use vstd::prelude::*;

verus! {

/// The characteristics and services have these numbers: the text of each spells its own.
pub proof fn law_characteristics_have_numbers()
    ensures
        is_hyphenated(BULK_DATA_SERVICE@),
        uuid_value(BULK_DATA_SERVICE@) == 0x9eae1000_9d0d_48c5_aa55_33e27f9bc533,
        is_hyphenated(BULK_LIVE_DATA@),
        uuid_value(BULK_LIVE_DATA@) == 0x9eae1001_9d0d_48c5_aa55_33e27f9bc533,
        is_hyphenated(BULK_BUILD_INFO@),
        uuid_value(BULK_BUILD_INFO@) == 0x9eae1003_9d0d_48c5_aa55_33e27f9bc533,
        is_hyphenated(SETTINGS_SERVICE@),
        uuid_value(SETTINGS_SERVICE@) == 0xf6d80000_5a10_4eba_aa55_33e27f9bc533,
        is_hyphenated(SETTINGS_SAVE@),
        uuid_value(SETTINGS_SAVE@) == 0xf6d7ffff_5a10_4eba_aa55_33e27f9bc533,
{
    reveal_strlit("9eae1000-9d0d-48c5-aa55-33e27f9bc533");
    reveal_strlit("9eae1001-9d0d-48c5-aa55-33e27f9bc533");
    reveal_strlit("9eae1003-9d0d-48c5-aa55-33e27f9bc533");
    reveal_strlit("f6d80000-5a10-4eba-aa55-33e27f9bc533");
    reveal_strlit("f6d7ffff-5a10-4eba-aa55-33e27f9bc533");
}

/// The settings stand at these indices.
pub proof fn law_settings_have_indices()
    ensures
        SETTING_SETPOINT == 0 && SETTING_BOOST_TEMP == 4 && SETTING_SLEEP_TEMP == 5,
        SETTING_SLEEP_TIMEOUT == 6 && SETTING_BRIGHTNESS == 14 && SETTING_TEMP_UNIT == 18,
{
}

/// Whether `n` is the little-endian number in the four bytes at `at`.
pub open spec fn is_word(data: Seq<u8>, at: int, n: int) -> bool {
    n == data[at] + 256 * data[at + 1] + 65536 * data[at + 2] + 16777216 * data[at + 3]
}

/// Bytes hold readings exactly when there are at least 56 of them and the first eight are not all
/// zero.
pub proof fn law_frames_are_recognised(data: Seq<u8>)
    ensures
        LiveData::reading(data) is Some <==> data.len() >= 56 && exists|i: int|
            0 <= i < 8 && #[trigger] data[i] != 0,
{
    if data.len() >= 56 {
        if forall|i: int| 0 <= i < 8 ==> #[trigger] data[i] == 0 {
            assert(data[0] == 0 && data[1] == 0 && data[2] == 0 && data[3] == 0);
            assert(data[4] == 0 && data[5] == 0 && data[6] == 0 && data[7] == 0);
        }
    }
}

/// Every reading is the little-endian number in its own four bytes of the frame, whatever the
/// other bytes are.
pub proof fn law_readings_stand_in_their_words(data: Seq<u8>)
    requires
        LiveData::reading(data) is Some,
    ensures
        ({
            let live = LiveData::reading(data)->0;
            &&& is_word(data, 0, live.tip_temp as int)
            &&& is_word(data, 4, live.setpoint as int)
            &&& is_word(data, 8, live.voltage as int)
            &&& is_word(data, 12, live.handle_temp as int)
            &&& is_word(data, 16, live.power_pwm as int)
            &&& is_word(data, 24, live.tip_resistance as int)
            &&& is_word(data, 28, live.uptime_secs as int)
            &&& is_word(data, 32, live.last_move_secs as int)
            &&& is_word(data, 36, live.max_temp as int)
            &&& is_word(data, 40, live.raw_tip as int)
            &&& is_word(data, 52, live.estimated_watts as int)
        }),
{
}

/// The hall sensor is the two's complement number in its four bytes: negative exactly when the
/// highest bit is set.
pub proof fn law_hall_sensor_is_signed(data: Seq<u8>)
    requires
        LiveData::reading(data) is Some,
    ensures
        ({
            let hall = LiveData::reading(data)->0.hall_sensor;
            &&& hall < 0 <==> data[47] >= 128
            &&& is_word(data, 44, if hall < 0 { hall + 0x1_0000_0000 } else { hall as int })
        }),
{
}

/// The power source is the one whose code stands in its four bytes; a code without a meaning is
/// kept.
pub proof fn law_power_source_stands_in_its_word(data: Seq<u8>)
    requires
        LiveData::reading(data) is Some,
    ensures
        match LiveData::reading(data)->0.power_source {
            PowerSource::DC => is_word(data, 20, 0),
            PowerSource::QC => is_word(data, 20, 1),
            PowerSource::PDPPS => is_word(data, 20, 2),
            PowerSource::USBPD => is_word(data, 20, 3),
            PowerSource::Unknown(code) => code > 3 && is_word(data, 20, code as int),
        },
{
}

/// The operating mode is the one whose code stands in its four bytes; a code without a meaning is
/// kept.
pub proof fn law_operating_mode_stands_in_its_word(data: Seq<u8>)
    requires
        LiveData::reading(data) is Some,
    ensures
        match LiveData::reading(data)->0.operating_mode {
            OperatingMode::Idle => is_word(data, 48, 0),
            OperatingMode::Soldering => is_word(data, 48, 1),
            OperatingMode::Boost => is_word(data, 48, 2),
            OperatingMode::Sleeping => is_word(data, 48, 3),
            OperatingMode::Standby => is_word(data, 48, 4),
            OperatingMode::Debug => is_word(data, 48, 5),
            OperatingMode::Unknown(code) => code > 5 && is_word(data, 48, code as int),
        },
{
}

/// What a code means: four power sources and six operating modes; every other code is kept as it
/// is.
pub proof fn law_codes_have_meanings(code: u32)
    ensures
        match PowerSource::of_code(code) {
            PowerSource::DC => code == 0,
            PowerSource::QC => code == 1,
            PowerSource::PDPPS => code == 2,
            PowerSource::USBPD => code == 3,
            PowerSource::Unknown(v) => code > 3 && v == code,
        },
        match OperatingMode::of_code(code) {
            OperatingMode::Idle => code == 0,
            OperatingMode::Soldering => code == 1,
            OperatingMode::Boost => code == 2,
            OperatingMode::Sleeping => code == 3,
            OperatingMode::Standby => code == 4,
            OperatingMode::Debug => code == 5,
            OperatingMode::Unknown(v) => code > 5 && v == code,
        },
{
}

/// Whether a text says that a code has no name: the code in brackets, behind a question mark.
pub open spec fn says_unknown(text: Seq<char>, code: u32) -> bool {
    &&& text.len() > 3
    &&& text[0] == '?' && text[1] == '(' && text.last() == ')'
    &&& reads(text.subrange(2, text.len() - 1), code as nat)
}

/// How power sources are named.
pub proof fn law_power_sources_are_named(source: PowerSource)
    ensures
        match source {
            PowerSource::DC => source.label() == seq!['D', 'C'],
            PowerSource::QC => source.label() == seq!['Q', 'C'],
            PowerSource::PDPPS => source.label() == seq!['P', 'D', ' ', 'P', 'P', 'S'],
            PowerSource::USBPD => source.label() == seq!['U', 'S', 'B', '-', 'P', 'D'],
            PowerSource::Unknown(code) => says_unknown(source.label(), code),
        },
{
    reveal_strlit("DC");
    reveal_strlit("QC");
    reveal_strlit("PD PPS");
    reveal_strlit("USB-PD");
    if let PowerSource::Unknown(code) = source {
        lemma_says_unknown(source.label(), code);
    }
}

/// How operating modes are named.
pub proof fn law_operating_modes_are_named(mode: OperatingMode)
    ensures
        match mode {
            OperatingMode::Idle => mode.label() == seq!['I', 'D', 'L', 'E'],
            OperatingMode::Soldering => mode.label() == seq![
                'S',
                'O',
                'L',
                'D',
                'E',
                'R',
                'I',
                'N',
                'G',
            ],
            OperatingMode::Boost => mode.label() == seq!['B', 'O', 'O', 'S', 'T'],
            OperatingMode::Sleeping => mode.label() == seq![
                'S',
                'L',
                'E',
                'E',
                'P',
                'I',
                'N',
                'G',
            ],
            OperatingMode::Standby => mode.label() == seq!['S', 'T', 'A', 'N', 'D', 'B', 'Y'],
            OperatingMode::Debug => mode.label() == seq!['D', 'E', 'B', 'U', 'G'],
            OperatingMode::Unknown(code) => says_unknown(mode.label(), code),
        },
{
    reveal_strlit("IDLE");
    reveal_strlit("SOLDERING");
    reveal_strlit("BOOST");
    reveal_strlit("SLEEPING");
    reveal_strlit("STANDBY");
    reveal_strlit("DEBUG");
    if let OperatingMode::Unknown(code) = mode {
        lemma_says_unknown(mode.label(), code);
    }
}

proof fn lemma_says_unknown(text: Seq<char>, code: u32)
    requires
        text == "?("@ + decimal(code as nat) + ")"@,
    ensures
        says_unknown(text, code),
{
    reveal_strlit("?(");
    reveal_strlit(")");
    law_decimal_reads_back(code as nat);
    assert(text.subrange(2, text.len() - 1) =~= decimal(code as nat));
}

/// The characteristic of a setting: the index is the second group of four hexadecimal digits, and
/// bits 96 to 111 of the number; the rest is the same for all settings.
pub proof fn law_setting_uuid_holds_the_index(index: u16)
    ensures
        ({
            let text = setting_uuid_text(index);
            &&& text.len() == 36
            &&& text.take(4) == seq!['f', '6', 'd', '7']
            &&& hex_value(text.subrange(4, 8)) == index
            &&& text.skip(8) == "-5a10-4eba-aa55-33e27f9bc533"@
        }),
        setting_uuid_value(index) == 0xf6d7_0000_5a10_4eba_aa55_33e2_7f9b_c533
            + 0x1_0000_0000_0000_0000_0000_0000 * index,
{
    reveal_strlit("f6d7");
    reveal_strlit("-5a10-4eba-aa55-33e27f9bc533");
    law_fixed_hex_reads_back(index as nat, 4);
    let text = setting_uuid_text(index);
    assert(text.subrange(4, 8) =~= fixed_hex(index as nat, 4));
    assert(text.take(4) =~= seq!['f', '6', 'd', '7']);
    assert(text.skip(8) =~= "-5a10-4eba-aa55-33e27f9bc533"@);
    assert(pow(16, 4) == 65536) by {
        reveal_with_fuel(pow, 5);
    }
    assert(index as nat % 65536nat == index);
}

} // verus!
