use pinemonitor::pinecil::{
    build_info_uuid, live_data_uuid, setting_uuid, settings_save_uuid, BULK_BUILD_INFO,
    BULK_DATA_SERVICE, BULK_LIVE_DATA, SETTINGS_SAVE, SETTINGS_SERVICE, SETTING_BOOST_TEMP,
    SETTING_SETPOINT,
};
use uuid::Uuid;

#[test]
fn setting_characteristics() {
    assert_eq!(
        setting_uuid(SETTING_SETPOINT),
        0xf6d70000_5a10_4eba_aa55_33e27f9bc533
    );
    assert_eq!(
        Uuid::from_u128(setting_uuid(SETTING_BOOST_TEMP)).to_string(),
        "f6d70004-5a10-4eba-aa55-33e27f9bc533"
    );
    assert_eq!(
        Uuid::from_u128(setting_uuid(0xbeef)).to_string(),
        "f6d7beef-5a10-4eba-aa55-33e27f9bc533"
    );
    assert_eq!(setting_uuid(0xffff), settings_save_uuid());
}

#[test]
fn fixed_characteristics() {
    assert_eq!(live_data_uuid(), Uuid::parse_str(BULK_LIVE_DATA).unwrap().as_u128());
    assert_eq!(build_info_uuid(), Uuid::parse_str(BULK_BUILD_INFO).unwrap().as_u128());
    assert_eq!(settings_save_uuid(), Uuid::parse_str(SETTINGS_SAVE).unwrap().as_u128());
    assert_eq!(live_data_uuid(), 0x9eae1001_9d0d_48c5_aa55_33e27f9bc533);
    assert_eq!(BULK_DATA_SERVICE, "9eae1000-9d0d-48c5-aa55-33e27f9bc533");
    assert_eq!(SETTINGS_SERVICE, "f6d80000-5a10-4eba-aa55-33e27f9bc533");
}

#[test]
fn settings_are_told_apart() {
    for index in 0..300u16 {
        assert_ne!(setting_uuid(index), setting_uuid(index + 1));
    }
}
