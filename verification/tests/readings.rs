use pinemonitor::panel::is_heating;
use pinemonitor::pinecil::{LiveData, OperatingMode, PowerSource};
use pinemonitor::single::{nearest_single, push_tenths, push_whole};
use pinemonitor::text::{fmt_duration, push_decimal, push_fixed_decimal, push_fixed_hex};

fn frame(words: [u32; 14]) -> Vec<u8> {
    let mut bytes = Vec::new();
    for w in words {
        bytes.extend_from_slice(&w.to_le_bytes());
    }
    bytes
}

fn sample() -> Vec<u8> {
    frame([
        320, 350, 204, 312, 42, 3, 65, 3723, 61, 450, 123456, 0xffff_fff6, 1, 253,
    ])
}

fn interesting() -> Vec<u32> {
    let mut all: Vec<u32> = (0..3000).collect();
    for shift in 0..32u32 {
        let base = 1u64 << shift;
        for offset in 0..40u64 {
            for v in [base + offset, base.wrapping_sub(offset), base + base / 2 + offset] {
                if v <= u32::MAX as u64 {
                    all.push(v as u32);
                }
            }
        }
    }
    let mut x: u32 = 12345;
    for _ in 0..20000 {
        x = x.wrapping_mul(1664525).wrapping_add(1013904223);
        all.push(x);
        all.push(x >> 8);
        all.push(x >> 16);
    }
    all
}

#[test]
fn frame_is_decoded() {
    let live = LiveData::from_bulk(&sample()).unwrap();
    assert_eq!(live.tip_temp, 320);
    assert_eq!(live.setpoint, 350);
    assert_eq!(live.voltage, 204);
    assert_eq!(live.handle_temp, 312);
    assert_eq!(live.power_pwm, 42);
    assert_eq!(live.power_source, PowerSource::USBPD);
    assert_eq!(live.tip_resistance, 65);
    assert_eq!(live.uptime_secs, 3723);
    assert_eq!(live.last_move_secs, 61);
    assert_eq!(live.max_temp, 450);
    assert_eq!(live.raw_tip, 123456);
    assert_eq!(live.hall_sensor, -10);
    assert_eq!(live.operating_mode, OperatingMode::Soldering);
    assert_eq!(live.estimated_watts, 253);
}

#[test]
fn short_frame_holds_no_readings() {
    let bytes = sample();
    assert!(LiveData::from_bulk(&[]).is_none());
    assert!(LiveData::from_bulk(&bytes[..55]).is_none());
    assert!(LiveData::from_bulk(&bytes[..56]).is_some());
}

#[test]
fn blank_frame_holds_no_readings() {
    let mut words = [7u32; 14];
    words[0] = 0;
    words[1] = 0;
    assert!(LiveData::from_bulk(&frame(words)).is_none());
    words[1] = 1;
    assert!(LiveData::from_bulk(&frame(words)).is_some());
    words[0] = 1;
    words[1] = 0;
    assert!(LiveData::from_bulk(&frame(words)).is_some());
}

#[test]
fn trailing_bytes_are_ignored() {
    let mut bytes = sample();
    bytes.extend_from_slice(&[1, 2, 3]);
    let a = LiveData::from_bulk(&bytes).unwrap();
    let b = LiveData::from_bulk(&sample()).unwrap();
    assert_eq!(format!("{:?}", a), format!("{:?}", b));
}

#[test]
fn hall_sensor_is_signed() {
    let mut words = [1u32; 14];
    words[11] = 0x7fff_ffff;
    assert_eq!(LiveData::from_bulk(&frame(words)).unwrap().hall_sensor, i32::MAX);
    words[11] = 0x8000_0000;
    assert_eq!(LiveData::from_bulk(&frame(words)).unwrap().hall_sensor, i32::MIN);
    words[11] = 0xffff_ffff;
    assert_eq!(LiveData::from_bulk(&frame(words)).unwrap().hall_sensor, -1);
}

#[test]
fn power_source_codes_and_names() {
    let names = ["DC", "QC", "PD PPS", "USB-PD", "?(4)"];
    for (code, name) in names.iter().enumerate() {
        assert_eq!(PowerSource::from(code as u32).to_string(), *name);
    }
    assert_eq!(PowerSource::from(4), PowerSource::Unknown(4));
    assert_eq!(PowerSource::from(u32::MAX).to_string(), "?(4294967295)");
}

#[test]
fn operating_mode_codes_and_names() {
    let names = ["IDLE", "SOLDERING", "BOOST", "SLEEPING", "STANDBY", "DEBUG", "?(6)"];
    for (code, name) in names.iter().enumerate() {
        assert_eq!(OperatingMode::from(code as u32).to_string(), *name);
    }
    assert_eq!(OperatingMode::from(6), OperatingMode::Unknown(6));
    assert_eq!(OperatingMode::from(1_000_000).to_string(), "?(1000000)");
}

#[test]
fn durations() {
    assert_eq!(fmt_duration(0), "0:00");
    assert_eq!(fmt_duration(59), "0:59");
    assert_eq!(fmt_duration(60), "1:00");
    assert_eq!(fmt_duration(3599), "59:59");
    assert_eq!(fmt_duration(3600), "1:00:00");
    assert_eq!(fmt_duration(3723), "1:02:03");
    assert_eq!(fmt_duration(u32::MAX), "1193046:28:15");
}

#[test]
fn digits() {
    for n in [0u128, 9, 10, 99, 100, 12345, u64::MAX as u128, u128::MAX] {
        let mut out = String::from("x");
        push_decimal(&mut out, n);
        assert_eq!(out, format!("x{}", n));
    }
    let mut out = String::new();
    push_fixed_decimal(&mut out, 7, 2);
    push_fixed_decimal(&mut out, 123, 2);
    assert_eq!(out, "0723");
    let mut out = String::new();
    push_fixed_hex(&mut out, 0xbeef, 4);
    push_fixed_hex(&mut out, 0xa, 4);
    assert_eq!(out, "beef000a");
}

#[test]
fn whole_readings_print_as_single_precision() {
    for n in interesting() {
        let mut out = String::new();
        push_whole(&mut out, n);
        assert_eq!(out, format!("{:.0}", n as f32), "{}", n);
        assert_eq!(nearest_single(n as u64) as f64, n as f32 as f64, "{}", n);
    }
    let mut out = String::new();
    push_whole(&mut out, 16_777_217);
    assert_eq!(out, "16777216");
}

#[test]
fn tenths_print_as_single_precision() {
    for n in interesting() {
        let value = n as f32 / 10.0;
        let mut out = String::new();
        push_tenths(&mut out, n, 0);
        assert_eq!(out, format!("{:.0}", value), "{}", n);
        let mut out = String::new();
        push_tenths(&mut out, n, 1);
        assert_eq!(out, format!("{:.1}", value), "{}", n);
        let mut out = String::new();
        push_tenths(&mut out, n, 2);
        assert_eq!(out, format!("{:.2}", value), "{}", n);
    }
    let mut out = String::new();
    push_tenths(&mut out, 204, 2);
    assert_eq!(out, "20.40");
}

#[test]
fn heating_compares_as_single_precision() {
    let mut live = LiveData::from_bulk(&sample()).unwrap();
    assert!(is_heating(&live));
    live.tip_temp = 345;
    assert!(!is_heating(&live));
    live.tip_temp = 344;
    assert!(is_heating(&live));
    live.power_pwm = 0;
    assert!(!is_heating(&live));
    live.power_pwm = 1;
    live.setpoint = 50;
    live.tip_temp = 0;
    assert!(!is_heating(&live));
    live.setpoint = 51;
    assert!(is_heating(&live));
    for setpoint in interesting().into_iter().step_by(7) {
        for below in [0u32, 1, 4, 5, 6, 7, 300] {
            live.setpoint = setpoint;
            live.tip_temp = setpoint.saturating_sub(below);
            let sp = live.setpoint as f32;
            let tip = live.tip_temp as f32;
            let expected = sp > 50.0 && tip < sp - 5.0;
            assert_eq!(is_heating(&live), expected, "{} {}", live.setpoint, live.tip_temp);
        }
    }
}
