//! What the panel of an iron says of its readings.

use crate::monitor::{DeviceModel, MonitorModel};
use crate::palette::{live_dot_color_of, mode_colors_of, tip_color_of};
use crate::panel::{
    device_panel_of, heating, setpoint_row_of, stat_row_of, stats_of, LivePanelModel,
    PanelBodyModel,
};
use crate::pinecil::LiveData;
use crate::single::law_small_readings_are_exact;
use crate::single::{single, tenths_text};
use crate::single_laws::law_whole_readings_read_back;
use crate::single_laws::{distance, law_tenths_are_shown_exactly, law_tenths_are_shown_rounded};
use crate::text::{decimal, duration_text};
use crate::text_laws::{law_decimal_reads_back, law_units_are_kept};
use crate::text_laws::{reads, reads_point, reads_with};
use vstd::prelude::*;

verus! {

/// The panel of an iron that has reported readings.
pub open spec fn panel_of(id: Seq<char>, device: DeviceModel) -> LivePanelModel {
    device_panel_of(id, device).body->Live_0
}

/// A panel is about its iron: it bears its name, shows the setpoint that the user has chosen, and
/// its buttons are named after its id. It waits until a reading has come.
pub proof fn law_panel_is_about_its_iron(id: Seq<char>, device: DeviceModel)
    ensures
        ({
            let panel = device_panel_of(id, device);
            &&& panel.name == device.name
            &&& reads(panel.setpoint.value, device.local_setpoint as nat)
            &&& panel.setpoint.down_id == "sp-dn-"@ + id
            &&& panel.setpoint.up_id == "sp-up-"@ + id
            &&& panel.body is Waiting <==> device.data is None
            &&& panel.body matches PanelBodyModel::Waiting(button) ==> button == "dc-wait-"@ + id
            &&& panel.body matches PanelBodyModel::Live(live) ==> live.disconnect_id == "dc-"@ + id
        }),
{
    law_decimal_reads_back(device.local_setpoint as nat);
}

/// There is a panel exactly for each connected iron. It bears that iron's name, and its readings
/// are those of that iron, whatever is known of the others.
pub proof fn law_panel_is_found_by_id(m: MonitorModel, other: MonitorModel, id: Seq<char>)
    ensures
        m.panel(id) is Some <==> m.devices.dom().contains(id),
        m.panel(id) is Some ==> m.panel(id)->0.name == m.devices[id].name && m.panel(id)->0
            == device_panel_of(id, m.devices[id]),
        m.devices.dom().contains(id) && other.devices.dom().contains(id) && m.devices[id]
            == other.devices[id] ==> m.panel(id) == other.panel(id),
{
}

/// A setpoint and its buttons, by themselves: the number that the user has chosen, and the id
/// behind the names of the buttons.
pub proof fn law_setpoint_row_reads_back(setpoint: u16, id: Seq<char>)
    ensures
        reads(setpoint_row_of(setpoint, id).value, setpoint as nat),
        setpoint_row_of(setpoint, id).down_id == "sp-dn-"@ + id,
        setpoint_row_of(setpoint, id).up_id == "sp-up-"@ + id,
{
    law_decimal_reads_back(setpoint as nat);
}

/// The temperatures on the panel are those of the reading: the tip temperature and the setpoint,
/// each read from its own field, exactly below 2^24 °C and to single precision above.
pub proof fn law_panel_shows_the_temperatures(id: Seq<char>, device: DeviceModel)
    requires
        device.data is Some,
    ensures
        ({
            let live = device.data->0;
            let panel = panel_of(id, device);
            &&& reads(panel.tip_temp, single(live.tip_temp as nat))
            &&& live.tip_temp < 0x100_0000 ==> reads(panel.tip_temp, live.tip_temp as nat)
            &&& reads(panel.setpoint, single(live.setpoint as nat))
            &&& live.setpoint < 0x100_0000 ==> reads(panel.setpoint, live.setpoint as nat)
            &&& panel.tip_color == tip_color_of(live.tip_temp)
        }),
{
    law_whole_readings_read_back(device.data->0.tip_temp as nat);
    law_whole_readings_read_back(device.data->0.setpoint as nat);
}

/// The tip's colour on the panel follows the reading's own tip temperature.
pub proof fn law_panel_colours_the_tip(id: Seq<char>, device: DeviceModel)
    requires
        device.data is Some,
    ensures
        ({
            let t = device.data->0.tip_temp;
            let colour = panel_of(id, device).tip_color;
            &&& colour == 0xc6c6c6 <==> t < 100
            &&& colour == 0x78a9ff <==> 100 <= t < 200
            &&& colour == 0xf1c21b <==> 200 <= t < 300
            &&& colour == 0xff832b <==> 300 <= t < 400
            &&& colour == 0xda1e28 <==> 400 <= t
        }),
{
}

/// The dot and the badge on the panel: the dot follows the count of readings, the badge names the
/// operating mode in its colours.
pub proof fn law_panel_shows_the_mode(id: Seq<char>, device: DeviceModel)
    requires
        device.data is Some,
    ensures
        ({
            let mode = device.data->0.operating_mode;
            let panel = panel_of(id, device);
            &&& panel.mode_label == mode.label()
            &&& (panel.mode_bg, panel.mode_fg) == mode_colors_of(mode)
            &&& panel.live_color == live_dot_color_of(device.tick)
        }),
{
}

/// An iron heats when it has a setpoint above 50 °C, its heater is on, and its tip is more than
/// five degrees below the setpoint, as far as single precision tells.
pub proof fn law_heating_is_recognised(live: LiveData)
    ensures
        live.setpoint <= 50 || live.power_pwm == 0 ==> !heating(live),
        live.setpoint > 50 && live.power_pwm > 0 ==> (heating(live) <==> single(
            live.tip_temp as nat,
        ) < single((single(live.setpoint as nat) - 5) as nat)),
        live.setpoint > 50 && live.power_pwm > 0 && live.setpoint < 0x100_0000 && live.tip_temp
            < 0x100_0000 ==> (heating(live) <==> live.tip_temp + 5 < live.setpoint),
{
    if live.setpoint < 0x100_0000 && live.tip_temp < 0x100_0000 {
        law_small_readings_are_exact(live.tip_temp as nat);
        law_small_readings_are_exact(live.setpoint as nat);
        if live.setpoint > 50 {
            law_small_readings_are_exact((live.setpoint - 5) as nat);
        }
    }
}

/// The words above the setpoint say that the iron heats exactly when it does.
pub proof fn law_panel_says_whether_it_heats(id: Seq<char>, device: DeviceModel)
    requires
        device.data is Some,
    ensures
        ({
            let live = device.data->0;
            let said = panel_of(id, device).setpoint_label;
            &&& said == if heating(live) {
                "HEATING TO"@
            } else {
                "SETPOINT"@
            }
            &&& live.tip_temp < 0x100_0000 && live.setpoint < 0x100_0000 ==> (said
                == "HEATING TO"@ <==> live.setpoint > 50 && live.power_pwm > 0 && live.tip_temp + 5
                < live.setpoint)
        }),
{
    reveal_strlit("HEATING TO");
    reveal_strlit("SETPOINT");
    law_heating_is_recognised(device.data->0);
    assert("HEATING TO"@.len() != "SETPOINT"@.len());
}

/// Whether a text reads a number with decimals, and then says `unit`.
pub open spec fn reads_point_with(
    text: Seq<char>,
    scaled: nat,
    places: nat,
    unit: Seq<char>,
) -> bool {
    &&& text.len() > unit.len()
    &&& text.skip(text.len() - unit.len()) == unit
    &&& reads_point(text.take(text.len() - unit.len()), scaled, places)
}

proof fn lemma_point_with(n: nat, places: nat, unit: Seq<char>)
    requires
        n < 1310720,
        places == 1 || places == 2,
    ensures
        reads_point_with(
            tenths_text(n, places) + unit,
            if places == 1 {
                n
            } else {
                10 * n
            },
            places,
            unit,
        ),
{
    law_tenths_are_shown_exactly(n);
    let text = tenths_text(n, places) + unit;
    assert(text.skip(text.len() - unit.len()) =~= unit);
    assert(text.take(text.len() - unit.len()) =~= tenths_text(n, places));
}

/// The power on the panel: the watts of the reading to one decimal, and the heater's duty in
/// percent.
pub proof fn law_panel_shows_the_power(id: Seq<char>, device: DeviceModel)
    requires
        device.data is Some,
    ensures
        ({
            let live = device.data->0;
            let panel = panel_of(id, device);
            &&& panel.watts == tenths_text(live.estimated_watts as nat, 1) + " W"@
            &&& live.estimated_watts < 1310720 ==> reads_point_with(
                panel.watts,
                live.estimated_watts as nat,
                1,
                " W"@,
            )
            &&& reads_with(panel.pwm_text, live.power_pwm as nat, "%"@)
        }),
{
    let live = device.data->0;
    if live.estimated_watts < 1310720 {
        lemma_point_with(live.estimated_watts as nat, 1, " W"@);
    }
    law_units_are_kept(live.power_pwm as nat, "%"@);
}

/// The heater bar: filled by the duty, and at most wholly; orange above 60 %, red above 85 %. The
/// duty itself turns orange above 70 %.
pub proof fn law_panel_draws_the_heater(id: Seq<char>, device: DeviceModel)
    requires
        device.data is Some,
    ensures
        ({
            let pwm = device.data->0.power_pwm;
            let panel = panel_of(id, device);
            &&& pwm <= 100 ==> panel.bar_percent == pwm
            &&& pwm > 100 ==> panel.bar_percent == 100
            &&& panel.bar_color == 0xda1e28 <==> pwm > 85
            &&& panel.bar_color == 0xff832b <==> 60 < pwm <= 85
            &&& panel.bar_color == 0x0f62fe <==> pwm <= 60
            &&& panel.pwm_color == 0xff832b <==> pwm > 70
            &&& panel.pwm_color == 0xc6c6c6 <==> pwm <= 70
        }),
{
}

/// The firmware on the panel: the build text that the iron has sent, or `IronOS`.
pub proof fn law_panel_names_the_firmware(id: Seq<char>, device: DeviceModel)
    requires
        device.data is Some,
    ensures
        match device.build_info {
            Some(text) => panel_of(id, device).build == text,
            None => panel_of(id, device).build == seq!['I', 'r', 'o', 'n', 'O', 'S'],
        },
{
    reveal_strlit("IronOS");
    assert("IronOS"@ =~= seq!['I', 'r', 'o', 'n', 'O', 'S']);
}

/// The table of readings has six lines, one for each reading, in this order: voltage, handle
/// temperature, power source, tip resistance, time since the iron last moved, and uptime. Each
/// is read from its own field.
pub proof fn law_table_shows_the_readings(live: LiveData)
    ensures
        ({
            let rows = stats_of(live);
            &&& rows.len() == 6
            &&& rows[0].label == "VOLTAGE"@
            &&& rows[0].value == tenths_text(live.voltage as nat, 2) + " V"@
            &&& live.voltage < 1310720 ==> reads_point_with(
                rows[0].value,
                10 * live.voltage as nat,
                2,
                " V"@,
            )
            &&& rows[1].label == "HANDLE TEMP"@
            &&& rows[1].value == tenths_text(live.handle_temp as nat, 0) + " °C"@
            &&& live.handle_temp < 1310720 ==> exists|x: nat| #[trigger]
                reads_with(rows[1].value, x, " °C"@) && distance(10 * x, live.handle_temp as nat)
                    <= 5 && (live.handle_temp % 10 == 5 ==> x % 2 == 0)
            &&& rows[2].label == "SOURCE"@
            &&& rows[2].value == live.power_source.label()
            &&& rows[3].label == "TIP RESISTANCE"@
            &&& rows[3].value == tenths_text(live.tip_resistance as nat, 1) + " Ω"@
            &&& live.tip_resistance < 1310720 ==> reads_point_with(
                rows[3].value,
                live.tip_resistance as nat,
                1,
                " Ω"@,
            )
            &&& rows[4].label == "IDLE FOR"@
            &&& rows[4].value == duration_text(live.last_move_secs as nat)
            &&& rows[5].label == "UPTIME"@
            &&& rows[5].value == duration_text(live.uptime_secs as nat)
        }),
{
    if live.voltage < 1310720 {
        lemma_point_with(live.voltage as nat, 2, " V"@);
    }
    if live.tip_resistance < 1310720 {
        lemma_point_with(live.tip_resistance as nat, 1, " Ω"@);
    }
    if live.handle_temp < 1310720 {
        let n = live.handle_temp as nat;
        law_tenths_are_shown_rounded(n);
        let x = choose|x: nat| #[trigger]
            reads(tenths_text(n, 0), x) && distance(10 * x, n) <= 5 && (n % 10 == 5 ==> x % 2 == 0);
        let text = tenths_text(n, 0) + " °C"@;
        assert(text.skip(text.len() - " °C"@.len()) =~= " °C"@);
        assert(text.take(text.len() - " °C"@.len()) =~= tenths_text(n, 0));
        assert(stats_of(live)[1].value == text);
        assert(reads_with(stats_of(live)[1].value, x, " °C"@));
    }
}

/// The lines of the table alternate between two backgrounds; their values are in the colour of
/// text, but for the idle time, which is yellow above one minute.
pub proof fn law_table_is_striped(live: LiveData, i: int)
    requires
        0 <= i < 6,
    ensures
        ({
            let row = stats_of(live)[i];
            &&& row.background == 0x161616 <==> i % 2 == 0
            &&& row.background == 0x262626 <==> i % 2 == 1
            &&& row.value_color == 0xf1c21b <==> i == 4 && live.last_move_secs > 60
            &&& row.value_color == 0xf4f4f4 <==> !(i == 4 && live.last_move_secs > 60)
        }),
{
}

/// A line of the table says what it is given, on one of two backgrounds.
pub proof fn law_lines_say_what_they_are_given(
    label: Seq<char>,
    value: Seq<char>,
    colour: u32,
    alt: bool,
)
    ensures
        ({
            let row = stat_row_of(label, value, colour, alt);
            &&& row.label == label && row.value == value && row.value_color == colour
            &&& row.background == 0x262626 <==> alt
            &&& row.background == 0x161616 <==> !alt
        }),
{
}

/// The table on the panel is the table of the reading.
pub proof fn law_panel_holds_the_table(id: Seq<char>, device: DeviceModel)
    requires
        device.data is Some,
    ensures
        panel_of(id, device).stats == stats_of(device.data->0),
{
}

/// Each part of a panel depends on its own reading alone: two irons, whatever else is known of
/// them, show the same tip temperature where they report the same, and so on.
pub proof fn law_panel_parts_are_independent(
    a_id: Seq<char>,
    a: DeviceModel,
    b_id: Seq<char>,
    b: DeviceModel,
)
    requires
        a.data is Some,
        b.data is Some,
    ensures
        ({
            let x = a.data->0;
            let y = b.data->0;
            let p = panel_of(a_id, a);
            let q = panel_of(b_id, b);
            &&& x.tip_temp == y.tip_temp ==> p.tip_temp == q.tip_temp && p.tip_color == q.tip_color
            &&& x.setpoint == y.setpoint ==> p.setpoint == q.setpoint
            &&& x.operating_mode == y.operating_mode ==> p.mode_label == q.mode_label && p.mode_bg
                == q.mode_bg && p.mode_fg == q.mode_fg
            &&& x.estimated_watts == y.estimated_watts ==> p.watts == q.watts
            &&& x.power_pwm == y.power_pwm ==> p.pwm_text == q.pwm_text && p.pwm_color
                == q.pwm_color && p.bar_percent == q.bar_percent && p.bar_color == q.bar_color
            &&& x.voltage == y.voltage ==> p.stats[0] == q.stats[0]
            &&& x.handle_temp == y.handle_temp ==> p.stats[1] == q.stats[1]
            &&& x.power_source == y.power_source ==> p.stats[2] == q.stats[2]
            &&& x.tip_resistance == y.tip_resistance ==> p.stats[3] == q.stats[3]
            &&& x.last_move_secs == y.last_move_secs ==> p.stats[4] == q.stats[4]
            &&& x.uptime_secs == y.uptime_secs ==> p.stats[5] == q.stats[5]
            &&& a.tick == b.tick ==> p.live_color == q.live_color
            &&& a.build_info == b.build_info ==> p.build == q.build
        }),
{
}

} // verus!
