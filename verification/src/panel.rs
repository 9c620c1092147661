//! What the panel of a connected iron says, ready to be laid out.

use crate::monitor::{DeviceModel, DeviceState, MonitorModel, PinemonitorView};
use crate::palette::{
    live_dot_color, live_dot_color_of, mode_colors, mode_colors_of, tip_color, tip_color_of,
};
use crate::palette::{
    C_BG, C_BLUE_BTN, C_LAYER1, C_ORANGE, C_RED, C_TEXT, C_TEXT2, C_YELLOW,
};
use crate::pinecil::LiveData;
use crate::single::{law_small_readings_are_exact, law_thresholds_survive_rounding};
use crate::single::{nearest_single, push_tenths, push_whole};
use crate::single::{single, tenths_text, whole_text, EXACT_LIMIT};
use crate::text::{decimal, duration_text};
use crate::text::{fmt_duration, owned, push_decimal};
use vstd::prelude::*;

verus! {

/// The setpoint and its buttons.
pub struct SetpointRow {
    pub value: String,
    pub down_id: String,
    pub up_id: String,
}

#[verifier::ext_equal]
pub struct SetpointRowModel {
    pub value: Seq<char>,
    pub down_id: Seq<char>,
    pub up_id: Seq<char>,
}

impl View for SetpointRow {
    type V = SetpointRowModel;

    open spec fn view(&self) -> SetpointRowModel {
        SetpointRowModel { value: self.value@, down_id: self.down_id@, up_id: self.up_id@ }
    }
}

/// How a setpoint is shown; the buttons are named after the iron.
pub open spec fn setpoint_row_of(setpoint: u16, id: Seq<char>) -> SetpointRowModel {
    SetpointRowModel {
        value: decimal(setpoint as nat),
        down_id: "sp-dn-"@ + id,
        up_id: "sp-up-"@ + id,
    }
}

/// Lays out a setpoint and its buttons.
pub fn setpoint_row(local_sp: u16, id_suffix: &str) -> (r: SetpointRow)
    ensures
        r@ == setpoint_row_of(local_sp, id_suffix@),
{
    let mut value = String::new();
    push_decimal(&mut value, local_sp as u128);
    assert(value@ =~= decimal(local_sp as nat));
    let mut down_id = owned("sp-dn-");
    down_id.append(id_suffix);
    let mut up_id = owned("sp-up-");
    up_id.append(id_suffix);
    SetpointRow { value, down_id, up_id }
}

/// A line of the table of readings.
pub struct StatRow {
    pub label: String,
    pub value: String,
    pub value_color: u32,
    pub background: u32,
}

#[verifier::ext_equal]
pub struct StatRowModel {
    pub label: Seq<char>,
    pub value: Seq<char>,
    pub value_color: u32,
    pub background: u32,
}

impl View for StatRow {
    type V = StatRowModel;

    open spec fn view(&self) -> StatRowModel {
        StatRowModel {
            label: self.label@,
            value: self.value@,
            value_color: self.value_color,
            background: self.background,
        }
    }
}

/// How a reading is shown; every other line has another background.
pub open spec fn stat_row_of(
    label: Seq<char>,
    value: Seq<char>,
    value_color: u32,
    alt: bool,
) -> StatRowModel {
    StatRowModel {
        label,
        value,
        value_color,
        background: if alt {
            C_LAYER1
        } else {
            C_BG
        },
    }
}

/// Lays out a reading.
pub fn stat_row(label: &str, value: String, value_color: u32, alt: bool) -> (r: StatRow)
    ensures
        r@ == stat_row_of(label@, value@, value_color, alt),
{
    StatRow {
        label: owned(label),
        value,
        value_color,
        background: if alt {
            C_LAYER1
        } else {
            C_BG
        },
    }
}

/// Whether the tip is well below a real setpoint while the heater is on. The temperatures are
/// compared in single precision.
pub open spec fn heating(live: LiveData) -> bool {
    &&& live.setpoint > 50
    &&& single(live.tip_temp as nat) < single((single(live.setpoint as nat) - 5) as nat)
    &&& live.power_pwm > 0
}

/// The colour of the heater duty: orange above 70 %.
pub open spec fn pwm_color_of(pwm: u32) -> u32 {
    if pwm > 70 {
        C_ORANGE
    } else {
        C_TEXT2
    }
}

/// The colour of the heater bar: orange above 60 %, red above 85 %.
pub open spec fn bar_color_of(pwm: u32) -> u32 {
    if pwm > 85 {
        C_RED
    } else if pwm > 60 {
        C_ORANGE
    } else {
        C_BLUE_BTN
    }
}

/// How much of the heater bar is filled, percent.
pub open spec fn bar_percent_of(pwm: u32) -> u32 {
    if pwm > 100 {
        100
    } else {
        pwm
    }
}

/// The colour of the idle time: yellow above one minute.
pub open spec fn idle_color_of(secs: u32) -> u32 {
    if secs > 60 {
        C_YELLOW
    } else {
        C_TEXT
    }
}

/// The table of readings.
pub open spec fn stats_of(live: LiveData) -> Seq<StatRowModel> {
    seq![
        stat_row_of("VOLTAGE"@, tenths_text(live.voltage as nat, 2) + " V"@, C_TEXT, false),
        stat_row_of("HANDLE TEMP"@, tenths_text(live.handle_temp as nat, 0) + " °C"@, C_TEXT, true),
        stat_row_of("SOURCE"@, live.power_source.label(), C_TEXT, false),
        stat_row_of(
            "TIP RESISTANCE"@,
            tenths_text(live.tip_resistance as nat, 1) + " Ω"@,
            C_TEXT,
            true,
        ),
        stat_row_of(
            "IDLE FOR"@,
            duration_text(live.last_move_secs as nat),
            idle_color_of(live.last_move_secs),
            false,
        ),
        stat_row_of("UPTIME"@, duration_text(live.uptime_secs as nat), C_TEXT, true),
    ]
}

/// The panel of an iron that has reported readings.
pub struct LivePanel {
    pub tip_color: u32,
    pub tip_temp: String,
    pub live_color: u32,
    pub mode_bg: u32,
    pub mode_fg: u32,
    pub mode_label: String,
    pub setpoint_label: String,
    pub setpoint: String,
    pub watts: String,
    pub pwm_text: String,
    pub pwm_color: u32,
    pub bar_percent: u32,
    pub bar_color: u32,
    pub stats: Vec<StatRow>,
    pub build: String,
    pub disconnect_id: String,
}

#[verifier::ext_equal]
pub struct LivePanelModel {
    pub tip_color: u32,
    pub tip_temp: Seq<char>,
    pub live_color: u32,
    pub mode_bg: u32,
    pub mode_fg: u32,
    pub mode_label: Seq<char>,
    pub setpoint_label: Seq<char>,
    pub setpoint: Seq<char>,
    pub watts: Seq<char>,
    pub pwm_text: Seq<char>,
    pub pwm_color: u32,
    pub bar_percent: u32,
    pub bar_color: u32,
    pub stats: Seq<StatRowModel>,
    pub build: Seq<char>,
    pub disconnect_id: Seq<char>,
}

impl View for LivePanel {
    type V = LivePanelModel;

    open spec fn view(&self) -> LivePanelModel {
        LivePanelModel {
            tip_color: self.tip_color,
            tip_temp: self.tip_temp@,
            live_color: self.live_color,
            mode_bg: self.mode_bg,
            mode_fg: self.mode_fg,
            mode_label: self.mode_label@,
            setpoint_label: self.setpoint_label@,
            setpoint: self.setpoint@,
            watts: self.watts@,
            pwm_text: self.pwm_text@,
            pwm_color: self.pwm_color,
            bar_percent: self.bar_percent,
            bar_color: self.bar_color,
            stats: self.stats@.map_values(|row: StatRow| row@),
            build: self.build@,
            disconnect_id: self.disconnect_id@,
        }
    }
}

/// The panel of an iron that has reported readings.
pub open spec fn live_panel_of(
    id: Seq<char>,
    live: LiveData,
    tick: u32,
    build_info: Option<Seq<char>>,
) -> LivePanelModel {
    LivePanelModel {
        tip_color: tip_color_of(live.tip_temp),
        tip_temp: whole_text(live.tip_temp as nat),
        live_color: live_dot_color_of(tick),
        mode_bg: mode_colors_of(live.operating_mode).0,
        mode_fg: mode_colors_of(live.operating_mode).1,
        mode_label: live.operating_mode.label(),
        setpoint_label: if heating(live) {
            "HEATING TO"@
        } else {
            "SETPOINT"@
        },
        setpoint: whole_text(live.setpoint as nat),
        watts: tenths_text(live.estimated_watts as nat, 1) + " W"@,
        pwm_text: decimal(live.power_pwm as nat) + "%"@,
        pwm_color: pwm_color_of(live.power_pwm),
        bar_percent: bar_percent_of(live.power_pwm),
        bar_color: bar_color_of(live.power_pwm),
        stats: stats_of(live),
        build: match build_info {
            Some(info) => info,
            None => "IronOS"@,
        },
        disconnect_id: "dc-"@ + id,
    }
}

/// The part of a panel that depends on whether readings have come.
pub enum PanelBody {
    /// No readings yet; how the disconnect button is named.
    Waiting(String),
    Live(LivePanel),
}

#[verifier::ext_equal]
pub enum PanelBodyModel {
    Waiting(Seq<char>),
    Live(LivePanelModel),
}

impl View for PanelBody {
    type V = PanelBodyModel;

    open spec fn view(&self) -> PanelBodyModel {
        match self {
            PanelBody::Waiting(disconnect_id) => PanelBodyModel::Waiting(disconnect_id@),
            PanelBody::Live(panel) => PanelBodyModel::Live(panel@),
        }
    }
}

/// The panel of a connected iron.
pub struct DevicePanel {
    pub name: String,
    pub setpoint: SetpointRow,
    pub body: PanelBody,
}

#[verifier::ext_equal]
pub struct DevicePanelModel {
    pub name: Seq<char>,
    pub setpoint: SetpointRowModel,
    pub body: PanelBodyModel,
}

impl View for DevicePanel {
    type V = DevicePanelModel;

    open spec fn view(&self) -> DevicePanelModel {
        DevicePanelModel { name: self.name@, setpoint: self.setpoint@, body: self.body@ }
    }
}

/// The panel of a connected iron.
pub open spec fn device_panel_of(id: Seq<char>, device: DeviceModel) -> DevicePanelModel {
    DevicePanelModel {
        name: device.name,
        setpoint: setpoint_row_of(device.local_setpoint, id),
        body: match device.data {
            Some(live) => PanelBodyModel::Live(
                live_panel_of(id, live, device.tick, device.build_info),
            ),
            None => PanelBodyModel::Waiting("dc-wait-"@ + id),
        },
    }
}

/// Whether the tip is well below a real setpoint while the heater is on.
pub fn is_heating(live: &LiveData) -> (r: bool)
    ensures
        r == heating(*live),
{
    if live.setpoint > 50 {
        proof {
            law_thresholds_survive_rounding(live.setpoint as nat, 50);
        }
        let target: u128 = nearest_single(live.setpoint as u64) - 5;
        live.power_pwm > 0 && nearest_single(live.tip_temp as u64) < nearest_single(target as u64)
    } else {
        false
    }
}

/// Readings below 2^24 °C are compared exactly: the iron is heating when the tip is more than
/// five degrees below the setpoint.
pub proof fn law_heating_is_exact_for_small_readings(live: LiveData)
    requires
        live.tip_temp < EXACT_LIMIT,
        live.setpoint < EXACT_LIMIT,
    ensures
        heating(live) <==> live.setpoint > 50 && live.tip_temp + 5 < live.setpoint
            && live.power_pwm > 0,
{
    law_small_readings_are_exact(live.tip_temp as nat);
    law_small_readings_are_exact(live.setpoint as nat);
    if live.setpoint > 50 {
        law_small_readings_are_exact((live.setpoint - 5) as nat);
    }
}

/// A text with a suffix.
fn with_unit(value: String, unit: &str) -> (r: String)
    ensures
        r@ == value@ + unit@,
{
    let mut r = value;
    r.append(unit);
    r
}

/// A whole reading as text.
fn whole(n: u32) -> (r: String)
    ensures
        r@ == whole_text(n as nat),
{
    let mut r = String::new();
    push_whole(&mut r, n);
    assert(r@ =~= whole_text(n as nat));
    r
}

/// A reading in tenths as text.
fn tenths(n: u32, places: u8) -> (r: String)
    requires
        places <= 2,
    ensures
        r@ == tenths_text(n as nat, places as nat),
{
    let mut r = String::new();
    push_tenths(&mut r, n, places);
    assert(r@ =~= tenths_text(n as nat, places as nat));
    r
}

/// Lays out the table of readings.
pub fn stat_rows(live: &LiveData) -> (r: Vec<StatRow>)
    ensures
        r@.map_values(|row: StatRow| row@) == stats_of(*live),
{
    let idle_color: u32 = if live.last_move_secs > 60 {
        C_YELLOW
    } else {
        C_TEXT
    };
    let mut rows: Vec<StatRow> = Vec::new();
    rows.push(stat_row("VOLTAGE", with_unit(tenths(live.voltage, 2), " V"), C_TEXT, false));
    rows.push(stat_row("HANDLE TEMP", with_unit(tenths(live.handle_temp, 0), " °C"), C_TEXT, true));
    rows.push(stat_row("SOURCE", live.power_source.to_string(), C_TEXT, false));
    rows.push(
        stat_row("TIP RESISTANCE", with_unit(tenths(live.tip_resistance, 1), " Ω"), C_TEXT, true),
    );
    rows.push(stat_row("IDLE FOR", fmt_duration(live.last_move_secs), idle_color, false));
    rows.push(stat_row("UPTIME", fmt_duration(live.uptime_secs), C_TEXT, true));
    assert(rows@.map_values(|row: StatRow| row@) =~= stats_of(*live));
    rows
}

/// Lays out the panel of an iron that has reported readings.
pub fn live_panel(id: &str, live: &LiveData, tick: u32, build_info: &Option<String>) -> (r:
    LivePanel)
    ensures
        r@ == live_panel_of(
            id@,
            *live,
            tick,
            match *build_info {
                Some(info) => Some(info@),
                None => None,
            },
        ),
{
    let (mode_bg, mode_fg) = mode_colors(&live.operating_mode);
    let pwm: u32 = live.power_pwm;
    let mut pwm_text = String::new();
    push_decimal(&mut pwm_text, pwm as u128);
    let bar_color: u32 = if pwm > 85 {
        C_RED
    } else if pwm > 60 {
        C_ORANGE
    } else {
        C_BLUE_BTN
    };
    let build = match build_info {
        Some(info) => info.clone(),
        None => owned("IronOS"),
    };
    LivePanel {
        tip_color: tip_color(live.tip_temp),
        tip_temp: whole(live.tip_temp),
        live_color: live_dot_color(tick),
        mode_bg,
        mode_fg,
        mode_label: live.operating_mode.to_string(),
        setpoint_label: if is_heating(live) {
            owned("HEATING TO")
        } else {
            owned("SETPOINT")
        },
        setpoint: whole(live.setpoint),
        watts: with_unit(tenths(live.estimated_watts, 1), " W"),
        pwm_text: with_unit(pwm_text, "%"),
        pwm_color: if pwm > 70 {
            C_ORANGE
        } else {
            C_TEXT2
        },
        bar_percent: if pwm > 100 {
            100
        } else {
            pwm
        },
        bar_color,
        stats: stat_rows(live),
        build,
        disconnect_id: with_unit(owned("dc-"), id),
    }
}

/// Lays out the panel of a connected iron.
pub fn device_panel(id: &str, dev: &DeviceState) -> (r: DevicePanel)
    ensures
        r@ == device_panel_of(id@, dev@),
{
    let body = match &dev.data {
        Some(live) => PanelBody::Live(live_panel(id, live, dev.tick, &dev.build_info)),
        None => PanelBody::Waiting(with_unit(owned("dc-wait-"), id)),
    };
    DevicePanel {
        name: dev.name.clone(),
        setpoint: setpoint_row(dev.local_setpoint, id),
        body,
    }
}

impl MonitorModel {
    /// The panel of an iron, if it is connected.
    pub open spec fn panel(self, id: Seq<char>) -> Option<DevicePanelModel> {
        if self.devices.dom().contains(id) {
            Some(device_panel_of(id, self.devices[id]))
        } else {
            None
        }
    }
}

impl PinemonitorView {
    /// The panel of an iron, if it is connected.
    pub fn render_device_panel(&self, id: &str) -> (r: Option<DevicePanel>)
        requires
            self.wf(),
        ensures
            match r {
                Some(panel) => {
                    &&& self@.devices.dom().contains(id@)
                    &&& panel@ == device_panel_of(id@, self@.devices[id@])
                },
                None => !self@.devices.dom().contains(id@),
            },
            match r {
                Some(panel) => self@.panel(id@) == Some(panel@),
                None => self@.panel(id@) is None,
            },
    {
        proof {
            self.lemma_parts();
        }
        match self.devices.get(&owned(id)) {
            Some(dev) => Some(device_panel(id, dev)),
            None => None,
        }
    }
}

} // verus!
