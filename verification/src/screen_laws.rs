//! What the scanner and the dashboard say of the monitor's state.

use crate::ble::FoundModel;
use crate::monitor::MonitorModel;
use crate::screens::{pulse_color_of, scan_dots_of, scan_row_of, status_text};
use crate::text_laws::law_units_are_kept;
use crate::text_laws::reads_with;
use vstd::prelude::*;

verus! {

/// The scanner has one row for each iron in the scan list, in the order in which they were found,
/// with its id and its name.
pub proof fn law_every_iron_has_its_row(m: MonitorModel, i: int)
    requires
        0 <= i < m.scan_list.len(),
    ensures
        m.scan_view().rows.len() == m.scan_list.len(),
        m.scan_view().rows[i].id == m.scan_list[i].id,
        m.scan_view().rows[i].name == m.scan_list[i].name,
        m.scan_view().rows[i] == m.scan_row(m.scan_list[i]),
{
}

/// A row says how it stands with its own iron: a connected one says so in green; one that is being
/// connected blinks, three refreshes blue and three grey; any other invites to connect, unless two
/// irons are taken.
pub proof fn law_rows_say_how_it_stands(m: MonitorModel, i: int)
    requires
        0 <= i < m.scan_list.len(),
    ensures
        ({
            let row = m.scan_view().rows[i];
            let id = m.scan_list[i].id;
            let taken = m.devices.dom().len() + m.connecting.len();
            if m.devices.dom().contains(id) {
                &&& row.button_label == "● Connected"@
                &&& row.dot_color == 0x42be65
                &&& row.button_bg == 0x044317
                &&& row.button_fg == 0x42be65
                &&& row.button_border == 0x24a148
                &&& !row.can_connect
            } else if m.connecting.contains(id) {
                &&& row.button_label == "Connecting…"@
                &&& row.dot_color == 0x78a9ff <==> m.global_tick % 6 < 3
                &&& row.dot_color == 0x4c4c4c <==> m.global_tick % 6 >= 3
                &&& row.button_bg == 0x393939
                &&& row.button_fg == 0xffffff
                &&& row.button_border == 0x4c4c4c
                &&& !row.can_connect
            } else {
                &&& row.button_label == if taken < 2 {
                    "Connect →"@
                } else {
                    "Max reached"@
                }
                &&& row.dot_color == 0x6f6f6f
                &&& row.button_bg == 0x0f62fe
                &&& row.button_fg == 0xffffff
                &&& row.button_border == 0x4c4c4c
                &&& row.can_connect <==> taken < 2
            }
        }),
{
}

/// A row by itself: it bears the id and the name that it is given, and can be chosen exactly when
/// its iron is free and fewer than two are taken.
pub proof fn law_rows_bear_their_iron(
    dev: FoundModel,
    is_connected: bool,
    is_connecting: bool,
    total: nat,
    tick: u32,
)
    ensures
        ({
            let row = scan_row_of(dev, is_connected, is_connecting, total, tick);
            &&& row.id == dev.id && row.name == dev.name
            &&& row.can_connect <==> !is_connected && !is_connecting && total < 2
            &&& is_connected ==> row.button_label == "● Connected"@ && row.dot_color == 0x42be65
                && row.button_bg == 0x044317 && row.button_fg == 0x42be65 && row.button_border
                == 0x24a148
            &&& !is_connected ==> row.button_fg == 0xffffff && row.button_border == 0x4c4c4c
            &&& !is_connected && is_connecting ==> row.button_label == "Connecting…"@
                && row.button_bg == 0x393939 && row.dot_color == if tick % 6 < 3 {
                0x78a9ffu32
            } else {
                0x4c4c4cu32
            }
            &&& !is_connected && !is_connecting ==> row.dot_color == 0x6f6f6f && row.button_bg
                == 0x0f62fe && row.button_label == if total < 2 {
                "Connect →"@
            } else {
                "Max reached"@
            }
        }),
{
}

/// The scanner counts the irons that are connected or being connected, says what to do, and offers
/// the dashboard exactly when an iron is connected.
pub proof fn law_scanner_sums_up(m: MonitorModel)
    ensures
        reads_with(
            m.scan_view().footer,
            m.devices.dom().len() + m.connecting.len(),
            "/2 connected"@,
        ),
        m.scan_view().hint == if m.scan_list.len() == 0 {
            "Looking for nearby Pinecil devices"@
        } else {
            "Tap a device to connect  ·  max 2"@
        },
        m.scan_view().has_connected <==> exists|id: Seq<char>| #[trigger]
            m.devices.dom().contains(id),
        m.scan_view().pulse_color == pulse_color_of(m.global_tick),
        m.scan_view().dots == scan_dots_of(m.global_tick),
{
    law_units_are_kept(m.total(), "/2 connected"@);
    if m.devices.dom() != Set::<Seq<char>>::empty() {
        if forall|id: Seq<char>| !(#[trigger] m.devices.dom().contains(id)) {
            assert(m.devices.dom() =~= Set::<Seq<char>>::empty());
        }
    }
}

/// The pulse fades from green to grey in four steps of four refreshes, over and over.
pub proof fn law_pulse_fades(tick: u32)
    ensures
        pulse_color_of(tick) == 0x42be65 <==> tick % 16 / 4 == 0,
        pulse_color_of(tick) == 0x24a148 <==> tick % 16 / 4 == 1,
        pulse_color_of(tick) == 0x198038 <==> tick % 16 / 4 == 2,
        pulse_color_of(tick) == 0x393939 <==> tick % 16 / 4 == 3,
{
}

/// Behind the word that says that a scan runs stand dots and nothing else.
pub proof fn law_dots_grow(tick: u32, i: int)
    requires
        0 <= i < scan_dots_of(tick).len(),
    ensures
        scan_dots_of(tick)[i] == '.',
{
}

/// How many dots there are: as many as whole threes of refreshes since the last twelve.
pub proof fn law_dots_are_counted(tick: u32)
    ensures
        3 * scan_dots_of(tick).len() <= tick % 12 < 3 * scan_dots_of(tick).len() + 3,
{
}

/// The status line counts the connected irons, in the singular for one.
pub proof fn law_status_counts_irons(count: nat)
    ensures
        count == 1 ==> reads_with(status_text(count), count, " device connected"@),
        count != 1 ==> reads_with(status_text(count), count, " devices connected"@),
{
    law_units_are_kept(count, " device connected"@);
    law_units_are_kept(count, " devices connected"@);
}

/// The dashboard bears the name of the only iron; else it counts the irons.
pub proof fn law_dashboard_is_titled(m: MonitorModel, ids: Seq<Seq<char>>)
    ensures
        ids.len() == 1 ==> m.dashboard_title(ids) == m.devices[ids[0]].name,
        ids.len() != 1 ==> reads_with(m.dashboard_title(ids), ids.len(), " devices"@),
{
    law_units_are_kept(ids.len(), " devices"@);
}

/// The error screen shows the error, if there is one.
pub proof fn law_error_text_is_the_error(m: MonitorModel)
    ensures
        m.error matches Some(msg) ==> m.error_text() == msg,
        m.error is None ==> m.error_text().len() == 0,
{
}

} // verus!
