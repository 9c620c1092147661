//! What the scanner, the dashboard and the error screen say, ready to be laid out.

use crate::ble::FoundModel;
use crate::monitor::{MonitorModel, PinemonitorView, MAX_DEVICES};
use crate::palette::{
    C_BLUE, C_BLUE_BTN, C_GREEN, C_GREEN_BG, C_GREEN_DARK, C_GREEN_DIM, C_LAYER2, C_LAYER3, C_TEXT3,
    C_WHITE,
};
use crate::text::{decimal, strings_view};
use crate::text::{owned, push_decimal};
use vstd::prelude::*;

verus! {

/// The colour of the scan pulse: four steps of four refreshes each.
pub open spec fn pulse_color_of(tick: u32) -> u32 {
    let phase = tick % 16;
    if phase < 4 {
        C_GREEN
    } else if phase < 8 {
        C_GREEN_DARK
    } else if phase < 12 {
        C_GREEN_DIM
    } else {
        C_LAYER2
    }
}

/// The colour of the scan pulse after `tick` refreshes.
pub fn pulse_color(tick: u32) -> (r: u32)
    ensures
        r == pulse_color_of(tick),
{
    let phase: u32 = tick % 16;
    if phase < 4 {
        C_GREEN
    } else if phase < 8 {
        C_GREEN_DARK
    } else if phase < 12 {
        C_GREEN_DIM
    } else {
        C_LAYER2
    }
}

/// The dots behind the word that says that a scan runs: none to three, a new one every three
/// refreshes.
pub open spec fn scan_dots_of(tick: u32) -> Seq<char> {
    Seq::new((tick / 3 % 4) as nat, |i: int| '.')
}

/// The dots behind the word that says that a scan runs.
pub fn scan_dots(tick: u32) -> (r: String)
    ensures
        r@ == scan_dots_of(tick),
{
    proof {
        reveal_strlit("");
        reveal_strlit(".");
        reveal_strlit("..");
        reveal_strlit("...");
    }
    match tick / 3 % 4 {
        0 => owned(""),
        1 => owned("."),
        2 => owned(".."),
        _ => owned("..."),
    }
}

/// An iron in the scan list.
pub struct ScanRow {
    pub id: String,
    pub name: String,
    pub dot_color: u32,
    pub button_bg: u32,
    pub button_fg: u32,
    pub button_border: u32,
    pub button_label: String,
    /// Whether choosing the iron connects it.
    pub can_connect: bool,
}

#[verifier::ext_equal]
pub struct ScanRowModel {
    pub id: Seq<char>,
    pub name: Seq<char>,
    pub dot_color: u32,
    pub button_bg: u32,
    pub button_fg: u32,
    pub button_border: u32,
    pub button_label: Seq<char>,
    pub can_connect: bool,
}

impl View for ScanRow {
    type V = ScanRowModel;

    open spec fn view(&self) -> ScanRowModel {
        ScanRowModel {
            id: self.id@,
            name: self.name@,
            dot_color: self.dot_color,
            button_bg: self.button_bg,
            button_fg: self.button_fg,
            button_border: self.button_border,
            button_label: self.button_label@,
            can_connect: self.can_connect,
        }
    }
}

/// The scanner.
pub struct ScanView {
    pub pulse_color: u32,
    pub dots: String,
    pub hint: String,
    /// Whether there is a dashboard to go back to.
    pub has_connected: bool,
    pub rows: Vec<ScanRow>,
    pub footer: String,
}

#[verifier::ext_equal]
pub struct ScanViewModel {
    pub pulse_color: u32,
    pub dots: Seq<char>,
    pub hint: Seq<char>,
    pub has_connected: bool,
    pub rows: Seq<ScanRowModel>,
    pub footer: Seq<char>,
}

impl View for ScanView {
    type V = ScanViewModel;

    open spec fn view(&self) -> ScanViewModel {
        ScanViewModel {
            pulse_color: self.pulse_color,
            dots: self.dots@,
            hint: self.hint@,
            has_connected: self.has_connected,
            rows: self.rows@.map_values(|row: ScanRow| row@),
            footer: self.footer@,
        }
    }
}

/// How an iron in the scan list is shown, given whether it is connected or being connected, how
/// many irons are, and the count of refreshes.
pub open spec fn scan_row_of(
    dev: FoundModel,
    is_connected: bool,
    is_connecting: bool,
    total: nat,
    tick: u32,
) -> ScanRowModel {
    ScanRowModel {
        id: dev.id,
        name: dev.name,
        dot_color: if is_connected {
            C_GREEN
        } else if is_connecting {
            if tick / 3 % 2 == 0 {
                C_BLUE
            } else {
                C_LAYER3
            }
        } else {
            C_TEXT3
        },
        button_bg: if is_connected {
            C_GREEN_BG
        } else if is_connecting {
            C_LAYER2
        } else {
            C_BLUE_BTN
        },
        button_fg: if is_connected {
            C_GREEN
        } else {
            C_WHITE
        },
        button_border: if is_connected {
            C_GREEN_DARK
        } else {
            C_LAYER3
        },
        button_label: if is_connected {
            "● Connected"@
        } else if is_connecting {
            "Connecting…"@
        } else if total >= MAX_DEVICES {
            "Max reached"@
        } else {
            "Connect →"@
        },
        can_connect: !is_connected && !is_connecting && total < MAX_DEVICES,
    }
}

impl MonitorModel {
    /// How an iron in the scan list is shown.
    pub open spec fn scan_row(self, dev: FoundModel) -> ScanRowModel {
        scan_row_of(
            dev,
            self.devices.dom().contains(dev.id),
            self.connecting.contains(dev.id),
            self.total(),
            self.global_tick,
        )
    }

    /// The scanner.
    pub open spec fn scan_view(self) -> ScanViewModel {
        ScanViewModel {
            pulse_color: pulse_color_of(self.global_tick),
            dots: scan_dots_of(self.global_tick),
            hint: if self.scan_list.len() == 0 {
                "Looking for nearby Pinecil devices"@
            } else {
                "Tap a device to connect  ·  max 2"@
            },
            has_connected: self.devices.dom() != Set::<Seq<char>>::empty(),
            rows: self.scan_list.map_values(|dev: FoundModel| self.scan_row(dev)),
            footer: decimal(self.total()) + "/2 connected"@,
        }
    }

    /// The title of the dashboard when these irons are connected: the name of the only one, or how
    /// many there are.
    pub open spec fn dashboard_title(self, ids: Seq<Seq<char>>) -> Seq<char> {
        if ids.len() == 1 {
            self.devices[ids[0]].name
        } else {
            decimal(ids.len()) + " devices"@
        }
    }

    /// The message of the error screen.
    pub open spec fn error_text(self) -> Seq<char> {
        match self.error {
            Some(msg) => msg,
            None => Seq::empty(),
        }
    }
}

/// The button of an iron invites to connect exactly when choosing the iron connects it.
pub proof fn law_connect_button_is_honest(m: MonitorModel, dev: FoundModel)
    ensures
        m.scan_row(dev).can_connect == m.can_connect(dev.id),
        m.scan_row(dev).button_label == "Connect →"@ <==> m.can_connect(dev.id),
{
    reveal_strlit("● Connected");
    reveal_strlit("Connecting…");
    reveal_strlit("Max reached");
    reveal_strlit("Connect →");
    let label = m.scan_row(dev).button_label;
    if label == "Connect →"@ {
        assert(label[7] == ' ');
    }
}

/// Lays out an iron in the scan list.
pub fn scan_row(
    id: String,
    name: String,
    is_connected: bool,
    is_connecting: bool,
    total: u128,
    tick: u32,
) -> (r: ScanRow)
    ensures
        r@ == scan_row_of(
            (FoundModel { name: name@, id: id@ }),
            is_connected,
            is_connecting,
            total as nat,
            tick,
        ),
{
    let dot_color: u32 = if is_connected {
        C_GREEN
    } else if is_connecting {
        if tick / 3 % 2 == 0 {
            C_BLUE
        } else {
            C_LAYER3
        }
    } else {
        C_TEXT3
    };
    let button_bg: u32 = if is_connected {
        C_GREEN_BG
    } else if is_connecting {
        C_LAYER2
    } else {
        C_BLUE_BTN
    };
    let button_label = if is_connected {
        owned("● Connected")
    } else if is_connecting {
        owned("Connecting…")
    } else if total >= MAX_DEVICES {
        owned("Max reached")
    } else {
        owned("Connect →")
    };
    ScanRow {
        id,
        name,
        dot_color,
        button_bg,
        button_fg: if is_connected {
            C_GREEN
        } else {
            C_WHITE
        },
        button_border: if is_connected {
            C_GREEN_DARK
        } else {
            C_LAYER3
        },
        button_label,
        can_connect: !is_connected && !is_connecting && total < MAX_DEVICES,
    }
}

/// The dashboard.
pub struct DashboardView {
    /// The name of the only iron, or how many there are.
    pub subtitle: String,
    pub status: String,
    /// The connected irons.
    pub device_ids: Vec<String>,
}

/// The status line of the dashboard.
pub open spec fn status_text(count: nat) -> Seq<char> {
    decimal(count) + if count == 1 {
        " device connected"@
    } else {
        " devices connected"@
    }
}

impl PinemonitorView {
    /// The number of irons that are connected or being connected.
    fn total(&self) -> (r: u128)
        requires
            self.wf(),
        ensures
            r == self@.total(),
    {
        proof {
            self.lemma_counts();
        }
        self.devices.len() as u128 + self.connecting.len() as u128
    }

    /// The scanner.
    pub fn view_scan(&self) -> (r: ScanView)
        requires
            self.wf(),
        ensures
            r@ == self@.scan_view(),
    {
        let ghost m = self@;
        proof {
            self.lemma_parts();
        }
        let total: u128 = self.total();
        let tick: u32 = self.global_tick;
        let mut rows: Vec<ScanRow> = Vec::new();
        let mut i: usize = 0;
        while i < self.scan_list.len()
            invariant
                self.wf(),
                m == self@,
                total == m.total(),
                tick == m.global_tick,
                i <= self.scan_list@.len(),
                rows@.len() == i,
                m.scan_list.len() == self.scan_list@.len(),
                forall|j: int| 0 <= j < i ==> (#[trigger] rows@[j])@ == m.scan_row(m.scan_list[j]),
            decreases self.scan_list@.len() - i,
        {
            proof {
                self.lemma_parts();
                assert(m.scan_list[i as int] == self.scan_list@[i as int]@);
            }
            let id = self.scan_list[i].id.clone();
            let name = self.scan_list[i].name.clone();
            let is_connected = self.devices.contains(&id);
            let is_connecting = self.connecting.contains(&id);
            rows.push(scan_row(id, name, is_connected, is_connecting, total, tick));
            i += 1;
        }
        let hint = if self.scan_list.len() == 0 {
            owned("Looking for nearby Pinecil devices")
        } else {
            owned("Tap a device to connect  ·  max 2")
        };
        let mut footer = String::new();
        push_decimal(&mut footer, total);
        footer.append("/2 connected");
        proof {
            self.lemma_counts();
        }
        let r = ScanView {
            pulse_color: pulse_color(tick),
            dots: scan_dots(tick),
            hint,
            has_connected: self.devices.len() != 0,
            rows,
            footer,
        };
        assert(r@.rows =~= m.scan_view().rows);
        r
    }

    /// The dashboard.
    pub fn view_dashboard(&self) -> (r: DashboardView)
        requires
            self.wf(),
        ensures
            strings_view(r.device_ids@).no_duplicates(),
            strings_view(r.device_ids@).to_set() == self@.devices.dom(),
            r.device_ids@.len() == self@.devices.dom().len(),
            r.status@ == status_text(self@.devices.dom().len()),
            r.subtitle@ == if r.device_ids@.len() == 1 {
                self@.devices[r.device_ids@[0]@].name
            } else {
                decimal(r.device_ids@.len()) + " devices"@
            },
            r.subtitle@ == self@.dashboard_title(strings_view(r.device_ids@)),
    {
        proof {
            self.lemma_counts();
            self.lemma_parts();
        }
        let count: usize = self.devices.len();
        let mut device_ids: Vec<String> = Vec::new();
        let mut i: usize = 0;
        while i < count
            invariant
                i <= count,
                count == self.devices.ids().len(),
                device_ids@.len() == i,
                forall|j: int| 0 <= j < i ==> (#[trigger] device_ids@[j])@ == self.devices.ids()[j],
            decreases count - i,
        {
            device_ids.push(self.devices.id_at(i).clone());
            i += 1;
        }
        assert(strings_view(device_ids@) =~= self.devices.ids());
        let subtitle = if count == 1 {
            self.devices.value_at(0).name.clone()
        } else {
            let mut text = String::new();
            push_decimal(&mut text, count as u128);
            text.append(" devices");
            text
        };
        let mut status = String::new();
        push_decimal(&mut status, count as u128);
        if count == 1 {
            status.append(" device connected");
        } else {
            status.append(" devices connected");
        }
        proof {
            if count == 1 {
                assert(self.devices.ids().contains(self.devices.ids()[0]));
            }
        }
        DashboardView { subtitle, status, device_ids }
    }

    /// The message of the error screen.
    pub fn view_error(&self) -> (r: String)
        ensures
            r@ == self@.error_text(),
    {
        proof {
            self.lemma_parts();
        }
        match &self.error {
            Some(msg) => msg.clone(),
            None => String::new(),
        }
    }
}

} // verus!
