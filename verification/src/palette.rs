//! Colours (`0xRRGGBB`, IBM Carbon Gray 100) and what they stand for.

use crate::pinecil::OperatingMode;
use vstd::prelude::*;

verus! {

pub const C_BG: u32 = 0x161616;

pub const C_LAYER1: u32 = 0x262626;

pub const C_LAYER2: u32 = 0x393939;

pub const C_LAYER3: u32 = 0x4c4c4c;

pub const C_TEXT: u32 = 0xf4f4f4;

pub const C_TEXT2: u32 = 0xc6c6c6;

pub const C_TEXT3: u32 = 0x6f6f6f;

pub const C_BLUE: u32 = 0x78a9ff;

pub const C_BLUE_BTN: u32 = 0x0f62fe;

pub const C_BLUE_HOV: u32 = 0x0353e9;

pub const C_BLUE_TEN: u32 = 0x0043ce;

pub const C_GREEN: u32 = 0x42be65;

pub const C_GREEN_DARK: u32 = 0x24a148;

pub const C_GREEN_DIM: u32 = 0x198038;

pub const C_GREEN_FAINT: u32 = 0x0e6027;

pub const C_GREEN_BG: u32 = 0x044317;

pub const C_ORANGE_BG: u32 = 0x3d1a00;

pub const C_BLUE_BG: u32 = 0x001d6c;

pub const C_RED_BG: u32 = 0x520408;

pub const C_WHITE: u32 = 0xffffff;

pub const C_YELLOW: u32 = 0xf1c21b;

pub const C_ORANGE: u32 = 0xff832b;

pub const C_RED: u32 = 0xda1e28;

pub const C_BORDER: u32 = 0x393939;

/// The colour of a tip temperature: one step per hundred degrees.
pub open spec fn tip_color_of(t: u32) -> u32 {
    if t >= 400 {
        C_RED
    } else if t >= 300 {
        C_ORANGE
    } else if t >= 200 {
        C_YELLOW
    } else if t >= 100 {
        C_BLUE
    } else {
        C_TEXT2
    }
}

/// The colour of a tip temperature in °C.
pub fn tip_color(t: u32) -> (r: u32)
    ensures
        r == tip_color_of(t),
{
    if t >= 400 {
        C_RED
    } else if t >= 300 {
        C_ORANGE
    } else if t >= 200 {
        C_YELLOW
    } else if t >= 100 {
        C_BLUE
    } else {
        C_TEXT2
    }
}

/// Background and foreground of an operating mode's badge.
pub open spec fn mode_colors_of(mode: OperatingMode) -> (u32, u32) {
    match mode {
        OperatingMode::Soldering => (C_GREEN_BG, C_GREEN),
        OperatingMode::Boost => (C_ORANGE_BG, C_ORANGE),
        OperatingMode::Sleeping => (C_BLUE_BG, C_BLUE),
        OperatingMode::Standby => (C_LAYER2, C_TEXT2),
        OperatingMode::Debug => (C_LAYER2, C_YELLOW),
        _ => (C_LAYER1, C_TEXT3),
    }
}

/// Background and foreground of an operating mode's badge.
pub fn mode_colors(mode: &OperatingMode) -> (r: (u32, u32))
    ensures
        r == mode_colors_of(*mode),
{
    match mode {
        OperatingMode::Soldering => (C_GREEN_BG, C_GREEN),
        OperatingMode::Boost => (C_ORANGE_BG, C_ORANGE),
        OperatingMode::Sleeping => (C_BLUE_BG, C_BLUE),
        OperatingMode::Standby => (C_LAYER2, C_TEXT2),
        OperatingMode::Debug => (C_LAYER2, C_YELLOW),
        _ => (C_LAYER1, C_TEXT3),
    }
}

/// The colour of the live dot: it fades out and in again over six frames.
pub open spec fn live_dot_color_of(tick: u32) -> u32 {
    let phase = tick % 6;
    if phase == 0 {
        C_GREEN
    } else if phase == 1 || phase == 5 {
        C_GREEN_DARK
    } else if phase == 2 || phase == 4 {
        C_GREEN_DIM
    } else {
        C_GREEN_FAINT
    }
}

/// The colour of the live dot after `tick` frames.
pub fn live_dot_color(tick: u32) -> (r: u32)
    ensures
        r == live_dot_color_of(tick),
{
    match tick % 6 {
        0 => C_GREEN,
        1 => C_GREEN_DARK,
        2 => C_GREEN_DIM,
        3 => C_GREEN_FAINT,
        4 => C_GREEN_DIM,
        _ => C_GREEN_DARK,
    }
}

/// Two tip temperatures share a colour exactly when they lie in the same step of a hundred
/// degrees, or are both at 400 °C or above.
pub proof fn law_tip_color_steps(a: u32, b: u32)
    ensures
        tip_color_of(a) == tip_color_of(b) <==> (a / 100 == b / 100 || (a >= 400 && b >= 400)),
{
}

/// The live dot repeats every six frames, and fades the same way in and out.
pub proof fn law_live_dot_cycle(tick: u32)
    requires
        tick <= u32::MAX - 6,
    ensures
        live_dot_color_of((tick + 6) as u32) == live_dot_color_of(tick),
        live_dot_color_of((6 - tick % 6) as u32) == live_dot_color_of(tick),
{
}

} // verus!
