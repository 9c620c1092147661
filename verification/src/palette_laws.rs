//! Which colour stands for what, as `0xRRGGBB`.

use crate::palette::{live_dot_color_of, mode_colors_of, tip_color_of};
use crate::palette::{
    C_BG, C_BLUE, C_BLUE_BG, C_BLUE_BTN, C_BLUE_HOV, C_BLUE_TEN, C_BORDER, C_GREEN, C_GREEN_BG,
    C_GREEN_DARK, C_GREEN_DIM, C_GREEN_FAINT, C_LAYER1, C_LAYER2, C_LAYER3, C_ORANGE, C_ORANGE_BG,
    C_RED, C_RED_BG, C_TEXT, C_TEXT2, C_TEXT3, C_WHITE, C_YELLOW,
};
use crate::pinecil::OperatingMode;
use vstd::prelude::*;

verus! {

/// The colours of the window, by what they are for: surfaces from dark to light, text from bright
/// to dim, and the accents.
pub proof fn law_palette_is_as_designed()
    ensures
        C_BG == 0x161616 && C_LAYER1 == 0x262626 && C_LAYER2 == 0x393939 && C_LAYER3 == 0x4c4c4c,
        C_BORDER == 0x393939,
        C_TEXT == 0xf4f4f4 && C_TEXT2 == 0xc6c6c6 && C_TEXT3 == 0x6f6f6f && C_WHITE == 0xffffff,
        C_BLUE == 0x78a9ff && C_BLUE_BTN == 0x0f62fe && C_BLUE_HOV == 0x0353e9,
        C_BLUE_TEN == 0x0043ce && C_BLUE_BG == 0x001d6c,
        C_GREEN == 0x42be65 && C_GREEN_DARK == 0x24a148 && C_GREEN_DIM == 0x198038,
        C_GREEN_FAINT == 0x0e6027 && C_GREEN_BG == 0x044317,
        C_YELLOW == 0xf1c21b,
        C_ORANGE == 0xff832b && C_ORANGE_BG == 0x3d1a00,
        C_RED == 0xda1e28 && C_RED_BG == 0x520408,
{
}

/// A tip is grey below 100 °C, blue below 200, yellow below 300, orange below 400, and red from
/// there on.
pub proof fn law_tips_are_coloured(t: u32)
    ensures
        tip_color_of(t) == 0xc6c6c6 <==> t < 100,
        tip_color_of(t) == 0x78a9ff <==> 100 <= t < 200,
        tip_color_of(t) == 0xf1c21b <==> 200 <= t < 300,
        tip_color_of(t) == 0xff832b <==> 300 <= t < 400,
        tip_color_of(t) == 0xda1e28 <==> 400 <= t,
{
}

/// Each operating mode has the badge that stands for it; idling and unknown modes share one.
pub proof fn law_modes_are_coloured(mode: OperatingMode)
    ensures
        mode_colors_of(mode) == (0x044317u32, 0x42be65u32) <==> mode is Soldering,
        mode_colors_of(mode) == (0x3d1a00u32, 0xff832bu32) <==> mode is Boost,
        mode_colors_of(mode) == (0x001d6cu32, 0x78a9ffu32) <==> mode is Sleeping,
        mode_colors_of(mode) == (0x393939u32, 0xc6c6c6u32) <==> mode is Standby,
        mode_colors_of(mode) == (0x393939u32, 0xf1c21bu32) <==> mode is Debug,
        mode_colors_of(mode) == (0x262626u32, 0x6f6f6fu32) <==> mode is Idle || mode is Unknown,
{
}

/// The live dot is brightest at every sixth frame, darkest half-way between, and takes the two
/// steps between them both ways.
pub proof fn law_live_dot_fades(tick: u32)
    ensures
        live_dot_color_of(tick) == 0x42be65 <==> tick % 6 == 0,
        live_dot_color_of(tick) == 0x24a148 <==> tick % 6 == 1 || tick % 6 == 5,
        live_dot_color_of(tick) == 0x198038 <==> tick % 6 == 2 || tick % 6 == 4,
        live_dot_color_of(tick) == 0x0e6027 <==> tick % 6 == 3,
{
}

} // verus!
