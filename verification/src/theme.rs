//! The colour palette of the dashboard: near-black backgrounds, thin
//! borders, a phosphor-green / cyan accent pair, amber and red alerts.
//! Colours are `0xRRGGBB` values.

use vstd::prelude::*;
use crate::alarm::BadgeColor;
use crate::event_log::Severity;

verus! {

/// The palette.
pub struct Palette;

impl Palette {
    pub const VOID: u32 = 0x06_0A_0A;
    pub const PANEL: u32 = 0x0A_10_10;
    pub const PANEL_RAISED: u32 = 0x0D_14_14;
    pub const BORDER: u32 = 0x1C_2E_2A;
    pub const BORDER_BRIGHT: u32 = 0x2D_5C_4E;
    pub const GREEN: u32 = 0x39_FF_88;
    pub const GREEN_DIM: u32 = 0x1F_6E_4A;
    pub const CYAN: u32 = 0x4D_E0_FF;
    pub const CYAN_DIM: u32 = 0x1E_5F_6B;
    pub const AMBER: u32 = 0xFF_B0_20;
    pub const RED: u32 = 0xFF_42_42;
    pub const TEXT: u32 = 0xC8_EE_DE;
    pub const TEXT_DIM: u32 = 0x5C_7A_70;
    pub const TEXT_FAINT: u32 = 0x34_48_42;

    /// The red, green and blue parts of a `0xRRGGBB` colour.
    pub fn channels(rgb: u32) -> (c: (u8, u8, u8))
        ensures
            c.0 == (rgb / 0x1_00_00) % 0x100,
            c.1 == (rgb / 0x100) % 0x100,
            c.2 == rgb % 0x100,
    {
        (((rgb / 0x1_00_00) % 0x100) as u8, ((rgb / 0x100) % 0x100) as u8, (rgb % 0x100) as u8)
    }

    /// Colour of a status badge.
    pub fn badge_color(c: BadgeColor) -> (rgb: u32)
        ensures
            rgb == match c {
                BadgeColor::Okay => Self::GREEN,
                BadgeColor::Alert => Self::RED,
                BadgeColor::Dim => Self::TEXT_DIM,
            },
    {
        match c {
            BadgeColor::Okay => Self::GREEN,
            BadgeColor::Alert => Self::RED,
            BadgeColor::Dim => Self::TEXT_DIM,
        }
    }

    /// Colour of a log line's tag.
    pub fn severity_color(s: Severity) -> (rgb: u32)
        ensures
            rgb == match s {
                Severity::Sys => Self::CYAN,
                Severity::Alarm => Self::GREEN,
                Severity::Audio => Self::AMBER,
                Severity::Warn => Self::RED,
            },
    {
        match s {
            Severity::Sys => Self::CYAN,
            Severity::Alarm => Self::GREEN,
            Severity::Audio => Self::AMBER,
            Severity::Warn => Self::RED,
        }
    }
}

} // verus!
