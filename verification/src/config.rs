//! Persistent settings of the overlay: what the config file holds, and
//! the values used when there is no usable config file.

use vstd::prelude::*;

verus! {

/// Which corner of the screen the overlay is anchored to.
///
/// Layer-shell surfaces are placed by anchoring them to edges and giving
/// margins, not by free x/y coordinates, so the position is one of the
/// four corners.
#[derive(Clone, Copy, Debug, PartialEq, Eq, Structural)]
pub enum Position {
    TopLeft,
    TopRight,
    BottomLeft,
    BottomRight,
}

impl Default for Position {
    /// The overlay sits in the top-right corner unless configured otherwise.
    fn default() -> (p: Self)
        ensures
            p == Position::TopRight,
    {
        Position::TopRight
    }
}

/// Bit pattern (IEEE 754 binary64) of the default opacity, 0.85.
pub const DEFAULT_OPACITY_BITS: u64 = 0x3FEB_3333_3333_3333;

/// Default distance in pixels from the anchored edges.
pub const DEFAULT_MARGIN: i32 = 20;

/// Default overlay width in pixels.
pub const DEFAULT_WIDTH: i32 = 400;

/// Default overlay height in pixels.
pub const DEFAULT_HEIGHT: i32 = 600;

/// All user-configurable settings of the overlay.
///
/// The opacity is a floating-point value in the config file
/// (0.0 fully transparent, 1.0 fully opaque); it is held here as the
/// bit pattern of that `f64`, which keeps every value exactly and lets
/// the settings be compared and copied without floating-point code.
#[derive(Clone, Debug)]
pub struct Settings {
    /// The page shown in the overlay (for example a chat widget link).
    pub url: String,
    /// Bit pattern of the `f64` opacity.
    pub opacity_bits: u64,
    /// Which screen corner the overlay is anchored to.
    pub position: Position,
    /// Distance in pixels from the anchored edges.
    pub margin: i32,
    /// Width of the overlay in pixels.
    pub width: i32,
    /// Height of the overlay in pixels.
    pub height: i32,
    /// Shows a visible debug page in place of the configured one.
    pub debug: bool,
    /// Whether pointer input passes through the overlay to the windows beneath.
    pub click_through: bool,
}

/// The settings used when no config file can be read or parsed.
pub open spec fn is_default_settings(s: Settings) -> bool {
    &&& s.url@ == "https://example.com"@
    &&& s.opacity_bits == DEFAULT_OPACITY_BITS
    &&& s.position == Position::TopRight
    &&& s.margin == DEFAULT_MARGIN
    &&& s.width == DEFAULT_WIDTH
    &&& s.height == DEFAULT_HEIGHT
    &&& !s.debug
    &&& s.click_through
}

/// The built-in settings are those of the documented example
/// configuration, with debug off: the example page, opacity 0.85 (as its
/// `f64` bit pattern), the top-right corner, a 20 px margin, a 400 x 600 px
/// window and click-through on.
pub proof fn lemma_defaults_are_documented(s: Settings)
    requires
        is_default_settings(s),
    ensures
        s.url@ == "https://example.com"@,
        s.opacity_bits == 0x3FEB_3333_3333_3333u64,
        s.position == Position::TopRight,
        s.margin == 20,
        s.width == 400,
        s.height == 600,
        !s.debug,
        s.click_through,
{
}

impl Default for Settings {
    /// The built-in configuration: the example page, opacity 0.85,
    /// top-right corner, 20 px margin, 400 x 600 px, no debug page,
    /// click-through on.
    fn default() -> (s: Self)
        ensures
            is_default_settings(s),
    {
        Settings {
            url: String::from_str("https://example.com"),
            opacity_bits: DEFAULT_OPACITY_BITS,
            position: Position::default(),
            margin: DEFAULT_MARGIN,
            width: DEFAULT_WIDTH,
            height: DEFAULT_HEIGHT,
            debug: false,
            click_through: true,
        }
    }
}

/// What loading the configuration settles on.
#[derive(Debug)]
pub struct Loaded {
    /// The settings the overlay runs with.
    pub settings: Settings,
    /// Whether these settings must be written out as the new config file,
    /// so that the user has a file to edit.
    pub write_back: bool,
}

/// Decides the settings to run with, given what reading and parsing the
/// config file gave (`None` when the file is missing, unreadable or not
/// valid settings).
///
/// Parsed settings are used as they are and nothing is written; otherwise
/// the defaults are used and written back.
pub fn settings_or_defaults(parsed: Option<Settings>) -> (r: Loaded)
    ensures
        match parsed {
            Some(s) => r.settings == s && !r.write_back,
            None => is_default_settings(r.settings) && r.write_back,
        },
{
    match parsed {
        Some(s) => Loaded { settings: s, write_back: false },
        None => Loaded { settings: Settings::default(), write_back: true },
    }
}

} // verus!
