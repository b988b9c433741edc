//! Window size presets, the remembered window size, and the overlay's
//! minimize/restore toggle.
use vstd::prelude::*;

verus! {

/// A window size in logical pixels.
pub struct WindowPreferences {
    pub width: u32,
    pub height: u32,
}

/// Whether `(width, height)` is one of the offered presets.
pub open spec fn is_preset(width: u32, height: u32) -> bool {
    ||| (width == 960 && height == 540)
    ||| (width == 1280 && height == 720)
    ||| (width == 1600 && height == 900)
    ||| (width == 1920 && height == 1080)
}

/// Whether `(width, height)` is one of the offered presets: 960×540,
/// 1280×720, 1600×900 or 1920×1080.
pub fn is_window_size_preset(width: u32, height: u32) -> (res: bool)
    ensures
        res == is_preset(width, height),
{
    (width == 960 && height == 540) || (width == 1280 && height == 720) || (width == 1600 && height
        == 900) || (width == 1920 && height == 1080)
}

/// The preferences for a requested preset, or the refusal of a size that
/// is not one.
pub fn preset_preferences(width: u32, height: u32) -> (res: Result<WindowPreferences, String>)
    ensures
        is_preset(width, height) ==> (res matches Ok(p) && p.width == width && p.height == height),
        !is_preset(width, height) ==> (res matches Err(e) && e@
            == "That window size is not an available preset."@),
{
    if !is_window_size_preset(width, height) {
        return Err(String::from_str("That window size is not an available preset."));
    }
    Ok(WindowPreferences { width, height })
}

/// Whether a window of this logical size is large enough to be remembered.
pub open spec fn is_rememberable(width: u32, height: u32) -> bool {
    width >= 640 && height >= 360
}

/// The preferences for the current logical window size, or the refusal of
/// a window smaller than 640×360.
pub fn remembered_preferences(width: u32, height: u32) -> (res: Result<WindowPreferences, String>)
    ensures
        is_rememberable(width, height) ==> (res matches Ok(p) && p.width == width && p.height
            == height),
        !is_rememberable(width, height) ==> (res matches Err(e) && e@
            == "The current window is too small to remember."@),
{
    if width < 640 || height < 360 {
        return Err(String::from_str("The current window is too small to remember."));
    }
    Ok(WindowPreferences { width, height })
}

/// What the overlay shortcut does to the window.
pub enum PaletteAction {
    /// Unminimize, show and focus the window.
    Restore,
    /// Minimize the window.
    Minimize,
}

/// The shortcut restores a minimized window and minimizes any other; a
/// window whose state cannot be read counts as not minimized.
pub fn palette_action(minimized: Option<bool>) -> (res: PaletteAction)
    ensures
        (res is Restore) == (minimized == Some(true)),
        (res is Minimize) == (minimized != Some(true)),
{
    match minimized {
        Some(true) => PaletteAction::Restore,
        _ => PaletteAction::Minimize,
    }
}

} // verus!
