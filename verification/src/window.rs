//! What the window commands decide: which size to remember and to restore,
//! whether to maximize or to restore, and what a secondary window looks like.
//!
//! The window itself is not here. A command gets what was read from the
//! window and tells what to do with it.

use crate::text::append_decimal;
use crate::text::decimal;
use vstd::hash_map::StringHashMap;
use vstd::prelude::*;
use vstd::string::StringExecFns;

verus! {

/// The key under which the size memory keeps its one size.
pub const WINDOW_SIZE_MANAGE_KEY: &'static str = "maximize_previous_window_size";

/// The size that the window had before it was last maximized: a width and
/// a height, or nothing where no size was remembered yet. The size is kept
/// in a map, under [`WINDOW_SIZE_MANAGE_KEY`].
pub struct WindowSizeMemory {
    sizes: StringHashMap<(u32, u32)>,
}

impl View for WindowSizeMemory {
    type V = Option<(u32, u32)>;

    /// The remembered size.
    closed spec fn view(&self) -> Option<(u32, u32)> {
        if self.sizes@.contains_key(WINDOW_SIZE_MANAGE_KEY@) {
            Some(self.sizes@[WINDOW_SIZE_MANAGE_KEY@])
        } else {
            None
        }
    }
}

impl WindowSizeMemory {
    /// A memory that holds no size.
    pub fn new() -> (memory: WindowSizeMemory)
        ensures
            memory@ is None,
    {
        WindowSizeMemory { sizes: StringHashMap::new() }
    }

    /// Remembers `size` in place of what was remembered before.
    pub fn remember(&mut self, size: (u32, u32))
        ensures
            final(self)@ == Some(size),
    {
        self.sizes.insert(String::from_str(WINDOW_SIZE_MANAGE_KEY), size);
    }

    /// The remembered size.
    pub fn recall(&self) -> (size: Option<(u32, u32)>)
        ensures
            size == self@,
    {
        match self.sizes.get(WINDOW_SIZE_MANAGE_KEY) {
            Some(size) => Some(*size),
            None => None,
        }
    }
}

/// What to do with the window.
#[derive(Debug, Clone, Copy, PartialEq, Eq, Structural)]
pub enum WindowAction {
    Maximize,
    Unmaximize,
}

/// Toggles between the maximized and the restored window. `inner_size` is
/// the window's size where it could be read, and `is_maximized` tells
/// whether the window is maximized now. A window that is about to be
/// maximized has its size remembered; a window that is about to be restored
/// leaves the memory as it is, so that the size from before the maximizing
/// is still there for a later recovery.
pub fn maximize_window(memory: &mut WindowSizeMemory, inner_size: Option<(u32, u32)>, is_maximized: bool) -> (action:
    WindowAction)
    ensures
        final(memory)@ == (if !is_maximized && inner_size is Some {
            inner_size
        } else {
            old(memory)@
        }),
        action == (if is_maximized {
            WindowAction::Unmaximize
        } else {
            WindowAction::Maximize
        }),
{
    if is_maximized {
        WindowAction::Unmaximize
    } else {
        match inner_size {
            Some(size) => {
                memory.remember(size);
            },
            None => {},
        }
        WindowAction::Maximize
    }
}

/// The size to give the window back: the remembered one, or `inner_size`,
/// the size it has now, where none was remembered.
pub fn recovery_window(memory: &WindowSizeMemory, inner_size: (u32, u32)) -> (size: (u32, u32))
    ensures
        size == (match memory@ {
            Some(previous) => previous,
            None => inner_size,
        }),
{
    match memory.recall() {
        Some(previous) => previous,
        None => inner_size,
    }
}

/// How a secondary window is to be opened.
#[derive(Debug)]
pub struct SecondaryWindow {
    /// The name of the window, different for every window.
    pub label: String,
    /// The route of the user interface that the window shows.
    pub route: String,
    pub title: String,
    pub width: u32,
    pub height: u32,
    pub min_width: u32,
    pub min_height: u32,
    pub resizable: bool,
    pub decorations: bool,
}

/// Whether `window` is the multi panel window opened at `timestamp_millis`,
/// a time in milliseconds since the epoch, which makes its label.
pub open spec fn is_multi_panel_window(window: SecondaryWindow, timestamp_millis: i64) -> bool {
    &&& window.label@ == "multi_panel_"@ + decimal(timestamp_millis as int)
    &&& window.route@ == "/multi_panel"@
    &&& window.title@ == "Luminliquid - Multi Panel Trading"@
    &&& window.width == 1200
    &&& window.height == 800
    &&& window.min_width == 800
    &&& window.min_height == 600
    &&& window.resizable
    &&& !window.decorations
}

/// The multi panel window as it is opened at `timestamp_millis`, the time
/// of the clock in milliseconds since the epoch.
pub fn multi_panel_window(timestamp_millis: i64) -> (window: SecondaryWindow)
    ensures
        is_multi_panel_window(window, timestamp_millis),
{
    let mut label = String::from_str("multi_panel_");
    append_decimal(&mut label, timestamp_millis);
    SecondaryWindow {
        label,
        route: String::from_str("/multi_panel"),
        title: String::from_str("Luminliquid - Multi Panel Trading"),
        width: 1200,
        height: 800,
        min_width: 800,
        min_height: 600,
        resizable: true,
        decorations: false,
    }
}

} // verus!
