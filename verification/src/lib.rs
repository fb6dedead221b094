use vstd::prelude::*;

pub mod dirs;
pub mod hotkey;
pub mod icon;
pub mod scan;
pub mod text;
pub mod visibility;
pub mod window;

verus! {

/// One discovered launchable shortcut entry.
#[derive(Debug, Clone)]
pub struct AppEntry {
    /// Display name, derived from the shortcut file's base name.
    /// Unique within a scan result (deduplication key).
    pub name: String,
    /// Absolute path of the shortcut file itself (not its target).
    pub path: String,
    /// Optional encoded image payload, resolved lazily; starts out absent.
    pub icon: Option<String>,
    /// Name of the immediate containing directory, as a grouping hint.
    pub category: String,
}

/// The mathematical value of an [`AppEntry`]: its fields as character
/// sequences.
pub ghost struct AppEntryV {
    pub name: Seq<char>,
    pub path: Seq<char>,
    pub icon: Option<Seq<char>>,
    pub category: Seq<char>,
}

impl View for AppEntry {
    type V = AppEntryV;

    open spec fn view(&self) -> AppEntryV {
        AppEntryV {
            name: self.name@,
            path: self.path@,
            icon: match self.icon {
                Some(s) => Some(s@),
                None => None,
            },
            category: self.category@,
        }
    }
}

/// A saved popup-surface position, in physical pixels from the
/// top-left corner of the monitor.
#[derive(Debug, Clone, Copy, PartialEq, Eq, Structural)]
pub struct WindowPos {
    pub x: i32,
    pub y: i32,
}

} // verus!
