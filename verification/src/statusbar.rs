//! The status bar's data: what it needs to know to render one status line.
//! The rendering itself (terminal drawing) lives outside the verified
//! library.

use vstd::prelude::*;
use crate::app::{AppMode, FocusedPanel};

verus! {

/// Everything one status line shows.
#[derive(Debug)]
pub struct StatusInfo {
    pub mode: AppMode,
    pub focused_panel: FocusedPanel,
    pub current_file: Option<String>,
    pub cursor_position: (usize, usize),
    pub is_modified: bool,
    pub total_files: usize,
}

pub struct StatusBar;

impl StatusBar {
    pub fn new() -> (r: StatusBar) {
        StatusBar
    }

    /// The mode label shown at the line's left edge.
    pub fn mode_text(&self, mode: AppMode) -> (r: &'static str)
        ensures
            r@ == (match mode {
                AppMode::Normal => "NORMAL"@,
                AppMode::Insert => "INSERT"@,
                AppMode::Agentic => "AGENTIC"@,
            }),
    {
        match mode {
            AppMode::Normal => "NORMAL",
            AppMode::Insert => "INSERT",
            AppMode::Agentic => "AGENTIC",
        }
    }

    /// The focused panel's label.
    pub fn panel_text(&self, panel: FocusedPanel) -> (r: &'static str)
        ensures
            r@ == (match panel {
                FocusedPanel::FileExplorer => "FILES"@,
                FocusedPanel::Editor => "EDITOR"@,
                FocusedPanel::Chat => "CHAT"@,
            }),
    {
        match panel {
            FocusedPanel::FileExplorer => "FILES",
            FocusedPanel::Editor => "EDITOR",
            FocusedPanel::Chat => "CHAT",
        }
    }
}

} // verus!
