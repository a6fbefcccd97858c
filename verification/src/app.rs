//! Application-level state descriptors: the input mode, the focused panel,
//! notification records and the layout's dimensions.

use vstd::prelude::*;
use vstd::string::*;

verus! {

/// One notification shown to the user; the timestamp is the clock reading
/// (nanoseconds) the host recorded when it was raised.
#[derive(Debug, Clone)]
pub struct NotificationMessage {
    pub message: String,
    pub timestamp: u64,
    pub notification_type: NotificationType,
}

#[derive(Debug, Clone)]
pub enum NotificationType {
    MouseHover,
    MouseClick,
    FileOperation,
    Info,
}

#[derive(Debug, Clone, Copy, PartialEq, Eq, Structural)]
pub enum AppMode {
    Normal,
    Insert,
    Agentic,
}

#[derive(Debug, Clone, Copy, PartialEq, Eq, Structural)]
pub enum FocusedPanel {
    FileExplorer,
    Editor,
    Chat,
}

/// The layout's adjustable dimensions and their bounds.
#[derive(Debug, Clone)]
pub struct LayoutState {
    pub sidebar_width: u16,
    pub chat_height: u16,
    pub min_sidebar_width: u16,
    pub max_sidebar_width: u16,
    pub min_chat_height: u16,
}

impl Default for LayoutState {
    fn default() -> (r: LayoutState)
        ensures
            r.sidebar_width == 30,
            r.chat_height == 12,
            r.min_sidebar_width == 20,
            r.max_sidebar_width == 60,
            r.min_chat_height == 8,
    {
        LayoutState {
            sidebar_width: 30,
            chat_height: 12,
            min_sidebar_width: 20,
            max_sidebar_width: 60,
            min_chat_height: 8,
        }
    }
}

} // verus!
