//! Names of the events that cross the Rust/JS boundary.

use vstd::prelude::*;

verus! {

/// Emitted on every Capture mutation.
pub const CAPTURES_CHANGED: &'static str = "captures:changed";

/// Emitted on every Composer summon.
pub const OPEN_COMPOSER: &'static str = "open_composer";

/// Emitted on every successful save; the Dock pulses.
pub const DOCK_PULSE: &'static str = "dock:pulse";

/// Emitted with the new unread count.
pub const DOCK_UNREAD_CHANGED: &'static str = "dock:unread:changed";

/// Emitted when a Finder drag enters the Dock.
pub const DOCK_DRAG_ENTER: &'static str = "dock:drag:enter";

/// Emitted when a drag leaves the Dock.
pub const DOCK_DRAG_LEAVE: &'static str = "dock:drag:leave";

/// Emitted when the frontmost app enters fullscreen.
pub const DOCK_FULLSCREEN_ENTERED: &'static str = "dock:fullscreen:entered";

/// Emitted when the frontmost app exits fullscreen.
pub const DOCK_FULLSCREEN_EXITED: &'static str = "dock:fullscreen:exited";

/// Emitted by the tray's "Open Inbox" item.
pub const TRAY_OPEN_INBOX: &'static str = "tray:open_inbox";

/// Emitted on every Destination mutation.
pub const DESTINATIONS_CHANGED: &'static str = "destinations:changed";

/// Asks the main window to show the Inbox view.
pub const VIEW_OPEN_INBOX: &'static str = "view:open_inbox";

/// Asks the main window to show the Archive view.
pub const VIEW_OPEN_ARCHIVE: &'static str = "view:open_archive";

} // verus!
