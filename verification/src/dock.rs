//! The Dock widget's right-click menu registry and the fullscreen
//! transition seam. The OS fullscreen observer is run by the application.

use vstd::prelude::*;
use crate::tray::{copy_tray_binding, default_menu, tray_binding_view, tray_menu_spec, TrayMenuBinding, TrayMenuItem};

verus! {

/// Event emitted when the frontmost app enters fullscreen.
pub const EVENT_FULLSCREEN_ENTERED: &'static str = "dock:fullscreen:entered";

/// Event emitted when the frontmost app exits fullscreen.
pub const EVENT_FULLSCREEN_EXITED: &'static str = "dock:fullscreen:exited";

/// A Dock menu row: the tray binding of the same intent, with a
/// Dock-specific menu id.
#[derive(Debug, Clone, PartialEq, Eq)]
pub struct DockMenuBinding {
    pub tray: TrayMenuBinding,
    pub menu_id: &'static str,
}

/// The Dock menu ids, in visual order.
pub open spec fn dock_menu_ids() -> Seq<Seq<char>> {
    seq![
        "dock:open_composer"@,
        "dock:open_inbox"@,
        "dock:open_archive"@,
        "dock:open_settings"@,
        "dock:quit"@,
    ]
}

/// The menu bindings behind the Dock menu, in visual order: the tray's
/// Open Composer and Open Inbox, then Open Archive and Settings, then the
/// tray's Quit.
pub open spec fn dock_tray_spec() -> Seq<(TrayMenuItem, Seq<char>, Seq<char>, Seq<char>)> {
    seq![
        tray_menu_spec()[0],
        tray_menu_spec()[1],
        (TrayMenuItem::OpenArchive, "Open Archive…"@, "tray:open_archive"@, "tray.open_archive"@),
        (TrayMenuItem::OpenSettings, "Settings…"@, "tray:open_settings"@, "tray.open_settings"@),
        tray_menu_spec()[2],
    ]
}

/// The Dock context menu: Open Composer, Open Inbox, Open Archive,
/// Settings, Quit, each with a `dock:*` menu id. The items it shares with
/// the tray menu carry the tray's label and event.
pub fn default_context_menu() -> (r: Vec<DockMenuBinding>)
    ensures
        r@.len() == 5,
        forall|i: int|
            0 <= i < 5 ==> tray_binding_view(#[trigger] r@[i].tray) == dock_tray_spec()[i]
                && r@[i].menu_id@ == dock_menu_ids()[i],
{
    let tray = default_menu();
    assert(tray_menu_spec().len() == 3);
    assert(tray@.map_values(|b: TrayMenuBinding| tray_binding_view(b)).len() == tray@.len());
    assert(tray@.len() == 3);
    assert(tray@.map_values(|b: TrayMenuBinding| tray_binding_view(b))[0] == tray_binding_view(
        tray@[0],
    ));
    assert(tray@.map_values(|b: TrayMenuBinding| tray_binding_view(b))[1] == tray_binding_view(
        tray@[1],
    ));
    assert(tray@.map_values(|b: TrayMenuBinding| tray_binding_view(b))[2] == tray_binding_view(
        tray@[2],
    ));
    let archive = TrayMenuBinding {
        item: TrayMenuItem::OpenArchive,
        label: "Open Archive…",
        event: "tray:open_archive",
        menu_id: "tray.open_archive",
    };
    let settings = TrayMenuBinding {
        item: TrayMenuItem::OpenSettings,
        label: "Settings…",
        event: "tray:open_settings",
        menu_id: "tray.open_settings",
    };
    let r = vec![
        DockMenuBinding { tray: copy_tray_binding(&tray[0]), menu_id: "dock:open_composer" },
        DockMenuBinding { tray: copy_tray_binding(&tray[1]), menu_id: "dock:open_inbox" },
        DockMenuBinding { tray: archive, menu_id: "dock:open_archive" },
        DockMenuBinding { tray: settings, menu_id: "dock:open_settings" },
        DockMenuBinding { tray: copy_tray_binding(&tray[2]), menu_id: "dock:quit" },
    ];
    r
}

/// A fullscreen transition of the frontmost app.
#[derive(Debug, Clone, Copy, PartialEq, Eq, Structural)]
pub enum FullscreenTransition {
    Entered,
    Exited,
}

/// The event a transition is announced with.
pub open spec fn transition_event(t: FullscreenTransition) -> Seq<char> {
    match t {
        FullscreenTransition::Entered => EVENT_FULLSCREEN_ENTERED@,
        FullscreenTransition::Exited => EVENT_FULLSCREEN_EXITED@,
    }
}

impl FullscreenTransition {
    /// The event name of the transition.
    pub fn event_name(self) -> (r: &'static str)
        ensures
            r@ == transition_event(self),
    {
        match self {
            FullscreenTransition::Entered => EVENT_FULLSCREEN_ENTERED,
            FullscreenTransition::Exited => EVENT_FULLSCREEN_EXITED,
        }
    }
}

/// Something events can be emitted on. `emitted` is the list of event
/// names emitted so far.
pub trait EventSink {
    spec fn emitted(&self) -> Seq<Seq<char>>;

    fn emit_event(&mut self, name: &str)
        ensures
            final(self).emitted() == old(self).emitted().push(name@),
    ;
}

/// An event sink that keeps the names emitted on it.
pub struct RecordingSink {
    pub events: Vec<String>,
}

impl RecordingSink {
    /// A sink with nothing emitted yet.
    pub fn new() -> (s: Self)
        ensures
            s.emitted().len() == 0,
    {
        RecordingSink { events: Vec::new() }
    }
}

impl EventSink for RecordingSink {
    open spec fn emitted(&self) -> Seq<Seq<char>> {
        self.events@.map_values(|e: String| e@)
    }

    fn emit_event(&mut self, name: &str) {
        let ghost before = self.emitted();
        self.events.push(String::from_str(name));
        assert(self.emitted() =~= before.push(name@));
    }
}

/// Emits the event of `transition` (`dock:fullscreen:entered` or
/// `dock:fullscreen:exited`) on `sink`.
pub fn emit_transition<S: EventSink + ?Sized>(sink: &mut S, transition: FullscreenTransition)
    ensures
        final(sink).emitted() == old(sink).emitted().push(transition_event(transition)),
{
    sink.emit_event(transition.event_name());
}

/// The Dock's menu ids differ from every tray menu id, so a click is
/// routed to the menu it came from.
pub proof fn lemma_dock_ids_differ_from_tray_ids(i: int, j: int)
    requires
        0 <= i < 5,
        0 <= j < 3,
    ensures
        dock_menu_ids()[i] != tray_menu_spec()[j].3,
{
    reveal_strlit("dock:open_composer");
    reveal_strlit("dock:open_inbox");
    reveal_strlit("dock:open_archive");
    reveal_strlit("dock:open_settings");
    reveal_strlit("dock:quit");
    reveal_strlit("tray.open_composer");
    reveal_strlit("tray.open_inbox");
    reveal_strlit("tray.quit");
    assert(dock_menu_ids()[i][0] != tray_menu_spec()[j].3[0]);
}

/// The Dock menu shows the tray's items with the tray's labels and
/// events, in the tray's order, with Open Archive and Settings between
/// Open Inbox and Quit.
pub proof fn lemma_dock_menu_mirrors_tray()
    ensures
        dock_tray_spec()[0] == tray_menu_spec()[0],
        dock_tray_spec()[1] == tray_menu_spec()[1],
        dock_tray_spec()[4] == tray_menu_spec()[2],
        dock_tray_spec()[2].0 == TrayMenuItem::OpenArchive,
        dock_tray_spec()[3].0 == TrayMenuItem::OpenSettings,
{
}

/// Which transition each change of the active space is announced as.
/// macOS has no workspace-level fullscreen notification; a change of the
/// active space is the proxy, and the changes alternate between entering
/// and leaving a fullscreen space, starting with entering.
pub struct FullscreenTracker {
    /// The last change announced was `Entered`.
    pub entered: bool,
}

impl FullscreenTracker {
    /// A tracker before any change: not in a fullscreen space.
    pub fn new() -> (t: Self)
        ensures
            !t.entered,
    {
        FullscreenTracker { entered: false }
    }

    /// The transition a change of the active space is announced as: the
    /// opposite of the previous one.
    pub fn on_active_space_change(&mut self) -> (r: FullscreenTransition)
        ensures
            final(self).entered == !old(self).entered,
            r == (if final(self).entered {
                FullscreenTransition::Entered
            } else {
                FullscreenTransition::Exited
            }),
    {
        self.entered = !self.entered;
        if self.entered {
            FullscreenTransition::Entered
        } else {
            FullscreenTransition::Exited
        }
    }
}

} // verus!
