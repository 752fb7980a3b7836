//! What the running application does on each outside event: a global
//! shortcut, a click in the tray menu or in the Dock's menu, a Finder drag
//! over the Dock. The application receives the events and performs the
//! actions.

use vstd::prelude::*;
use crate::dock::{default_context_menu, dock_menu_ids, dock_tray_spec, DockMenuBinding};
use crate::events::{CAPTURES_CHANGED, DOCK_DRAG_ENTER, DOCK_DRAG_LEAVE, DOCK_PULSE};
use crate::shortcuts::ShortcutId;
use crate::store::text_eq;
use crate::tray::{default_menu, tray_binding_view, tray_menu_spec, TrayMenuBinding, TrayMenuItem};

verus! {

/// Something the application does.
#[derive(Debug, Clone, Copy, PartialEq, Eq)]
pub enum AppAction {
    /// Record the frontmost app, then show and focus the Composer.
    ShowComposer,
    /// Show the Inbox view of the main window.
    ShowInbox,
    /// Show the Archive view of the main window.
    ShowArchive,
    /// Read the clipboard and save what it holds.
    CaptureClipboard,
    /// Emit an event on the bus.
    Emit(&'static str),
    /// Quit the application.
    Quit,
    /// Show and focus the Recording window.
    ShowRecording,
}

/// The action of a global shortcut.
pub open spec fn shortcut_action_spec(id: ShortcutId) -> AppAction {
    match id {
        ShortcutId::OpenComposer => AppAction::ShowComposer,
        ShortcutId::CaptureClipboard => AppAction::CaptureClipboard,
        ShortcutId::OpenInbox => AppAction::ShowInbox,
        ShortcutId::OpenArchive => AppAction::ShowArchive,
        ShortcutId::OpenRecording => AppAction::ShowRecording,
    }
}

/// What a pressed global shortcut does.
pub fn shortcut_action(id: ShortcutId) -> (r: AppAction)
    ensures
        r == shortcut_action_spec(id),
{
    match id {
        ShortcutId::OpenComposer => AppAction::ShowComposer,
        ShortcutId::CaptureClipboard => AppAction::CaptureClipboard,
        ShortcutId::OpenInbox => AppAction::ShowInbox,
        ShortcutId::OpenArchive => AppAction::ShowArchive,
        ShortcutId::OpenRecording => AppAction::ShowRecording,
    }
}

/// The action of a menu item: the Composer is shown directly, the Inbox,
/// the Archive and Settings are reached through the item's event, Quit
/// quits.
pub open spec fn menu_item_action(item: TrayMenuItem, event: Seq<char>) -> (int, Seq<char>) {
    match item {
        TrayMenuItem::OpenComposer => (0, Seq::empty()),
        TrayMenuItem::OpenInbox => (4, event),
        TrayMenuItem::OpenArchive => (4, event),
        TrayMenuItem::OpenSettings => (4, event),
        TrayMenuItem::Quit => (5, Seq::empty()),
    }
}

/// An action as values: its variant (0 to 6, in declaration order) and,
/// for `Emit`, the event.
pub open spec fn action_view(a: AppAction) -> (int, Seq<char>) {
    match a {
        AppAction::ShowComposer => (0, Seq::empty()),
        AppAction::ShowInbox => (1, Seq::empty()),
        AppAction::ShowArchive => (2, Seq::empty()),
        AppAction::CaptureClipboard => (3, Seq::empty()),
        AppAction::Emit(e) => (4, e@),
        AppAction::Quit => (5, Seq::empty()),
        AppAction::ShowRecording => (6, Seq::empty()),
    }
}

fn item_action(item: TrayMenuItem, event: &'static str) -> (r: AppAction)
    ensures
        action_view(r) == menu_item_action(item, event@),
{
    match item {
        TrayMenuItem::OpenComposer => AppAction::ShowComposer,
        TrayMenuItem::OpenInbox => AppAction::Emit(event),
        TrayMenuItem::OpenArchive => AppAction::Emit(event),
        TrayMenuItem::OpenSettings => AppAction::Emit(event),
        TrayMenuItem::Quit => AppAction::Quit,
    }
}

/// What a click on the tray menu item with `menu_id` does; `None` for an
/// id the tray menu does not hold.
pub fn tray_menu_action(menu_id: &str) -> (r: Option<AppAction>)
    ensures
        match r {
            Some(a) => exists|i: int|
                0 <= i < tray_menu_spec().len() && (#[trigger] tray_menu_spec()[i]).3 == menu_id@
                    && action_view(a) == menu_item_action(tray_menu_spec()[i].0, tray_menu_spec()[i].2),
            None => forall|i: int| 0 <= i < tray_menu_spec().len() ==> (#[trigger] tray_menu_spec()[i]).3 != menu_id@,
        },
{
    let menu = default_menu();
    let ghost views = menu@.map_values(|b: TrayMenuBinding| tray_binding_view(b));
    assert(views.len() == menu@.len());
    let mut i: usize = 0;
    while i < menu.len()
        invariant
            i <= menu.len(),
            views == menu@.map_values(|b: TrayMenuBinding| tray_binding_view(b)),
            views == tray_menu_spec(),
            forall|k: int| 0 <= k < i ==> (#[trigger] tray_menu_spec()[k]).3 != menu_id@,
        decreases menu.len() - i,
    {
        assert(views[i as int] == tray_binding_view(menu@[i as int]));
        if text_eq(menu[i].menu_id, menu_id) {
            return Some(item_action(menu[i].item, menu[i].event));
        }
        i = i + 1;
    }
    None
}

/// What a click on the Dock menu item with `menu_id` does: the action of
/// the tray item it mirrors; `None` for an id the Dock menu does not hold.
pub fn dock_menu_action(menu_id: &str) -> (r: Option<AppAction>)
    ensures
        match r {
            Some(a) => exists|i: int|
                0 <= i < 5 && (#[trigger] dock_menu_ids()[i]) == menu_id@ && action_view(a)
                    == menu_item_action(dock_tray_spec()[i].0, dock_tray_spec()[i].2),
            None => forall|i: int| 0 <= i < 5 ==> (#[trigger] dock_menu_ids()[i]) != menu_id@,
        },
{
    let menu = default_context_menu();
    let mut i: usize = 0;
    while i < menu.len()
        invariant
            i <= menu.len(),
            menu@.len() == 5,
            forall|j: int|
                0 <= j < 5 ==> tray_binding_view(#[trigger] menu@[j].tray) == dock_tray_spec()[j]
                    && menu@[j].menu_id@ == dock_menu_ids()[j],
            forall|k: int| 0 <= k < i ==> (#[trigger] dock_menu_ids()[k]) != menu_id@,
        decreases menu.len() - i,
    {
        let b: &DockMenuBinding = &menu[i];
        assert(tray_binding_view(menu@[i as int].tray) == dock_tray_spec()[i as int]);
        if text_eq(b.menu_id, menu_id) {
            return Some(item_action(b.tray.item, b.tray.event));
        }
        i = i + 1;
    }
    None
}

/// A Finder drag over the Dock.
#[derive(Debug, Clone, Copy, PartialEq, Eq, Structural)]
pub enum DragPhase {
    Enter,
    Over,
    Leave,
    /// The files were dropped; the number of Captures the drop saved.
    Dropped(usize),
}

/// `captures:changed` then `dock:pulse`, once per saved Capture.
pub open spec fn saved_events(n: nat) -> Seq<Seq<char>> {
    Seq::new(2 * n, |i: int| if i % 2 == 0 {
        CAPTURES_CHANGED@
    } else {
        DOCK_PULSE@
    })
}

/// The events emitted for a drag phase, in order: the hover state on
/// enter and leave; for a drop, `captures:changed` and `dock:pulse` for
/// each saved Capture, then the end of the hover state.
pub open spec fn drag_events(p: DragPhase) -> Seq<Seq<char>> {
    match p {
        DragPhase::Enter => seq![DOCK_DRAG_ENTER@],
        DragPhase::Over => Seq::empty(),
        DragPhase::Leave => seq![DOCK_DRAG_LEAVE@],
        DragPhase::Dropped(n) => saved_events(n as nat).push(DOCK_DRAG_LEAVE@),
    }
}

/// Executable `drag_events`.
pub fn drag_phase_events(p: DragPhase) -> (r: Vec<&'static str>)
    requires
        p matches DragPhase::Dropped(n) ==> n <= usize::MAX / 2,
    ensures
        r@.map_values(|e: &'static str| e@) == drag_events(p),
{
    let mut out: Vec<&'static str> = Vec::new();
    match p {
        DragPhase::Enter => {
            out.push(DOCK_DRAG_ENTER);
        },
        DragPhase::Over => {},
        DragPhase::Leave => {
            out.push(DOCK_DRAG_LEAVE);
        },
        DragPhase::Dropped(n) => {
            let mut k: usize = 0;
            while k < n
                invariant
                    k <= n <= usize::MAX / 2,
                    out@.map_values(|e: &'static str| e@) == saved_events(k as nat),
                decreases n - k,
            {
                let ghost before = out@.map_values(|e: &'static str| e@);
                out.push(CAPTURES_CHANGED);
                out.push(DOCK_PULSE);
                assert(out@.map_values(|e: &'static str| e@) =~= before.push(CAPTURES_CHANGED@).push(DOCK_PULSE@));
                assert forall|i: int| 0 <= i < 2 * (k + 1) implies #[trigger] saved_events((k + 1) as nat)[i]
                    == before.push(CAPTURES_CHANGED@).push(DOCK_PULSE@)[i] by {
                    if i < 2 * k {
                        assert(before[i] == saved_events(k as nat)[i]);
                    } else if i == 2 * k {
                        assert(i % 2 == 0);
                    } else {
                        assert(i % 2 == 1);
                    }
                }
                assert(saved_events((k + 1) as nat) =~= before.push(CAPTURES_CHANGED@).push(DOCK_PULSE@));
                k = k + 1;
            }
            out.push(DOCK_DRAG_LEAVE);
        },
    }
    assert(out@.map_values(|e: &'static str| e@) =~= drag_events(p));
    out
}

} // verus!
