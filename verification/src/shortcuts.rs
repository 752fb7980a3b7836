//! The global-shortcut registry: which accelerator triggers each intent
//! and which event the app emits when it fires. The OS binding itself is
//! made by the application.

use vstd::prelude::*;

verus! {

/// Closed set of shortcut intents.
#[derive(Debug, Clone, Copy, PartialEq, Eq, Hash, Structural)]
pub enum ShortcutId {
    OpenComposer,
    CaptureClipboard,
    OpenInbox,
    OpenArchive,
    OpenRecording,
}

/// One row of the registry.
#[derive(Debug, Clone, PartialEq, Eq)]
pub struct ShortcutBinding {
    pub id: ShortcutId,
    pub accelerator: &'static str,
    pub event: &'static str,
}

/// The registry as (intent, accelerator, event) triples, in order.
pub open spec fn registry_spec() -> Seq<(ShortcutId, Seq<char>, Seq<char>)> {
    seq![
        (ShortcutId::OpenComposer, "Ctrl+Alt+Cmd+Space"@, "open_composer"@),
        (ShortcutId::CaptureClipboard, "Ctrl+Alt+Cmd+C"@, "capture_clipboard"@),
        (ShortcutId::OpenInbox, "Ctrl+Alt+Cmd+I"@, "open_inbox"@),
        (ShortcutId::OpenArchive, "Ctrl+Alt+Cmd+A"@, "open_archive"@),
        (ShortcutId::OpenRecording, "Ctrl+Alt+Cmd+R"@, "open_recording"@),
    ]
}

/// The view of a binding.
pub open spec fn binding_view(b: ShortcutBinding) -> (ShortcutId, Seq<char>, Seq<char>) {
    (b.id, b.accelerator@, b.event@)
}

/// The registry: Composer (`Ctrl+Alt+Cmd+Space`), clipboard capture
/// (`Ctrl+Alt+Cmd+C`), Inbox (`Ctrl+Alt+Cmd+I`), Archive
/// (`Ctrl+Alt+Cmd+A`), Recording (`Ctrl+Alt+Cmd+R`).
pub fn default_registry() -> (r: Vec<ShortcutBinding>)
    ensures
        r@.map_values(|b: ShortcutBinding| binding_view(b)) == registry_spec(),
{
    let r = vec![
        ShortcutBinding {
            id: ShortcutId::OpenComposer,
            accelerator: "Ctrl+Alt+Cmd+Space",
            event: "open_composer",
        },
        ShortcutBinding {
            id: ShortcutId::CaptureClipboard,
            accelerator: "Ctrl+Alt+Cmd+C",
            event: "capture_clipboard",
        },
        ShortcutBinding {
            id: ShortcutId::OpenInbox,
            accelerator: "Ctrl+Alt+Cmd+I",
            event: "open_inbox",
        },
        ShortcutBinding {
            id: ShortcutId::OpenArchive,
            accelerator: "Ctrl+Alt+Cmd+A",
            event: "open_archive",
        },
        ShortcutBinding {
            id: ShortcutId::OpenRecording,
            accelerator: "Ctrl+Alt+Cmd+R",
            event: "open_recording",
        },
    ];
    assert(r@.map_values(|b: ShortcutBinding| binding_view(b)) =~= registry_spec());
    r
}

/// Every intent has exactly one binding.
pub proof fn lemma_registry_covers_each_intent_once(id: ShortcutId)
    ensures
        exists|i: int| 0 <= i < registry_spec().len() && (#[trigger] registry_spec()[i]).0 == id,
        forall|i: int, j: int|
            0 <= i < registry_spec().len() && 0 <= j < registry_spec().len() && registry_spec()[i].0
                == registry_spec()[j].0 ==> i == j,
{
    match id {
        ShortcutId::OpenComposer => assert(registry_spec()[0].0 == id),
        ShortcutId::CaptureClipboard => assert(registry_spec()[1].0 == id),
        ShortcutId::OpenInbox => assert(registry_spec()[2].0 == id),
        ShortcutId::OpenArchive => assert(registry_spec()[3].0 == id),
        ShortcutId::OpenRecording => assert(registry_spec()[4].0 == id),
    }
}

} // verus!
