//! The menubar (Tray) menu registry: label, emitted event and menu id of
//! each item, in visual order; and the SVG glyph of each item, drawn in
//! the stroke colour of the menubar's appearance. Rasterising the glyphs
//! is done by the application.

use vstd::prelude::*;
use crate::text::{chars_of, string_of};

verus! {

/// Closed set of tray menu intents.
#[derive(Debug, Clone, Copy, PartialEq, Eq, Hash, Structural)]
pub enum TrayMenuItem {
    OpenComposer,
    OpenInbox,
    OpenArchive,
    OpenSettings,
    Quit,
}

/// One row of the menu registry. `menu_id` is the id the menu builder
/// reports back when the item is clicked.
#[derive(Debug, Clone, PartialEq, Eq)]
pub struct TrayMenuBinding {
    pub item: TrayMenuItem,
    pub label: &'static str,
    pub event: &'static str,
    pub menu_id: &'static str,
}

/// The view of a binding.
pub open spec fn tray_binding_view(b: TrayMenuBinding) -> (TrayMenuItem, Seq<char>, Seq<char>, Seq<char>) {
    (b.item, b.label@, b.event@, b.menu_id@)
}

/// The menu as (item, label, event, menu id), in visual order.
pub open spec fn tray_menu_spec() -> Seq<(TrayMenuItem, Seq<char>, Seq<char>, Seq<char>)> {
    seq![
        (TrayMenuItem::OpenComposer, "Open Composer"@, "open_composer"@, "tray.open_composer"@),
        (TrayMenuItem::OpenInbox, "Open Inbox"@, "tray:open_inbox"@, "tray.open_inbox"@),
        (TrayMenuItem::Quit, "Quit"@, "tray:quit"@, "tray.quit"@),
    ]
}

/// A copy of a binding.
pub fn copy_tray_binding(b: &TrayMenuBinding) -> (r: TrayMenuBinding)
    ensures
        r == *b,
{
    TrayMenuBinding { item: b.item, label: b.label, event: b.event, menu_id: b.menu_id }
}

/// The menu in visual order: Open Composer, Open Inbox, Quit.
pub fn default_menu() -> (r: Vec<TrayMenuBinding>)
    ensures
        r@.map_values(|b: TrayMenuBinding| tray_binding_view(b)) == tray_menu_spec(),
{
    let r = vec![
        TrayMenuBinding {
            item: TrayMenuItem::OpenComposer,
            label: "Open Composer",
            event: "open_composer",
            menu_id: "tray.open_composer",
        },
        TrayMenuBinding {
            item: TrayMenuItem::OpenInbox,
            label: "Open Inbox",
            event: "tray:open_inbox",
            menu_id: "tray.open_inbox",
        },
        TrayMenuBinding {
            item: TrayMenuItem::Quit,
            label: "Quit",
            event: "tray:quit",
            menu_id: "tray.quit",
        },
    ];
    assert(r@.map_values(|b: TrayMenuBinding| tray_binding_view(b)) =~= tray_menu_spec());
    r
}

/// The keyboard hint shown next to a tray item.
pub open spec fn accelerator_spec(item: TrayMenuItem) -> Seq<char> {
    match item {
        TrayMenuItem::OpenComposer => "Ctrl+Alt+Cmd+Space"@,
        TrayMenuItem::OpenInbox => "Ctrl+Alt+Cmd+I"@,
        TrayMenuItem::OpenArchive => "Ctrl+Alt+Cmd+A"@,
        TrayMenuItem::OpenSettings => ""@,
        TrayMenuItem::Quit => "Cmd+Q"@,
    }
}

/// The keyboard hint shown next to a menu item: the global shortcut of
/// the Composer, Inbox and Archive, `Cmd+Q` for Quit, none (empty) for
/// Settings.
pub fn tray_menu_item_accelerator(item: TrayMenuItem) -> (r: &'static str)
    ensures
        r@ == accelerator_spec(item),
{
    match item {
        TrayMenuItem::OpenComposer => "Ctrl+Alt+Cmd+Space",
        TrayMenuItem::OpenInbox => "Ctrl+Alt+Cmd+I",
        TrayMenuItem::OpenArchive => "Ctrl+Alt+Cmd+A",
        TrayMenuItem::OpenSettings => "",
        TrayMenuItem::Quit => "Cmd+Q",
    }
}

// ---------------------------------------------------------------------------
// Glyphs
// ---------------------------------------------------------------------------

/// The placeholder for the stroke colour in the glyph templates.
pub const STROKE_PLACEHOLDER: &'static str = "{STROKE}";

/// The brain glyph of the tray icon itself (drawn as a template image).
pub const TRAY_ICON_SVG: &'static str = r##"<svg xmlns="http://www.w3.org/2000/svg" viewBox="0 0 24 24" fill="none" stroke="black" stroke-width="2" stroke-linecap="round" stroke-linejoin="round"><path d="M12 5a3 3 0 1 0-5.997.125 4 4 0 0 0-2.526 5.77 4 4 0 0 0 .556 6.588A4 4 0 1 0 12 18Z"/><path d="M9 13a4.5 4.5 0 0 0 3-4"/><path d="M6.003 5.125A3 3 0 0 0 6.401 6.5"/><path d="M3.477 10.896a4 4 0 0 1 .585-.396"/><path d="M6 18a4 4 0 0 1-1.967-.516"/><path d="M12 13h4"/><path d="M12 18h6a2 2 0 0 1 2 2v1"/><path d="M12 8h8"/><path d="M16 8V5a2 2 0 0 1 2-2"/><circle cx="16" cy="13" r=".5" fill="black"/><circle cx="18" cy="3" r=".5" fill="black"/><circle cx="20" cy="21" r=".5" fill="black"/><circle cx="20" cy="8" r=".5" fill="black"/></svg>"##;

/// The glyph of Open Composer.
pub const SQUARE_PEN_SVG: &'static str = r##"<svg xmlns="http://www.w3.org/2000/svg" viewBox="0 0 24 24" fill="none" stroke="{STROKE}" stroke-width="2" stroke-linecap="round" stroke-linejoin="round"><path d="M12 3H5a2 2 0 0 0-2 2v14a2 2 0 0 0 2 2h14a2 2 0 0 0 2-2v-7"/><path d="M18.375 2.625a1 1 0 0 1 3 3l-9.013 9.014a2 2 0 0 1-.853.505l-2.873.84a.5.5 0 0 1-.62-.62l.84-2.873a2 2 0 0 1 .506-.852z"/></svg>"##;

/// The glyph of Open Inbox.
pub const INBOX_SVG: &'static str = r##"<svg xmlns="http://www.w3.org/2000/svg" viewBox="0 0 24 24" fill="none" stroke="{STROKE}" stroke-width="2" stroke-linecap="round" stroke-linejoin="round"><polyline points="22 12 16 12 14 15 10 15 8 12 2 12"/><path d="M5.45 5.11 2 12v6a2 2 0 0 0 2 2h16a2 2 0 0 0 2-2v-6l-3.45-6.89A2 2 0 0 0 16.76 4H7.24a2 2 0 0 0-1.79 1.11z"/></svg>"##;

/// The glyph of Open Archive.
pub const ARCHIVE_SVG: &'static str = r##"<svg xmlns="http://www.w3.org/2000/svg" viewBox="0 0 24 24" fill="none" stroke="{STROKE}" stroke-width="2" stroke-linecap="round" stroke-linejoin="round"><rect width="20" height="5" x="2" y="3" rx="1"/><path d="M4 8v11a2 2 0 0 0 2 2h12a2 2 0 0 0 2-2V8"/><path d="M10 12h4"/></svg>"##;

/// The glyph of Settings.
pub const SETTINGS_SVG: &'static str = r##"<svg xmlns="http://www.w3.org/2000/svg" viewBox="0 0 24 24" fill="none" stroke="{STROKE}" stroke-width="2" stroke-linecap="round" stroke-linejoin="round"><path d="M20 7h-9"/><path d="M14 17H5"/><circle cx="17" cy="17" r="3"/><circle cx="7" cy="7" r="3"/></svg>"##;

/// The glyph of Quit.
pub const X_SVG: &'static str = r##"<svg xmlns="http://www.w3.org/2000/svg" viewBox="0 0 24 24" fill="none" stroke="{STROKE}" stroke-width="2" stroke-linecap="round" stroke-linejoin="round"><path d="M18 6 6 18"/><path d="m6 6 12 12"/></svg>"##;

/// The glyph template of an item.
pub open spec fn item_template(item: TrayMenuItem) -> Seq<char> {
    match item {
        TrayMenuItem::OpenComposer => SQUARE_PEN_SVG@,
        TrayMenuItem::OpenInbox => INBOX_SVG@,
        TrayMenuItem::OpenArchive => ARCHIVE_SVG@,
        TrayMenuItem::OpenSettings => SETTINGS_SVG@,
        TrayMenuItem::Quit => X_SVG@,
    }
}

/// `s` with every occurrence of `p` replaced by `w`, left to right: what
/// `str::replace` gives for a non-empty `p`; an empty `p` leaves `s` as
/// it is.
pub open spec fn replace_all(s: Seq<char>, p: Seq<char>, w: Seq<char>) -> Seq<char>
    decreases s.len(),
{
    if s.len() == 0 || p.len() == 0 {
        s
    } else if p.is_prefix_of(s) {
        w + replace_all(s.skip(p.len() as int), p, w)
    } else {
        seq![s[0]] + replace_all(s.drop_first(), p, w)
    }
}

/// `p` occurs in `s`.
pub open spec fn occurs_in(p: Seq<char>, s: Seq<char>) -> bool {
    exists|i: int| 0 <= i <= s.len() - p.len() && #[trigger] s.subrange(i, i + p.len()) == p
}

/// `p` occurs in `v` at `i`.
fn occurs_at(v: &Vec<char>, p: &Vec<char>, i: usize) -> (r: bool)
    requires
        i <= v.len(),
    ensures
        r == (i + p.len() <= v.len() && v@.subrange(i as int, i + p.len()) == p@),
{
    if p.len() > v.len() - i {
        return false;
    }
    let mut k: usize = 0;
    while k < p.len()
        invariant
            k <= p.len(),
            i + p.len() <= v.len(),
            forall|j: int| 0 <= j < k ==> v@[i + j] == p@[j],
        decreases p.len() - k,
    {
        if v[i + k] != p[k] {
            assert(v@.subrange(i as int, i + p.len())[k as int] != p@[k as int]);
            return false;
        }
        k = k + 1;
    }
    assert(v@.subrange(i as int, i + p.len()) =~= p@);
    true
}

/// Executable `replace_all`.
pub fn replace_text(s: &str, p: &str, w: &str) -> (r: String)
    ensures
        r@ == replace_all(s@, p@, w@),
{
    let v = chars_of(s);
    let pv = chars_of(p);
    let wv = chars_of(w);
    if pv.len() == 0 {
        return string_of(&v);
    }
    let mut out: Vec<char> = Vec::new();
    let mut i: usize = 0;
    assert(v@.skip(0) =~= v@);
    while i < v.len()
        invariant
            i <= v.len(),
            pv.len() > 0,
            pv@ == p@,
            wv@ == w@,
            out@ + replace_all(v@.skip(i as int), pv@, wv@) == replace_all(v@, pv@, wv@),
        decreases v.len() - i,
    {
        let ghost rest = v@.skip(i as int);
        if occurs_at(&v, &pv, i) {
            assert(pv@.is_prefix_of(rest)) by {
                assert(rest.subrange(0, pv@.len() as int) =~= v@.subrange(i as int, i + pv.len()));
            }
            assert(rest.skip(pv@.len() as int) =~= v@.skip(i + pv.len()));
            let mut k: usize = 0;
            let ghost before = out@;
            while k < wv.len()
                invariant
                    k <= wv.len(),
                    out@ == before + wv@.take(k as int),
                decreases wv.len() - k,
            {
                out.push(wv[k]);
                k = k + 1;
                assert(out@ =~= before + wv@.take(k as int));
            }
            assert(wv@.take(wv.len() as int) =~= wv@);
            assert(out@ + replace_all(v@.skip(i + pv.len()), pv@, wv@) =~= before + replace_all(rest, pv@, wv@));
            i = i + pv.len();
        } else {
            assert(!pv@.is_prefix_of(rest)) by {
                if pv@.is_prefix_of(rest) {
                    assert(rest.subrange(0, pv@.len() as int) =~= v@.subrange(i as int, i + pv.len()));
                }
            }
            assert(rest.drop_first() =~= v@.skip(i + 1));
            let ghost before = out@;
            out.push(v[i]);
            assert(out@ + replace_all(v@.skip(i + 1), pv@, wv@) =~= before + replace_all(rest, pv@, wv@));
            i = i + 1;
        }
    }
    assert(v@.skip(v.len() as int) =~= Seq::<char>::empty());
    assert(out@ =~= replace_all(v@, pv@, wv@));
    string_of(&out)
}

/// The glyph of a menu item in `stroke` colour.
pub fn tray_menu_item_svg(item: TrayMenuItem, stroke: &str) -> (r: String)
    ensures
        r@ == replace_all(item_template(item), STROKE_PLACEHOLDER@, stroke@),
{
    let template = match item {
        TrayMenuItem::OpenComposer => SQUARE_PEN_SVG,
        TrayMenuItem::OpenInbox => INBOX_SVG,
        TrayMenuItem::OpenArchive => ARCHIVE_SVG,
        TrayMenuItem::OpenSettings => SETTINGS_SVG,
        TrayMenuItem::Quit => X_SVG,
    };
    replace_text(template, STROKE_PLACEHOLDER, stroke)
}

/// Whether `p` occurs in `s`.
pub fn contains_text(s: &str, p: &str) -> (r: bool)
    ensures
        r == occurs_in(p@, s@),
{
    let v = chars_of(s);
    let pv = chars_of(p);
    if pv.len() > v.len() {
        return false;
    }
    let last = v.len() - pv.len();
    let mut i: usize = 0;
    loop
        invariant
            i <= last,
            last == v.len() - pv.len(),
            v@ == s@,
            pv@ == p@,
            forall|j: int| 0 <= j < i ==> #[trigger] v@.subrange(j, j + pv.len()) != pv@,
        ensures
            forall|j: int| 0 <= j <= last ==> #[trigger] v@.subrange(j, j + pv.len()) != pv@,
        decreases last - i,
    {
        if occurs_at(&v, &pv, i) {
            return true;
        }
        if i == last {
            break;
        }
        i = i + 1;
    }
    false
}

/// The menubar is dark when the name of its appearance contains `Dark`,
/// and when the name cannot be read.
pub open spec fn is_dark_appearance(name: Option<Seq<char>>) -> bool {
    match name {
        Some(n) => occurs_in("Dark"@, n),
        None => true,
    }
}

/// The stroke colour of menu glyphs: white on a dark menubar, black on a
/// light one, from the name of the current appearance (`None` when it
/// cannot be read).
pub fn current_menu_stroke(appearance: Option<&str>) -> (r: &'static str)
    ensures
        r@ == (if is_dark_appearance(
            match appearance {
                Some(a) => Some(a@),
                None => None,
            },
        ) {
            "white"@
        } else {
            "black"@
        }),
{
    let dark = match appearance {
        Some(a) => contains_text(a, "Dark"),
        None => true,
    };
    if dark {
        "white"
    } else {
        "black"
    }
}

} // verus!
