//! Keyboard shortcuts of the shell: whether a key press matches a shortcut
//! written as "Modifier+Key", and what a key press asks of the shell before
//! anything reaches the page.

use vstd::prelude::*;
use crate::cache::{to_lowercase, lowercase_of};
use crate::engine::KeyModifiers;
use crate::shell::PaletteCommand;
use crate::text::{chars_of, string_of, str_eq};
use crate::urls::{split_char, split_chars, pieces_view};

verus! {

/// Whether a modifier named in a shortcut (lower-cased) is held; "control"
/// and "ctrl" accept the command key too, and names the shell does not know
/// hold always.
pub open spec fn modifier_holds(name: Seq<char>, m: KeyModifiers) -> bool {
    if name == "control"@ || name == "ctrl"@ {
        m.ctrl || m.command
    } else if name == "shift"@ {
        m.shift
    } else if name == "alt"@ {
        m.alt
    } else {
        true
    }
}

/// A shortcut such as "Control+A" matches a key press when it has at least
/// a modifier and a key, every modifier it names is held, and its key names
/// the pressed key, both compared in lower case.
pub open spec fn shortcut_matches(shortcut: Seq<char>, key_name: Seq<char>, m: KeyModifiers) -> bool {
    let parts = split_char(shortcut, '+');
    &&& parts.len() >= 2
    &&& forall|i: int| 0 <= i < parts.len() - 1 ==> #[trigger] modifier_holds(lowercase_of(parts[i]), m)
    &&& lowercase_of(parts.last()) == lowercase_of(key_name)
}

/// Says whether the key named `key_name` pressed with `modifiers` matches
/// the shortcut.
pub fn matches_shortcut(shortcut: &str, key_name: &str, modifiers: KeyModifiers) -> (r: bool)
    ensures
        r == shortcut_matches(shortcut@, key_name@, modifiers),
        r ==> forall|i: int| 0 <= i < split_char(shortcut@, '+').len() - 1
            && #[trigger] lowercase_of(split_char(shortcut@, '+')[i]) == "alt"@ ==> modifiers.alt,
{
    let chars = chars_of(shortcut);
    let parts = split_chars(chars.as_slice(), '+');
    let ghost pv = pieces_view(parts@);
    if parts.len() < 2 {
        return false;
    }
    let last = parts.len() - 1;
    let mut held = true;
    let mut i: usize = 0;
    while i < last
        invariant
            last == parts@.len() - 1,
            i <= last,
            pv == pieces_view(parts@),
            pv == split_char(shortcut@, '+'),
            held == forall|j: int| 0 <= j < i ==> #[trigger] modifier_holds(lowercase_of(pv[j]), modifiers),
        decreases last - i,
    {
        let part = string_of(parts[i].as_slice());
        let name = to_lowercase(part.as_str());
        let holds = if str_eq(name.as_str(), "control") || str_eq(name.as_str(), "ctrl") {
            modifiers.ctrl || modifiers.command
        } else if str_eq(name.as_str(), "shift") {
            modifiers.shift
        } else if str_eq(name.as_str(), "alt") {
            modifiers.alt
        } else {
            true
        };
        assert(part@ == pv[i as int]);
        proof {
            if !holds {
                assert(!modifier_holds(lowercase_of(pv[i as int]), modifiers));
            }
        }
        held = held && holds;
        i = i + 1;
    }
    let key_part = string_of(parts[last].as_slice());
    let shortcut_key = to_lowercase(key_part.as_str());
    let pressed_key = to_lowercase(key_name);
    assert(key_part@ == pv.last());
    let r = held && str_eq(shortcut_key.as_str(), pressed_key.as_str());
    proof {
        if r {
            law_named_modifiers_are_held(shortcut@, key_name@, modifiers);
        }
    }
    r
}

/// What a shortcut asks of the shell.
#[derive(Debug, Clone, Copy, PartialEq, Eq)]
pub enum ShellShortcut {
    SelectAll,
    Copy,
    Paste,
    OpenFind,
    OpenCommandPalette,
    FocusAddressBar,
    Palette(PaletteCommand),
}

/// A zoom shortcut: one step in, one step out, or back to the default.
#[derive(Debug, Clone, Copy, PartialEq, Eq)]
pub enum ZoomShortcut {
    StepIn,
    StepOut,
    Reset,
}

/// What the shell does with one key event.
#[derive(Debug, Clone, Copy, PartialEq, Eq)]
pub struct KeyDecision {
    pub shortcut: Option<ShellShortcut>,
    pub zoom: Option<ZoomShortcut>,
    pub forward_to_engine: bool,
}

/// The shortcut a key pressed with the control or command key held asks
/// for: the configured select-all, copy and paste shortcuts first, then the
/// fixed keys of the shell.
pub open spec fn shortcut_for(
    select_all: Seq<char>,
    copy: Seq<char>,
    paste: Seq<char>,
    key_name: Seq<char>,
    m: KeyModifiers,
) -> Option<ShellShortcut> {
    if shortcut_matches(select_all, key_name, m) {
        Some(ShellShortcut::SelectAll)
    } else if shortcut_matches(copy, key_name, m) {
        Some(ShellShortcut::Copy)
    } else if shortcut_matches(paste, key_name, m) {
        Some(ShellShortcut::Paste)
    } else if key_name == "F"@ {
        Some(ShellShortcut::OpenFind)
    } else if key_name == "K"@ {
        Some(ShellShortcut::OpenCommandPalette)
    } else if key_name == "L"@ {
        Some(ShellShortcut::FocusAddressBar)
    } else if key_name == "T"@ || key_name == "N"@ {
        Some(ShellShortcut::Palette(PaletteCommand::NewTab))
    } else if key_name == "W"@ {
        Some(ShellShortcut::Palette(PaletteCommand::CloseTab))
    } else if key_name == "R"@ {
        Some(ShellShortcut::Palette(PaletteCommand::Reload))
    } else {
        None
    }
}

/// The zoom a key asks for.
pub open spec fn zoom_for(key_name: Seq<char>) -> Option<ZoomShortcut> {
    if key_name == "Plus"@ || key_name == "Equals"@ {
        Some(ZoomShortcut::StepIn)
    } else if key_name == "Minus"@ {
        Some(ZoomShortcut::StepOut)
    } else if key_name == "Num0"@ {
        Some(ZoomShortcut::Reset)
    } else {
        None
    }
}

/// What a key event comes to: shortcuts act only on a press with the
/// control or command key held; a key event that triggered a shortcut or a
/// zoom does not reach the page, any other does.
pub open spec fn key_decision(
    select_all: Seq<char>,
    copy: Seq<char>,
    paste: Seq<char>,
    key_name: Seq<char>,
    m: KeyModifiers,
    pressed: bool,
) -> KeyDecision {
    let active = pressed && (m.ctrl || m.command);
    let shortcut = if active { shortcut_for(select_all, copy, paste, key_name, m) } else { None };
    let zoom = if active { zoom_for(key_name) } else { None };
    KeyDecision { shortcut, zoom, forward_to_engine: shortcut is None && zoom is None }
}

/// Decides what the shell does with a key event, given the configured
/// select-all, copy and paste shortcuts and the key's name.
pub fn decide_key(
    select_all: &str,
    copy: &str,
    paste: &str,
    key_name: &str,
    modifiers: KeyModifiers,
    pressed: bool,
) -> (r: KeyDecision)
    ensures
        r == key_decision(select_all@, copy@, paste@, key_name@, modifiers, pressed),
{
    let active = pressed && (modifiers.ctrl || modifiers.command);
    let mut shortcut: Option<ShellShortcut> = None;
    if active {
        shortcut = if matches_shortcut(select_all, key_name, modifiers) {
            Some(ShellShortcut::SelectAll)
        } else if matches_shortcut(copy, key_name, modifiers) {
            Some(ShellShortcut::Copy)
        } else if matches_shortcut(paste, key_name, modifiers) {
            Some(ShellShortcut::Paste)
        } else if str_eq(key_name, "F") {
            Some(ShellShortcut::OpenFind)
        } else if str_eq(key_name, "K") {
            Some(ShellShortcut::OpenCommandPalette)
        } else if str_eq(key_name, "L") {
            Some(ShellShortcut::FocusAddressBar)
        } else if str_eq(key_name, "T") || str_eq(key_name, "N") {
            Some(ShellShortcut::Palette(PaletteCommand::NewTab))
        } else if str_eq(key_name, "W") {
            Some(ShellShortcut::Palette(PaletteCommand::CloseTab))
        } else if str_eq(key_name, "R") {
            Some(ShellShortcut::Palette(PaletteCommand::Reload))
        } else {
            None
        };
    }
    let mut zoom: Option<ZoomShortcut> = None;
    if active {
        zoom = if str_eq(key_name, "Plus") || str_eq(key_name, "Equals") {
            Some(ZoomShortcut::StepIn)
        } else if str_eq(key_name, "Minus") {
            Some(ZoomShortcut::StepOut)
        } else if str_eq(key_name, "Num0") {
            Some(ZoomShortcut::Reset)
        } else {
            None
        };
    }
    KeyDecision { shortcut, zoom, forward_to_engine: shortcut.is_none() && zoom.is_none() }
}

/// A shortcut matches a key press only if every modifier it names is held:
/// a part naming "alt" (in any case) needs the Alt key, "shift" the Shift
/// key, and "control" or "ctrl" the Control or Command key.
pub proof fn law_named_modifiers_are_held(shortcut: Seq<char>, key_name: Seq<char>, m: KeyModifiers)
    requires
        shortcut_matches(shortcut, key_name, m),
    ensures
        forall|i: int| 0 <= i < split_char(shortcut, '+').len() - 1 ==> {
            let name = #[trigger] lowercase_of(split_char(shortcut, '+')[i]);
            &&& (name == "alt"@ ==> m.alt)
            &&& (name == "shift"@ ==> m.shift)
            &&& (name == "control"@ || name == "ctrl"@ ==> m.ctrl || m.command)
        },
{
    reveal_strlit("alt");
    reveal_strlit("shift");
    reveal_strlit("control");
    reveal_strlit("ctrl");
    assert forall|i: int| 0 <= i < split_char(shortcut, '+').len() - 1 implies {
        let name = #[trigger] lowercase_of(split_char(shortcut, '+')[i]);
        &&& (name == "alt"@ ==> m.alt)
        &&& (name == "shift"@ ==> m.shift)
        &&& (name == "control"@ || name == "ctrl"@ ==> m.ctrl || m.command)
    } by {
        let name = lowercase_of(split_char(shortcut, '+')[i]);
        assert(modifier_holds(name, m));
        assert("alt"@ != "control"@ && "alt"@ != "ctrl"@ && "shift"@ != "control"@ && "shift"@ != "ctrl"@ && "alt"@ != "shift"@) by {
            assert("alt"@[0] != "control"@[0]);
            assert("shift"@[0] != "ctrl"@[0]);
            assert("alt"@[0] != "shift"@[0]);
        }
    }
}

} // verus!
