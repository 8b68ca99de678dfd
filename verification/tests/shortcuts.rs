use brazen::engine::KeyModifiers;
use brazen::shell::PaletteCommand;
use brazen::shortcuts::{decide_key, matches_shortcut, KeyDecision, ShellShortcut, ZoomShortcut};

fn ctrl() -> KeyModifiers {
    KeyModifiers { alt: false, ctrl: true, shift: false, command: false }
}

#[test]
fn shortcut_matching_is_case_insensitive() {
    assert!(matches_shortcut("Control+A", "A", ctrl()));
    assert!(matches_shortcut("ctrl+a", "A", ctrl()));
    let command = KeyModifiers { alt: false, ctrl: false, shift: false, command: true };
    assert!(matches_shortcut("Control+C", "C", command));
    assert!(!matches_shortcut("Control+Shift+A", "A", ctrl()));
    assert!(!matches_shortcut("A", "A", ctrl()));
    assert!(!matches_shortcut("Control+A", "B", ctrl()));
    assert!(matches_shortcut("Hyper+A", "A", KeyModifiers { alt: false, ctrl: false, shift: false, command: false }));
}

#[test]
fn configured_shortcuts_come_before_fixed_keys() {
    let d = decide_key("Control+A", "Control+C", "Control+V", "C", ctrl(), true);
    assert_eq!(d, KeyDecision { shortcut: Some(ShellShortcut::Copy), zoom: None, forward_to_engine: false });
    let d = decide_key("Control+A", "Control+C", "Control+R", "R", ctrl(), true);
    assert_eq!(d.shortcut, Some(ShellShortcut::Paste));
    let d = decide_key("Control+A", "Control+C", "Control+V", "T", ctrl(), true);
    assert_eq!(d.shortcut, Some(ShellShortcut::Palette(PaletteCommand::NewTab)));
    let d = decide_key("Control+A", "Control+C", "Control+V", "L", ctrl(), true);
    assert_eq!(d.shortcut, Some(ShellShortcut::FocusAddressBar));
}

#[test]
fn zoom_keys_and_plain_keys() {
    let d = decide_key("Control+A", "Control+C", "Control+V", "Minus", ctrl(), true);
    assert_eq!(d, KeyDecision { shortcut: None, zoom: Some(ZoomShortcut::StepOut), forward_to_engine: false });
    let d = decide_key("Control+A", "Control+C", "Control+V", "Equals", ctrl(), true);
    assert_eq!(d.zoom, Some(ZoomShortcut::StepIn));
    let plain = KeyModifiers { alt: false, ctrl: false, shift: false, command: false };
    let d = decide_key("Control+A", "Control+C", "Control+V", "A", plain, true);
    assert_eq!(d, KeyDecision { shortcut: None, zoom: None, forward_to_engine: true });
    let d = decide_key("Control+A", "Control+C", "Control+V", "A", ctrl(), false);
    assert!(d.forward_to_engine);
}
