//! The key bindings of the explorer: what each key press asks for.
use vstd::prelude::*;

verus! {

/// A key, as far as the bindings tell keys apart.
#[derive(Clone, Copy, Debug, PartialEq, Eq, Structural)]
pub enum Key {
    Esc,
    Left,
    Right,
    Up,
    Down,
    Char(char),
    /// Any other key.
    Other,
}

/// A key event: the key, whether Control is the only modifier held, and
/// whether the event is the key's release.
#[derive(Clone, Copy, Debug, PartialEq, Eq, Structural)]
pub struct KeyInput {
    pub code: Key,
    pub ctrl_only: bool,
    pub release: bool,
}

/// What a key event asks for.
#[derive(Clone, Copy, Debug, PartialEq, Eq, Structural)]
pub enum KeyAction {
    /// Nothing: the event is a release.
    Ignore,
    /// Leave the explorer.
    Quit,
    /// Scroll the output with the event's key.
    Scroll,
    /// Run the query in the editor.
    RunQuery,
    /// Switch wrapping of the output on or off.
    ToggleWrap,
    /// Hand the event to the query editor.
    Edit,
}

/// The keys that scroll the output: the arrows and `h`, `j`, `k`, `l`.
pub open spec fn is_scroll_key(k: Key) -> bool {
    match k {
        Key::Left | Key::Right | Key::Up | Key::Down => true,
        Key::Char(c) => c == 'k' || c == 'j' || c == 'h' || c == 'l',
        _ => false,
    }
}

/// What a key event asks for: a release nothing; Escape quits; with Control
/// alone held, a scroll key scrolls, `r` or `R` runs the query and `w` or `W`
/// switches wrapping; every other event goes to the editor.
pub open spec fn spec_key_action(k: KeyInput) -> KeyAction {
    if k.release {
        KeyAction::Ignore
    } else if k.code == Key::Esc {
        KeyAction::Quit
    } else if k.ctrl_only && is_scroll_key(k.code) {
        KeyAction::Scroll
    } else if k.ctrl_only && (k.code == Key::Char('r') || k.code == Key::Char('R')) {
        KeyAction::RunQuery
    } else if k.ctrl_only && (k.code == Key::Char('w') || k.code == Key::Char('W')) {
        KeyAction::ToggleWrap
    } else {
        KeyAction::Edit
    }
}

/// Keys typed without Control reach the query editor: a pressed key other
/// than Escape, with Control not held alone, is handed to the editor; only
/// Escape quits, and releases do nothing.
pub proof fn law_plain_keys_reach_editor(k: KeyInput)
    ensures
        !k.release && !k.ctrl_only && k.code != Key::Esc ==> spec_key_action(k) == KeyAction::Edit,
        !k.release && k.code == Key::Esc ==> spec_key_action(k) == KeyAction::Quit,
        k.release ==> spec_key_action(k) == KeyAction::Ignore,
        spec_key_action(k) == KeyAction::Scroll ==> k.ctrl_only && !k.release && (k.code
            == Key::Left || k.code == Key::Right || k.code == Key::Up || k.code == Key::Down
            || k.code == Key::Char('h') || k.code == Key::Char('j') || k.code == Key::Char('k')
            || k.code == Key::Char('l')),
        spec_key_action(k) == KeyAction::RunQuery ==> k.ctrl_only && !k.release && (k.code
            == Key::Char('r') || k.code == Key::Char('R')),
        spec_key_action(k) == KeyAction::ToggleWrap ==> k.ctrl_only && !k.release && (k.code
            == Key::Char('w') || k.code == Key::Char('W')),
{
}

/// What a key event asks for.
pub fn key_action(key: &KeyInput) -> (r: KeyAction)
    ensures
        r == spec_key_action(*key),
        !key.release && !key.ctrl_only && key.code != Key::Esc ==> r == KeyAction::Edit,
        !key.release && key.code == Key::Esc ==> r == KeyAction::Quit,
        key.release ==> r == KeyAction::Ignore,
        r == KeyAction::Scroll ==> key.ctrl_only && !key.release && (key.code == Key::Left
            || key.code == Key::Right || key.code == Key::Up || key.code == Key::Down || key.code
            == Key::Char('h') || key.code == Key::Char('j') || key.code == Key::Char('k')
            || key.code == Key::Char('l')),
        r == KeyAction::RunQuery ==> key.ctrl_only && !key.release && (key.code == Key::Char('r')
            || key.code == Key::Char('R')),
        r == KeyAction::ToggleWrap ==> key.ctrl_only && !key.release && (key.code == Key::Char(
            'w',
        ) || key.code == Key::Char('W')),
{
    proof {
        law_plain_keys_reach_editor(*key);
    }
    if key.release {
        return KeyAction::Ignore;
    }
    match key.code {
        Key::Esc => KeyAction::Quit,
        Key::Left | Key::Right | Key::Up | Key::Down | Key::Char('k') | Key::Char('j')
        | Key::Char('h') | Key::Char('l') => {
            if key.ctrl_only {
                KeyAction::Scroll
            } else {
                KeyAction::Edit
            }
        },
        Key::Char('r') | Key::Char('R') => {
            if key.ctrl_only {
                KeyAction::RunQuery
            } else {
                KeyAction::Edit
            }
        },
        Key::Char('w') | Key::Char('W') => {
            if key.ctrl_only {
                KeyAction::ToggleWrap
            } else {
                KeyAction::Edit
            }
        },
        _ => KeyAction::Edit,
    }
}

} // verus!
