//! Pointer and keyboard events of the window, turned into engine input.
//!
//! Pointer positions and the window's scale factor are floating point and
//! are applied by the caller; this module decides which engine events a
//! window event becomes.
use vstd::prelude::*;
use vstd::string::StrSliceExecFns;
use vstd::utf8::encode_utf8;
use vstd::utf8::char_is_scalar;

verus! {

/// The phase of a pointer event in the window.
#[derive(Clone, Copy, Debug, PartialEq, Eq, Structural)]
pub enum PointerKind {
    Down,
    Up,
    Move,
    /// Any other phase (such as a cancelled press).
    Other,
}

/// The button a pointer event in the window concerns.
#[derive(Clone, Copy, Debug, PartialEq, Eq, Structural)]
pub enum PointerButton {
    Left,
    Right,
    Middle,
    /// Any other button, or none.
    Other,
}

/// A mouse button as the engine knows it.
#[derive(Clone, Copy, Debug, PartialEq, Eq, Structural)]
pub enum MouseButton {
    Left,
    Right,
    Middle,
}

/// An engine input event at the pointer's position.
#[derive(Clone, Copy, Debug, PartialEq, Eq, Structural)]
pub enum PointerAction {
    /// The pointer moved to the position.
    MoveTo,
    /// The button went down at the position.
    Press(MouseButton),
    /// The button came up at the position.
    Release(MouseButton),
}

/// The engine button for a window button: unknown buttons count as left.
pub open spec fn spec_mouse_button(button: PointerButton) -> MouseButton {
    match button {
        PointerButton::Left => MouseButton::Left,
        PointerButton::Right => MouseButton::Right,
        PointerButton::Middle => MouseButton::Middle,
        PointerButton::Other => MouseButton::Left,
    }
}

/// The engine events, in order, for one pointer event: a press first moves
/// the pointer there, a release and a move are one event each, and other
/// phases send nothing.
pub open spec fn spec_pointer_actions(kind: PointerKind, button: PointerButton) -> Seq<
    PointerAction,
> {
    match kind {
        PointerKind::Down => seq![
            PointerAction::MoveTo,
            PointerAction::Press(spec_mouse_button(button)),
        ],
        PointerKind::Up => seq![PointerAction::Release(spec_mouse_button(button))],
        PointerKind::Move => seq![PointerAction::MoveTo],
        PointerKind::Other => Seq::empty(),
    }
}

/// `engine` is the engine button of the same name as the window's
/// `window` button; a button the engine does not know stands for the left
/// one.
pub open spec fn same_button(window: PointerButton, engine: MouseButton) -> bool {
    ||| window == PointerButton::Left && engine == MouseButton::Left
    ||| window == PointerButton::Right && engine == MouseButton::Right
    ||| window == PointerButton::Middle && engine == MouseButton::Middle
    ||| window == PointerButton::Other && engine == MouseButton::Left
}

/// Every window button reaches the engine as the button of the same name,
/// and every press and release a pointer event becomes carries that button:
/// a press is a move to the position and then the press, a release is the
/// release alone, a move is a move alone.
pub proof fn lemma_pointer_events_keep_button(kind: PointerKind, button: PointerButton)
    ensures
        same_button(button, spec_mouse_button(button)),
        kind == PointerKind::Down ==> ({
            let actions = spec_pointer_actions(kind, button);
            &&& actions.len() == 2
            &&& actions[0] == PointerAction::MoveTo
            &&& (actions[1] matches PointerAction::Press(b) && same_button(button, b))
        }),
        kind == PointerKind::Up ==> ({
            let actions = spec_pointer_actions(kind, button);
            &&& actions.len() == 1
            &&& (actions[0] matches PointerAction::Release(b) && same_button(button, b))
        }),
        kind == PointerKind::Move ==> spec_pointer_actions(kind, button) == seq![
            PointerAction::MoveTo,
        ],
        kind == PointerKind::Other ==> spec_pointer_actions(kind, button).len() == 0,
{
}

/// The engine button for a window button.
pub fn mouse_button(button: PointerButton) -> (res: MouseButton)
    ensures
        res == spec_mouse_button(button),
        button == PointerButton::Left ==> res == MouseButton::Left,
        button == PointerButton::Right ==> res == MouseButton::Right,
        button == PointerButton::Middle ==> res == MouseButton::Middle,
        button == PointerButton::Other ==> res == MouseButton::Left,
{
    match button {
        PointerButton::Left => MouseButton::Left,
        PointerButton::Right => MouseButton::Right,
        PointerButton::Middle => MouseButton::Middle,
        PointerButton::Other => MouseButton::Left,
    }
}

/// The engine events, in order, that one pointer event of the window becomes.
pub fn pointer_actions(kind: PointerKind, button: PointerButton) -> (res: Vec<PointerAction>)
    ensures
        res@ == spec_pointer_actions(kind, button),
        forall|i: int|
            0 <= i < res@.len() ==> match #[trigger] res@[i] {
                PointerAction::Press(b) => same_button(button, b),
                PointerAction::Release(b) => same_button(button, b),
                PointerAction::MoveTo => true,
            },
{
    let engine_button = mouse_button(button);
    let mut actions: Vec<PointerAction> = Vec::new();
    match kind {
        PointerKind::Down => {
            actions.push(PointerAction::MoveTo);
            actions.push(PointerAction::Press(engine_button));
        },
        PointerKind::Up => {
            actions.push(PointerAction::Release(engine_button));
        },
        PointerKind::Move => {
            actions.push(PointerAction::MoveTo);
        },
        PointerKind::Other => {},
    }
    assert(actions@ =~= spec_pointer_actions(kind, button));
    actions
}

/// Modifier keys held during a keyboard event of the window.
#[derive(Clone, Copy, Debug, PartialEq, Eq, Structural)]
pub struct ModifierKeys {
    pub alt: bool,
    pub control: bool,
    pub shift: bool,
    pub meta: bool,
}

/// A modifier flag as the engine knows it.
#[derive(Clone, Copy, Debug, PartialEq, Eq, Structural)]
pub enum Modifier {
    Alt,
    Control,
    Shift,
    Meta,
}

/// The engine flags for the keys held, each once, in the order alt,
/// control, shift, meta.
pub open spec fn spec_modifiers(keys: ModifierKeys) -> Seq<Modifier> {
    (if keys.alt {
        seq![Modifier::Alt]
    } else {
        Seq::empty()
    }) + (if keys.control {
        seq![Modifier::Control]
    } else {
        Seq::empty()
    }) + (if keys.shift {
        seq![Modifier::Shift]
    } else {
        Seq::empty()
    }) + (if keys.meta {
        seq![Modifier::Meta]
    } else {
        Seq::empty()
    })
}

/// Each held key gives its own flag, whatever else is held: a flag is in
/// the result exactly when its key is held, and no flag comes twice.
pub proof fn lemma_modifiers_independent(keys: ModifierKeys)
    ensures
        spec_modifiers(keys).contains(Modifier::Alt) <==> keys.alt,
        spec_modifiers(keys).contains(Modifier::Control) <==> keys.control,
        spec_modifiers(keys).contains(Modifier::Shift) <==> keys.shift,
        spec_modifiers(keys).contains(Modifier::Meta) <==> keys.meta,
        spec_modifiers(keys).no_duplicates(),
{
    let m = spec_modifiers(keys);
    let a: Seq<Modifier> = if keys.alt { seq![Modifier::Alt] } else { Seq::empty() };
    let c: Seq<Modifier> = if keys.control { seq![Modifier::Control] } else { Seq::empty() };
    let s: Seq<Modifier> = if keys.shift { seq![Modifier::Shift] } else { Seq::empty() };
    let t: Seq<Modifier> = if keys.meta { seq![Modifier::Meta] } else { Seq::empty() };
    assert(m == a + c + s + t);
    assert forall|x: Modifier| #[trigger] m.contains(x) <==> (a.contains(x) || c.contains(x)
        || s.contains(x) || t.contains(x)) by {
        if m.contains(x) {
            let i = choose|i: int| 0 <= i < m.len() && m[i] == x;
            if i < a.len() {
                assert(a[i] == x);
            } else if i < a.len() + c.len() {
                assert(c[i - a.len()] == x);
            } else if i < a.len() + c.len() + s.len() {
                assert(s[i - a.len() - c.len()] == x);
            } else {
                assert(t[i - a.len() - c.len() - s.len()] == x);
            }
        }
        if a.contains(x) {
            assert(m[0] == x);
        }
        if c.contains(x) {
            assert(m[a.len() as int] == x);
        }
        if s.contains(x) {
            assert(m[(a.len() + c.len()) as int] == x);
        }
        if t.contains(x) {
            assert(m[(a.len() + c.len() + s.len()) as int] == x);
        }
    }
    assert(a.contains(Modifier::Alt) <==> keys.alt) by {
        if keys.alt {
            assert(a[0] == Modifier::Alt);
        }
    }
    assert(c.contains(Modifier::Control) <==> keys.control) by {
        if keys.control {
            assert(c[0] == Modifier::Control);
        }
    }
    assert(s.contains(Modifier::Shift) <==> keys.shift) by {
        if keys.shift {
            assert(s[0] == Modifier::Shift);
        }
    }
    assert(t.contains(Modifier::Meta) <==> keys.meta) by {
        if keys.meta {
            assert(t[0] == Modifier::Meta);
        }
    }
    assert forall|i: int, j: int| 0 <= i < m.len() && 0 <= j < m.len() && i != j implies m[i]
        != m[j] by {
        let ka = a.len() as int;
        let kc = ka + c.len();
        let ks = kc + s.len();
        assert(i < ka ==> m[i] == Modifier::Alt);
        assert(ka <= i < kc ==> m[i] == Modifier::Control);
        assert(kc <= i < ks ==> m[i] == Modifier::Shift);
        assert(ks <= i ==> m[i] == Modifier::Meta);
        assert(j < ka ==> m[j] == Modifier::Alt);
        assert(ka <= j < kc ==> m[j] == Modifier::Control);
        assert(kc <= j < ks ==> m[j] == Modifier::Shift);
        assert(ks <= j ==> m[j] == Modifier::Meta);
    }
}

/// The engine modifier flags set for the keys held.
pub fn convert_modifiers(keys: ModifierKeys) -> (res: Vec<Modifier>)
    ensures
        res@ == spec_modifiers(keys),
        res@.contains(Modifier::Alt) <==> keys.alt,
        res@.contains(Modifier::Control) <==> keys.control,
        res@.contains(Modifier::Shift) <==> keys.shift,
        res@.contains(Modifier::Meta) <==> keys.meta,
        res@.no_duplicates(),
{
    let mut flags: Vec<Modifier> = Vec::new();
    if keys.alt {
        flags.push(Modifier::Alt);
    }
    if keys.control {
        flags.push(Modifier::Control);
    }
    if keys.shift {
        flags.push(Modifier::Shift);
    }
    if keys.meta {
        flags.push(Modifier::Meta);
    }
    assert(flags@ =~= spec_modifiers(keys));
    proof {
        lemma_modifiers_independent(keys);
    }
    flags
}

/// A key with a name rather than a printed character.
#[derive(Clone, Copy, Debug, PartialEq, Eq, Structural)]
pub enum NamedKey {
    Enter,
    Backspace,
    Tab,
    Escape,
    Delete,
    Shift,
    Control,
    Alt,
    Unidentified,
}

/// The key a keyboard event of the window stands for.
#[derive(Clone, Copy, Debug, PartialEq, Eq, Structural)]
pub enum KeyInput {
    Character(char),
    Named(NamedKey),
}

/// The key for the text of a keyboard event: text of exactly one byte (a
/// single ASCII character) is that character; a few names are recognised;
/// anything else, a lone non-ASCII character included, is an unidentified
/// key.
pub open spec fn spec_key_from_text(text: Seq<char>) -> KeyInput {
    if text.len() == 1 && (text[0] as u32) < 0x80 {
        KeyInput::Character(text[0])
    } else if text == "enter"@ || text == "Return"@ {
        KeyInput::Named(NamedKey::Enter)
    } else if text == "backspace"@ || text == "Backspace"@ {
        KeyInput::Named(NamedKey::Backspace)
    } else if text == "tab"@ || text == "Tab"@ {
        KeyInput::Named(NamedKey::Tab)
    } else if text == "escape"@ || text == "Escape"@ {
        KeyInput::Named(NamedKey::Escape)
    } else if text == "Delete"@ {
        KeyInput::Named(NamedKey::Delete)
    } else if text == "Shift"@ {
        KeyInput::Named(NamedKey::Shift)
    } else if text == "Control"@ {
        KeyInput::Named(NamedKey::Control)
    } else if text == "Alt"@ {
        KeyInput::Named(NamedKey::Alt)
    } else {
        KeyInput::Named(NamedKey::Unidentified)
    }
}

/// Text whose UTF-8 encoding is one byte long is exactly a single ASCII
/// character.
pub proof fn lemma_one_byte_text(text: Seq<char>)
    ensures
        (encode_utf8(text).len() == 1) <==> (text.len() == 1 && (text[0] as u32) < 0x80),
{
    if text.len() > 0 {
        let rest = text.drop_first();
        char_is_scalar(text[0]);
        assert(encode_utf8(text) == vstd::utf8::encode_scalar(text[0] as u32) + encode_utf8(rest));
        if rest.len() > 0 {
            char_is_scalar(rest[0]);
            assert(encode_utf8(rest) == vstd::utf8::encode_scalar(rest[0] as u32) + encode_utf8(
                rest.drop_first(),
            ));
        } else {
            assert(encode_utf8(rest).len() == 0);
        }
    }
}

/// Text of exactly one byte is that very character as a key, whatever the
/// character; every other text is a named key.
pub proof fn lemma_one_byte_text_is_character(text: Seq<char>)
    ensures
        encode_utf8(text).len() == 1 ==> spec_key_from_text(text) == KeyInput::Character(text[0]),
        spec_key_from_text(text) matches KeyInput::Character(c) ==> encode_utf8(text).len() == 1
            && text == seq![c],
{
    lemma_one_byte_text(text);
    if spec_key_from_text(text) is Character {
        assert(text =~= seq![text[0]]);
    }
}

/// The names a keyboard event may carry reach the engine as the keys they
/// name, in either spelling the window uses.
pub proof fn lemma_named_keys()
    ensures
        spec_key_from_text("enter"@) == KeyInput::Named(NamedKey::Enter),
        spec_key_from_text("Return"@) == KeyInput::Named(NamedKey::Enter),
        spec_key_from_text("backspace"@) == KeyInput::Named(NamedKey::Backspace),
        spec_key_from_text("Backspace"@) == KeyInput::Named(NamedKey::Backspace),
        spec_key_from_text("tab"@) == KeyInput::Named(NamedKey::Tab),
        spec_key_from_text("Tab"@) == KeyInput::Named(NamedKey::Tab),
        spec_key_from_text("escape"@) == KeyInput::Named(NamedKey::Escape),
        spec_key_from_text("Escape"@) == KeyInput::Named(NamedKey::Escape),
        spec_key_from_text("Delete"@) == KeyInput::Named(NamedKey::Delete),
        spec_key_from_text("Shift"@) == KeyInput::Named(NamedKey::Shift),
        spec_key_from_text("Control"@) == KeyInput::Named(NamedKey::Control),
        spec_key_from_text("Alt"@) == KeyInput::Named(NamedKey::Alt),
{
    reveal_strlit("enter");
    reveal_strlit("Return");
    reveal_strlit("backspace");
    reveal_strlit("Backspace");
    reveal_strlit("tab");
    reveal_strlit("Tab");
    reveal_strlit("escape");
    reveal_strlit("Escape");
    reveal_strlit("Delete");
    reveal_strlit("Shift");
    reveal_strlit("Control");
    reveal_strlit("Alt");
}

/// Whether `text` reads exactly `name`.
fn text_is(text: &String, name: &str) -> (res: bool)
    ensures
        res == (text@ == name@),
{
    *text == name.to_owned()
}

/// The key that the text of a keyboard event stands for.
pub fn key_from_text(text: &str) -> (key: KeyInput)
    ensures
        key == spec_key_from_text(text@),
        text@.len() == 1 && (text@[0] as u32) < 0x80 ==> key == KeyInput::Character(text@[0]),
        key matches KeyInput::Character(c) ==> text@ == seq![c] && (c as u32) < 0x80,
{
    if text.unicode_len() == 1 {
        let c = text.get_char(0);
        if (c as u32) < 0x80 {
            return KeyInput::Character(c);
        }
    }
    let owned = text.to_owned();
    if text_is(&owned, "enter") || text_is(&owned, "Return") {
        KeyInput::Named(NamedKey::Enter)
    } else if text_is(&owned, "backspace") || text_is(&owned, "Backspace") {
        KeyInput::Named(NamedKey::Backspace)
    } else if text_is(&owned, "tab") || text_is(&owned, "Tab") {
        KeyInput::Named(NamedKey::Tab)
    } else if text_is(&owned, "escape") || text_is(&owned, "Escape") {
        KeyInput::Named(NamedKey::Escape)
    } else if text_is(&owned, "Delete") {
        KeyInput::Named(NamedKey::Delete)
    } else if text_is(&owned, "Shift") {
        KeyInput::Named(NamedKey::Shift)
    } else if text_is(&owned, "Control") {
        KeyInput::Named(NamedKey::Control)
    } else if text_is(&owned, "Alt") {
        KeyInput::Named(NamedKey::Alt)
    } else {
        KeyInput::Named(NamedKey::Unidentified)
    }
}

} // verus!
