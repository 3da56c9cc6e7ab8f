//! Keys, and the names that key bindings give them.
use crate::text::{concat_strings, push_char};
use vstd::prelude::*;

verus! {

broadcast use vstd::string::group_string_axioms;

/// A key read from the terminal.
#[derive(Debug, Clone, Copy, PartialEq, Eq, Structural)]
pub enum Input {
    Character(char),
    KeyUp,
    KeyDown,
    KeyLeft,
    KeyRight,
    KeyHome,
    KeyEnd,
    KeyBackspace,
    KeyDC,
    KeyPPage,
    KeyNPage,
    KeySTab,
    KeyBTab,
    /// Any other key.
    Unknown,
}

/// A control character (general category `Cc`), as `char::is_control` says.
pub open spec fn is_control_char(c: char) -> bool {
    (c as u32) < 0x20 || (0x7f <= (c as u32) && (c as u32) < 0xa0)
}

/// The name of a control character: its own name, or `ctrl-` and a letter.
pub open spec fn control_name(c: char) -> Seq<char> {
    if c == '\0' {
        "ctrl-space"@
    } else if c == '\t' {
        "tab"@
    } else if c == '\n' || c == '\r' {
        "enter"@
    } else if c == '\x1b' {
        "esc"@
    } else if c == '\x1f' {
        "ctrl-_"@
    } else if c == '\x7f' || c == '\x08' {
        "backspace"@
    } else if 0x01 <= (c as u32) <= 0x1a {
        "ctrl-"@.push(((c as u32) + 96) as char)
    } else {
        "unknown"@
    }
}

/// The name of a special key, if it has one.
pub open spec fn special_key_name(key: Input) -> Option<Seq<char>> {
    match key {
        Input::KeyUp => Some("up"@),
        Input::KeyDown => Some("down"@),
        Input::KeyLeft => Some("left"@),
        Input::KeyRight => Some("right"@),
        Input::KeyHome => Some("home"@),
        Input::KeyEnd => Some("end"@),
        Input::KeyBackspace => Some("backspace"@),
        Input::KeyDC => Some("delete"@),
        Input::KeyPPage => Some("pageup"@),
        Input::KeyNPage => Some("pagedown"@),
        _ => None,
    }
}

/// The name under which key bindings find `key`: control characters and
/// Shift-Tab ignore Alt; other keys get an `alt-` prefix when Alt is held.
pub open spec fn key_name(key: Input, alt: bool) -> Seq<char> {
    let prefix = if alt {
        "alt-"@
    } else {
        Seq::<char>::empty()
    };
    match key {
        Input::Character(c) => if is_control_char(c) {
            control_name(c)
        } else {
            prefix.push(c)
        },
        Input::KeySTab => "shift-tab"@,
        Input::KeyBTab => "shift-tab"@,
        _ => match special_key_name(key) {
            Some(n) => prefix + n,
            None => if alt {
                prefix
            } else {
                "unknown"@
            },
        },
    }
}

/// Whether `c` is a control character.
pub fn is_control(c: char) -> (r: bool)
    ensures
        r == is_control_char(c),
{
    let u = c as u32;
    u < 0x20 || (0x7f <= u && u < 0xa0)
}

fn control_key_name(c: char) -> (r: String)
    requires
        is_control_char(c),
    ensures
        r@ == control_name(c),
{
    if c == '\0' {
        "ctrl-space".to_string()
    } else if c == '\t' {
        "tab".to_string()
    } else if c == '\n' || c == '\r' {
        "enter".to_string()
    } else if c == '\x1b' {
        "esc".to_string()
    } else if c == '\x1f' {
        "ctrl-_".to_string()
    } else if c == '\x7f' || c == '\x08' {
        "backspace".to_string()
    } else if 0x01 <= (c as u32) && (c as u32) <= 0x1a {
        let mut s = "ctrl-".to_string();
        let code: u8 = ((c as u32) + 96) as u8;
        let letter = code as char;
        assert(code == (c as u32) + 96);
        push_char(&mut s, letter);
        s
    } else {
        "unknown".to_string()
    }
}

/// The name under which key bindings find `key`.
pub fn key_to_string(key: Input, is_alt_pressed: bool) -> (r: String)
    ensures
        r@ == key_name(key, is_alt_pressed),
{
    if let Input::Character(c) = key {
        if is_control(c) {
            return control_key_name(c);
        }
    }
    if let Input::KeySTab = key {
        return "shift-tab".to_string();
    }
    if let Input::KeyBTab = key {
        return "shift-tab".to_string();
    }
    let mut key_str = String::new();
    if is_alt_pressed {
        key_str = "alt-".to_string();
    }
    let name = match key {
        Input::Character(c) => {
            push_char(&mut key_str, c);
            return key_str;
        },
        Input::KeyUp => "up",
        Input::KeyDown => "down",
        Input::KeyLeft => "left",
        Input::KeyRight => "right",
        Input::KeyHome => "home",
        Input::KeyEnd => "end",
        Input::KeyBackspace => "backspace",
        Input::KeyDC => "delete",
        Input::KeyPPage => "pageup",
        Input::KeyNPage => "pagedown",
        _ => {
            if !is_alt_pressed {
                return "unknown".to_string();
            }
            return key_str;
        },
    };
    concat_strings(key_str.as_str(), name)
}

/// What reading the key after an escape gives: a key (and whether Alt was
/// held), or the need to read one more key after `[`.
#[derive(Debug, Clone, Copy, PartialEq, Eq, Structural)]
pub enum EscapeStep {
    Key(Input, bool),
    ReadThird,
}

/// The key that an escape followed by `next` (if a key followed) stands
/// for: an arrow, Backspace or a character with Alt held; `[` asks for a
/// third key; anything else is the escape key itself.
pub open spec fn escape_step(next: Option<Input>) -> EscapeStep {
    match next {
        Some(Input::Character('[')) => EscapeStep::ReadThird,
        Some(Input::KeyLeft) => EscapeStep::Key(Input::KeyLeft, true),
        Some(Input::KeyRight) => EscapeStep::Key(Input::KeyRight, true),
        Some(Input::KeyUp) => EscapeStep::Key(Input::KeyUp, true),
        Some(Input::KeyDown) => EscapeStep::Key(Input::KeyDown, true),
        Some(Input::Character('\x7f')) | Some(Input::KeyBackspace) => EscapeStep::Key(
            Input::KeyBackspace,
            true,
        ),
        Some(Input::Character(c)) => EscapeStep::Key(Input::Character(c), true),
        _ => EscapeStep::Key(Input::Character('\x1b'), false),
    }
}

/// Decodes the key read after an escape.
pub fn after_escape(next: Option<Input>) -> (r: EscapeStep)
    ensures
        r == escape_step(next),
{
    match next {
        Some(Input::Character('[')) => EscapeStep::ReadThird,
        Some(Input::KeyLeft) => EscapeStep::Key(Input::KeyLeft, true),
        Some(Input::KeyRight) => EscapeStep::Key(Input::KeyRight, true),
        Some(Input::KeyUp) => EscapeStep::Key(Input::KeyUp, true),
        Some(Input::KeyDown) => EscapeStep::Key(Input::KeyDown, true),
        Some(Input::Character('\x7f')) | Some(Input::KeyBackspace) => EscapeStep::Key(
            Input::KeyBackspace,
            true,
        ),
        Some(Input::Character(c)) => EscapeStep::Key(Input::Character(c), true),
        _ => EscapeStep::Key(Input::Character('\x1b'), false),
    }
}

/// Decodes the key read after an escape and `[`: `A` and `B` are Alt with
/// Up and Down; anything else is the escape key itself.
pub fn after_escape_bracket(third: Option<Input>) -> (r: (Input, bool))
    ensures
        r == match third {
            Some(Input::Character('A')) => (Input::KeyUp, true),
            Some(Input::Character('B')) => (Input::KeyDown, true),
            _ => (Input::Character('\x1b'), false),
        },
{
    match third {
        Some(Input::Character('A')) => (Input::KeyUp, true),
        Some(Input::Character('B')) => (Input::KeyDown, true),
        _ => (Input::Character('\x1b'), false),
    }
}

} // verus!
