//! The kill buffer, and the system clipboard that mirrors it.
use arboard::Clipboard;
use vstd::prelude::*;

verus! {

broadcast use vstd::string::group_string_axioms;

#[verifier::external_type_specification]
#[verifier::external_body]
pub struct ExClipboard(Clipboard);

#[verifier::external_type_specification]
#[verifier::external_body]
pub struct ExClipboardError(arboard::Error);

/// Opens the system clipboard, by `arboard::Clipboard::new`. Whether this
/// succeeds depends on the system, so nothing is stated of the result.
#[verifier::external_body]
fn open_system_clipboard() -> Result<Clipboard, arboard::Error> {
    Clipboard::new()
}

/// The text on the system clipboard, by `arboard::Clipboard::get_text`.
/// What the clipboard holds is outside the program, so nothing is stated of
/// the result.
#[verifier::external_body]
fn clipboard_text(clipboard: &mut Clipboard) -> Result<String, arboard::Error> {
    clipboard.get_text()
}

/// Puts `text` on the system clipboard, by `arboard::Clipboard::set_text`.
/// Whether the system accepts it is not stated.
#[verifier::external_body]
fn put_clipboard_text(clipboard: &mut Clipboard, text: &str) -> Result<(), arboard::Error> {
    clipboard.set_text(text)
}

/// The message of a clipboard error, by its `Display` implementation.
#[verifier::external_body]
fn clipboard_error_message(e: &arboard::Error) -> String {
    e.to_string()
}

/// The text that kill and copy commands save, and that yank inserts.
pub struct ClipboardManager {
    pub kill_buffer: String,
    /// The last command appended to the kill buffer.
    pub last_action_was_kill: bool,
    /// Whether the system clipboard is used.
    pub clipboard_enabled: bool,
}

impl Default for ClipboardManager {
    fn default() -> (c: Self)
        ensures
            c.kill_buffer@ == Seq::<char>::empty(),
            !c.last_action_was_kill,
            c.enabled(),
    {
        Self::new()
    }
}

impl ClipboardManager {
    /// Whether the system clipboard is used.
    pub open spec fn enabled(&self) -> bool {
        self.clipboard_enabled
    }

    pub fn new() -> (c: Self)
        ensures
            c.kill_buffer@ == Seq::<char>::empty(),
            !c.last_action_was_kill,
            c.enabled(),
    {
        Self { kill_buffer: String::new(), last_action_was_kill: false, clipboard_enabled: true }
    }

    /// Replaces the kill buffer with `text` and puts it on the system
    /// clipboard.
    pub fn copy_text(&mut self, text: &str) -> (r: Result<(), String>)
        ensures
            final(self).kill_buffer@ == text@,
            final(self).enabled() == old(self).enabled(),
            r is Ok ==> !final(self).last_action_was_kill,
            r is Err ==> final(self).last_action_was_kill == old(self).last_action_was_kill,
            !old(self).enabled() ==> r is Ok,
    {
        self.kill_buffer = text.to_string();
        let r = self.set_system_clipboard(text);
        if r.is_err() {
            return r;
        }
        self.last_action_was_kill = false;
        Ok(())
    }

    /// Appends `text` to the kill buffer right after another kill, replaces
    /// it otherwise, and puts the buffer on the system clipboard.
    pub fn kill_text(&mut self, text: &str) -> (r: Result<(), String>)
        ensures
            final(self).kill_buffer@ == if old(self).last_action_was_kill {
                old(self).kill_buffer@ + text@
            } else {
                text@
            },
            final(self).enabled() == old(self).enabled(),
            r is Ok ==> final(self).last_action_was_kill,
            r is Err ==> final(self).last_action_was_kill == old(self).last_action_was_kill,
            !old(self).enabled() ==> r is Ok,
    {
        if self.last_action_was_kill {
            self.kill_buffer = crate::text::concat_strings(self.kill_buffer.as_str(), text);
        } else {
            self.kill_buffer = text.to_string();
        }
        let r = self.set_system_clipboard(self.kill_buffer.as_str());
        if r.is_err() {
            return r;
        }
        self.last_action_was_kill = true;
        Ok(())
    }

    /// The text to yank: the system clipboard's text when it can be read,
    /// which then also becomes the kill buffer; the kill buffer otherwise.
    pub fn get_yank_text(&mut self) -> (r: String)
        ensures
            r@ == final(self).kill_buffer@,
            !old(self).enabled() ==> final(self).kill_buffer@ == old(self).kill_buffer@,
            final(self).last_action_was_kill == old(self).last_action_was_kill,
            final(self).enabled() == old(self).enabled(),
    {
        if self.clipboard_enabled {
            match open_system_clipboard() {
                Ok(mut clipboard) => {
                    match clipboard_text(&mut clipboard) {
                        Ok(text) => {
                            self.kill_buffer = text;
                        },
                        Err(_) => {},
                    }
                },
                Err(_) => {},
            }
        }
        self.kill_buffer.clone()
    }

    /// Puts `text` on the system clipboard, when it is used.
    pub fn set_system_clipboard(&self, text: &str) -> (r: Result<(), String>)
        ensures
            !self.enabled() ==> r is Ok,
    {
        if !self.clipboard_enabled {
            return Ok(());
        }
        match open_system_clipboard() {
            Ok(mut clipboard) => match put_clipboard_text(&mut clipboard, text) {
                Ok(()) => Ok(()),
                Err(e) => Err(clipboard_error_message(&e)),
            },
            Err(_) => Err("Failed to initialize clipboard.".to_string()),
        }
    }

    /// Turns the use of the system clipboard on or off.
    pub fn _set_clipboard_enabled_for_test(&mut self, enabled: bool)
        ensures
            final(self).enabled() == enabled,
            final(self).kill_buffer == old(self).kill_buffer,
            final(self).last_action_was_kill == old(self).last_action_was_kill,
    {
        self.clipboard_enabled = enabled;
    }
}

} // verus!
