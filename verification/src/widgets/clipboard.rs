//! The system clipboard with an in-process fallback buffer.
use vstd::prelude::*;

verus! {

#[verifier::external_type_specification]
#[verifier::external_body]
pub struct ExClipboard(arboard::Clipboard);

#[verifier::external_type_specification]
#[verifier::external_body]
pub struct ExClipboardError(arboard::Error);

/// Connects to the system clipboard (`arboard::Clipboard::new`). Whether this succeeds depends
/// on the desktop environment; nothing is promised of the outcome.
#[verifier::external_body]
fn os_clipboard_new() -> (r: Result<arboard::Clipboard, arboard::Error>) {
    arboard::Clipboard::new()
}

/// Places text on the system clipboard (`arboard::Clipboard::set_text`). Whether the system
/// accepts it is not promised.
#[verifier::external_body]
fn os_clipboard_set_text(clip: &mut arboard::Clipboard, text: String) -> (r: Result<(), arboard::Error>) {
    clip.set_text(text)
}

/// Reads text from the system clipboard (`arboard::Clipboard::get_text`). What comes back depends
/// on other programs; nothing is promised of it.
#[verifier::external_body]
fn os_clipboard_get_text(clip: &mut arboard::Clipboard) -> (r: Result<String, arboard::Error>) {
    clip.get_text()
}

/// The clipboard: the system one when it can be reached, and a local copy of the last text set.
pub struct RuiClipboard {
    pub clipboard: Option<arboard::Clipboard>,
    pub local_buffer: String,
}

impl RuiClipboard {
    /// A clipboard not yet connected, with an empty local buffer.
    pub fn new() -> (r: Self)
        ensures
            r.clipboard is None,
            r.local_buffer@ == Seq::<char>::empty(),
    {
        RuiClipboard { clipboard: None, local_buffer: String::new() }
    }

    /// Tries to reach the system clipboard when not yet connected. Whether that succeeds depends
    /// on the desktop environment, so only what holds either way is stated: a connection made
    /// before is kept and the local buffer is untouched.
    fn connect(&mut self)
        ensures
            final(self).local_buffer == old(self).local_buffer,
            old(self).clipboard is Some ==> final(self).clipboard == old(self).clipboard,
    {
        if self.clipboard.is_none() {
            match os_clipboard_new() {
                Ok(c) => {
                    self.clipboard = Some(c);
                },
                Err(_) => {},
            }
        }
    }

    /// Keeps `text` in the local buffer and offers it to the system clipboard.
    pub fn set_text(&mut self, text: String)
        ensures
            final(self).local_buffer@ == text@,
    {
        self.local_buffer = text.clone();
        self.connect();
        match &mut self.clipboard {
            Some(clip) => {
                let _ = os_clipboard_set_text(clip, text);
            },
            None => {},
        }
    }

    /// The system clipboard's text, or the local buffer when the system one cannot be reached or
    /// read (see [`text_from_reading`], which decides between the two). There is always a
    /// result; what the system clipboard holds depends on other programs, so only that, and the
    /// local buffer when no connection is made, are stated.
    pub fn get_text(&mut self) -> (r: Option<String>)
        ensures
            final(self).local_buffer == old(self).local_buffer,
            r is Some,
            final(self).clipboard is None ==> r->0@ == old(self).local_buffer@,
    {
        self.connect();
        let reading = match &mut self.clipboard {
            Some(clip) => match os_clipboard_get_text(clip) {
                Ok(text) => Some(text),
                Err(_) => None,
            },
            None => None,
        };
        let text = text_from_reading(reading, &self.local_buffer);
        Some(text)
    }
}

/// The text a paste uses: what was read from the system clipboard, or else the local buffer.
pub open spec fn text_from_reading_spec(reading: Option<String>, local: String) -> String {
    match reading {
        Some(t) => t,
        None => local,
    }
}

/// The text a paste uses given what reading the system clipboard gave: that text when the read
/// succeeded, the local buffer otherwise.
pub fn text_from_reading(reading: Option<String>, local: &String) -> (r: String)
    ensures
        r@ == text_from_reading_spec(reading, *local)@,
        reading matches Some(t) ==> r == t,
{
    match reading {
        Some(t) => t,
        None => local.clone(),
    }
}

} // verus!
