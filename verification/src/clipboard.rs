//! Access to the system clipboard, which the application supplies.

use vstd::prelude::*;

verus! {

/// Reads and writes the clipboard's text.
pub trait ClipboardHandler {
    /// The text on the clipboard, if there is text on it.
    fn get_string(&self) -> Option<String>;

    /// Puts `text` on the clipboard.
    fn put_string(&mut self, text: &str);
}

} // verus!
