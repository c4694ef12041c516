//! The message that the program shows on top of the form.

use vstd::prelude::*;

verus! {

/// A message for the user: its text, and whether it comes with an OK button.
/// One without the button stays until another message takes its place.
#[derive(Debug)]
pub struct DialogMessage(pub String, pub bool);

impl View for DialogMessage {
    type V = (Seq<char>, bool);

    open spec fn view(&self) -> (Seq<char>, bool) {
        (self.0@, self.1)
    }
}

impl DialogMessage {
    /// The message with the given text, with or without the OK button.
    pub fn new(text: &str, is_ok_showing: bool) -> (message: DialogMessage)
        ensures
            message@ == (text@, is_ok_showing),
    {
        DialogMessage(text.to_owned(), is_ok_showing)
    }
}

} // verus!
