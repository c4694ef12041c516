//! The login prompt: what the user has typed, and whether it may be sent.

use vstd::prelude::*;
use vstd::string::StringExecFnsIsAscii;

verus! {

/// The state of the login prompt.
#[derive(Debug)]
pub struct PasswordPrompt {
    pub username: String,
    pub password: String,
    pub is_authenticated: bool,
}

/// What the login prompt is in contracts: the user name, the password, and
/// whether the user is logged in.
pub type PromptModel = (Seq<char>, Seq<char>, bool);

impl View for PasswordPrompt {
    type V = PromptModel;

    open spec fn view(&self) -> PromptModel {
        (self.username@, self.password@, self.is_authenticated)
    }
}

/// Whether `s` can be sent as a user name or a password: it is not empty and
/// holds ASCII characters only.
pub open spec fn is_credential(s: Seq<char>) -> bool {
    s.len() > 0 && vstd::utf8::is_ascii_chars(s)
}

impl PasswordPrompt {
    /// The empty prompt of a user who is not logged in.
    pub fn new() -> (prompt: PasswordPrompt)
        ensures
            prompt@ == (Seq::<char>::empty(), Seq::<char>::empty(), false),
    {
        PasswordPrompt { username: String::new(), password: String::new(), is_authenticated: false }
    }

    /// Whether the login may be tried: both the user name and the password
    /// are filled in, in ASCII characters.
    pub fn is_valid(&self) -> (valid: bool)
        ensures
            valid == (is_credential(self@.0) && is_credential(self@.1)),
    {
        !self.username.as_str().is_empty() && self.username.is_ascii()
            && !self.password.as_str().is_empty() && self.password.is_ascii()
    }

    /// Takes in the answer to a login: `authenticated` says whether the
    /// tracker let the user in. If so, the user is logged in from now on and
    /// the prompt is to be closed. If not, both fields are emptied for the
    /// next try. The result says whether the prompt is to be closed.
    pub fn authenticate(&mut self, authenticated: bool) -> (close: bool)
        ensures
            close == authenticated,
            final(self)@ == if authenticated {
                (old(self)@.0, old(self)@.1, true)
            } else {
                (Seq::<char>::empty(), Seq::<char>::empty(), old(self)@.2)
            },
    {
        if authenticated {
            self.is_authenticated = true;
            true
        } else {
            self.username = String::new();
            self.password = String::new();
            false
        }
    }
}

} // verus!
