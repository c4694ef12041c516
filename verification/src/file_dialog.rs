//! What is done with the files that the user has picked.

use vstd::prelude::*;
use vstd::string::StringExecFns;
use crate::dialog::DialogMessage;
use crate::image::{duplicates, kept, split_picked, Image};
use crate::text::{joined, push_joined};

verus! {

/// A value that can be sent down one of two ways, as a test on it decides.
/// It is meant for builders: a step is taken or left out, and the chain of
/// calls goes on.
pub trait Pred: Sized {
    /// What `true_fn` makes of `self` where `predicate` holds of it, and what
    /// `false_fn` makes of it where not.
    fn pred<F1, F2, P, T>(self, predicate: P, true_fn: F1, false_fn: F2) -> (made: T) where
        P: FnOnce(&Self) -> bool,
        F1: Fn(Self) -> T,
        F2: Fn(Self) -> T,

        requires
            predicate.requires((&self,)),
            forall|holds: bool|
                predicate.ensures((&self,), holds) ==> if holds {
                    true_fn.requires((self,))
                } else {
                    false_fn.requires((self,))
                },
        ensures
            exists|holds: bool|
                predicate.ensures((&self,), holds) && if holds {
                    true_fn.ensures((self,), made)
                } else {
                    false_fn.ensures((self,), made)
                },
    {
        if predicate(&self) {
            true_fn(self)
        } else {
            false_fn(self)
        }
    }
}

/// The text that names the picked images that were attached before: a
/// heading, an empty line, and the file names, one on each line.
pub open spec fn duplicate_text(filenames: Seq<Seq<char>>) -> Seq<char> {
    "Duplicate image:\n\n"@ + joined(filenames, "\n"@)
}

/// The message about picked images that were attached before, to be closed
/// with OK; none where there is no such image.
pub fn duplicate_message(filenames: &Vec<String>) -> (message: Option<DialogMessage>)
    ensures
        match message {
            Some(m) => filenames.len() > 0 && m@ == (duplicate_text(filenames.deep_view()), true),
            None => filenames.len() == 0,
        },
{
    if filenames.len() == 0 {
        return None;
    }
    let mut text = String::from_str("Duplicate image:\n\n");
    push_joined(&mut text, filenames, "\n");
    Some(DialogMessage(text, true))
}

/// Takes from the `picked` images those that are new, to be attached after
/// the `current` ones, and gives the message about the others, if there are
/// any.
pub fn select_images(current: &Vec<Image>, picked: Vec<Image>) -> (selected: (
    Vec<Image>,
    Option<DialogMessage>,
))
    ensures
        selected.0.deep_view() == kept(current.deep_view(), picked.deep_view()),
        match selected.1 {
            Some(m) => duplicates(current.deep_view(), picked.deep_view()).len() > 0 && m@ == (
                duplicate_text(duplicates(current.deep_view(), picked.deep_view())),
                true,
            ),
            None => duplicates(current.deep_view(), picked.deep_view()).len() == 0,
        },
{
    let (fresh, names) = split_picked(current, picked);
    let message = duplicate_message(&names);
    (fresh, message)
}

} // verus!
