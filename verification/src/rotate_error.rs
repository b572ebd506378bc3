//! The profile-scoped error of a rotation.

use vstd::prelude::*;

verus! {

/// An error raised by this library itself, as opposed to one of an underlying
/// service: a message, and the profile it belongs to where there is one.
#[derive(Debug)]
pub struct RotateError {
    /// What went wrong.
    pub message: String,
    /// The profile whose rotation failed, if the error is tied to one.
    pub profile: Option<String>,
}

impl RotateError {
    /// An error with the given message, attached to `profile`.
    pub fn new(message: &str, profile: Option<String>) -> (e: Self)
        ensures
            e.message@ == message@,
            e.profile == profile,
    {
        RotateError { message: message.to_owned(), profile }
    }

    /// An error with the given message that belongs to no profile.
    pub fn new_simple(message: &str) -> (e: Self)
        ensures
            e.message@ == message@,
            e.profile is None,
    {
        RotateError { message: message.to_owned(), profile: None }
    }

    /// The text shown to the user: the message alone.
    pub fn to_string(&self) -> (s: String)
        ensures
            s@ == self.message@,
    {
        self.message.clone()
    }
}

impl Clone for RotateError {
    fn clone(&self) -> (c: Self)
        ensures
            c == *self,
    {
        RotateError { message: self.message.clone(), profile: self.profile.clone() }
    }
}

} // verus!
