//! Credentials.

use vstd::prelude::*;

verus! {

/// A credential. It has no `Debug` form, so that it does not end up in a log.
pub struct Secret {
    value: String,
}

impl View for Secret {
    type V = Seq<char>;

    closed spec fn view(&self) -> Seq<char> {
        self.value@
    }
}

impl Secret {
    /// Wraps a credential.
    pub fn new(value: String) -> (res: Self)
        ensures
            res@ == value@,
    {
        Secret { value }
    }

    /// The credential itself.
    pub fn expose(&self) -> (res: &str)
        ensures
            res@ == self@,
    {
        self.value.as_str()
    }

    /// A second copy.
    pub fn copy(&self) -> (res: Self)
        ensures
            res@ == self@,
    {
        Secret { value: self.value.clone() }
    }
}

} // verus!
