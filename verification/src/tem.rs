//! The transactional email collaborator's plain-value side: the project
//! identifier its send endpoint is addressed with. The HTTP client itself —
//! transport, auth and wire format — is an external collaborator and stays
//! outside the library.

use vstd::prelude::*;

verus! {

/// The project a send request is billed and routed under.
pub struct ProjectId(String);

impl View for ProjectId {
    type V = Seq<char>;

    closed spec fn view(&self) -> Seq<char> {
        self.0@
    }
}

impl ProjectId {
    pub fn new(s: String) -> (r: Self)
        ensures
            r@ == s@,
    {
        ProjectId(s)
    }

    pub fn as_str(&self) -> (r: &str)
        ensures
            r@ == self@,
    {
        self.0.as_str()
    }
}

} // verus!
