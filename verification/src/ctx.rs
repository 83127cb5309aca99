//! The per-request context: who is making the request.

use vstd::prelude::*;

verus! {

/// The authenticated caller of a request.
#[derive(Clone, Debug)]
pub struct Ctx {
    user_id: String,
}

impl View for Ctx {
    type V = Seq<char>;

    closed spec fn view(&self) -> Seq<char> {
        self.user_id@
    }
}

impl Ctx {
    pub fn new(user_id: String) -> (c: Ctx)
        ensures
            c@ == user_id@,
    {
        Ctx { user_id }
    }

    pub fn user_id(&self) -> (r: String)
        ensures
            r@ == self@,
    {
        self.user_id.clone()
    }
}

} // verus!
