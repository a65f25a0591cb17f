use vstd::prelude::*;

verus! {

/// A named piece of work handed in by a user.
#[derive(Clone, Debug)]
pub struct Sequence {
    user: String,
    name: String,
}

impl View for Sequence {
    type V = (Seq<char>, Seq<char>);

    closed spec fn view(&self) -> (Seq<char>, Seq<char>) {
        (self.user@, self.name@)
    }
}

impl Sequence {
    pub fn new(user: String, name: String) -> (r: Sequence)
        ensures
            r@ == (user@, name@),
    {
        Sequence { user, name }
    }

    pub fn get_name(&self) -> (r: String)
        ensures
            r@ == self@.1,
    {
        self.name.clone()
    }

    pub fn get_user(&self) -> (r: String)
        ensures
            r@ == self@.0,
    {
        self.user.clone()
    }
}

} // verus!
