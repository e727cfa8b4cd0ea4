//! A connected user.

use vstd::prelude::*;
use vstd::std_specs::cmp::PartialEqSpecImpl;

verus! {

/// What a [`User`] is, as plain mathematical values.
pub struct UserView {
    pub id: Seq<char>,
    pub name: Seq<char>,
    pub shared_secret: Seq<u8>,
}

/// The identity of one connection, from a successful login until the user is
/// dropped. Two users are the same if all three of their parts are.
#[derive(Debug, Hash)]
pub struct User {
    /// Server-assigned token: a 128-bit number in upper-case hexadecimal.
    pub id: String,
    /// The name the client asserted at login.
    pub name: String,
    /// The 32-byte key agreed with the client.
    pub shared_secret: [u8; 32],
}

impl View for User {
    type V = UserView;

    open spec fn view(&self) -> UserView {
        UserView { id: self.id@, name: self.name@, shared_secret: self.shared_secret@ }
    }
}

impl User {
    /// Builds a user from its three parts.
    pub fn new(id: String, name: String, shared_secret: [u8; 32]) -> (user: User)
        ensures
            user.id == id,
            user.name == name,
            user.shared_secret == shared_secret,
            user@ == (UserView { id: id@, name: name@, shared_secret: shared_secret@ }),
    {
        User { id, name, shared_secret }
    }
}

impl Clone for User {
    fn clone(&self) -> (copy: User)
        ensures
            copy == *self,
    {
        User { id: self.id.clone(), name: self.name.clone(), shared_secret: self.shared_secret }
    }
}

impl PartialEq for User {
    fn eq(&self, other: &User) -> (same: bool) {
        let same_text = self.id == other.id && self.name == other.name;
        let mut same_key = true;
        let mut i: usize = 0;
        while i < 32
            invariant
                i <= 32,
                same_key == (forall|j: int|
                    0 <= j < i ==> self.shared_secret@[j] == other.shared_secret@[j]),
            decreases 32 - i,
        {
            if self.shared_secret[i] != other.shared_secret[i] {
                same_key = false;
            }
            i = i + 1;
        }
        proof {
            if same_key {
                assert(self.shared_secret@ =~= other.shared_secret@);
            }
        }
        same_text && same_key
    }
}

impl PartialEqSpecImpl for User {
    open spec fn obeys_eq_spec() -> bool {
        true
    }

    open spec fn eq_spec(&self, other: &User) -> bool {
        self@ == other@
    }
}

impl Eq for User {}

} // verus!
