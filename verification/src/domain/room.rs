//! Rooms, known by their names.

use vstd::prelude::*;
use vstd::std_specs::cmp::PartialEqSpecImpl;
use vstd::std_specs::convert::FromSpecImpl;

verus! {

/// The name of the landing room, which exists from the start.
pub open spec fn hub_name() -> Seq<char> {
    "Hub"@
}

/// A room. Its name is its identity, and its model.
#[derive(Debug, Hash)]
pub struct Room {
    pub name: String,
}

impl View for Room {
    type V = Seq<char>;

    open spec fn view(&self) -> Seq<char> {
        self.name@
    }
}

impl Room {
    /// The room with the given name.
    pub fn named(name: &str) -> (room: Room)
        ensures
            room@ == name@,
    {
        Room { name: name.to_owned() }
    }

    /// The landing room.
    pub fn hub() -> (room: Room)
        ensures
            room@ == hub_name(),
    {
        Room::named("Hub")
    }
}

impl Default for Room {
    fn default() -> (room: Room)
        ensures
            room@ == hub_name(),
    {
        Room::hub()
    }
}

impl<'a> From<&'a str> for Room {
    fn from(value: &'a str) -> (room: Room)
        ensures
            room@ == value@,
    {
        Room::named(value)
    }
}

impl<'a> FromSpecImpl<&'a str> for Room {
    /// Which `String` holds the name is not a function of the text, so the
    /// conversion is specified by the model of its result instead.
    open spec fn obeys_from_spec() -> bool {
        false
    }

    open spec fn from_spec(value: &'a str) -> Room {
        Room { name: choose|name: String| name@ == value@ }
    }
}

impl Clone for Room {
    fn clone(&self) -> (copy: Room)
        ensures
            copy == *self,
    {
        Room { name: self.name.clone() }
    }
}

impl PartialEq for Room {
    fn eq(&self, other: &Room) -> (same: bool) {
        self.name == other.name
    }
}

impl PartialEqSpecImpl for Room {
    open spec fn obeys_eq_spec() -> bool {
        true
    }

    open spec fn eq_spec(&self, other: &Room) -> bool {
        self@ == other@
    }
}

impl Eq for Room {}

} // verus!
