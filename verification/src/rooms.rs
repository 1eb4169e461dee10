//! Rooms and room resolution: a room is looked up once, at startup, by its
//! display name.

use vstd::prelude::*;

verus! {

/// A room of the source service, as returned by its room listing.
pub struct Room {
    pub id: String,
    pub name: String,
    pub url: String,
}

/// Mathematical model of `Room`.
pub struct RoomView {
    pub id: Seq<char>,
    pub name: Seq<char>,
    pub url: Seq<char>,
}

impl View for Room {
    type V = RoomView;

    open spec fn view(&self) -> RoomView {
        RoomView { id: self.id@, name: self.name@, url: self.url@ }
    }
}

/// Resolve a display name against a room listing: the index of the first
/// room whose name matches, or nothing when no room matches.
pub fn find_room(rooms: &Vec<Room>, name: &String) -> (r: Option<usize>)
    ensures
        match r {
            Some(i) => i < rooms@.len() && rooms@[i as int]@.name == name@ && (forall|j: int|
                0 <= j < i ==> (#[trigger] rooms@[j])@.name != name@),
            None => forall|j: int| 0 <= j < rooms@.len() ==> (#[trigger] rooms@[j])@.name != name@,
        },
{
    let mut i: usize = 0;
    while i < rooms.len()
        invariant
            i <= rooms@.len(),
            forall|j: int| 0 <= j < i ==> (#[trigger] rooms@[j])@.name != name@,
        decreases rooms@.len() - i,
    {
        if rooms[i].name == *name {
            return Some(i);
        }
        i = i + 1;
    }
    None
}

} // verus!
