//! The room directory of the matchmaking service: the decisions behind
//! listing rooms and joining one. The HTTP and socket plumbing around
//! them lives outside the crate and hands in plain values.

use vstd::prelude::*;

verus! {

/// A joinable room, by its public identifier.
#[derive(Debug)]
pub struct Room {
    pub id: String,
}

/// The path parameter of a join request.
#[derive(Debug)]
pub struct JoinRoomPathParam {
    pub room_id: String,
}

/// The query parameter of a join request.
#[derive(Debug)]
pub struct JoinRoomQueryParam {
    pub user_id: String,
}

/// The directory's error: the requested room does not exist.
#[derive(Debug, Clone, Copy, PartialEq, Eq, Structural)]
pub enum AppError {
    RoomNotFound,
}

/// The full room listing, in directory order.
pub fn get_all_rooms(room_ids: &Vec<String>) -> (r: Vec<Room>)
    ensures
        r@.len() == room_ids@.len(),
        forall|i: int| 0 <= i < r@.len() ==> (#[trigger] r@[i]).id@ == room_ids@[i]@,
{
    let mut out: Vec<Room> = Vec::new();
    let mut i: usize = 0;
    while i < room_ids.len()
        invariant
            i <= room_ids@.len(),
            out@.len() == i,
            forall|j: int| 0 <= j < i ==> (#[trigger] out@[j]).id@ == room_ids@[j]@,
        decreases room_ids.len() - i,
    {
        out.push(Room { id: room_ids[i].clone() });
        i += 1;
    }
    out
}

/// Resolves a join request to the index of the first room with the
/// requested id, or reports that no such room exists.
pub fn join_room(room_ids: &Vec<String>, path_param: &JoinRoomPathParam) -> (r: Result<
    usize,
    AppError,
>)
    ensures
        match r {
            Ok(i) => i < room_ids@.len() && room_ids@[i as int]@ == path_param.room_id@ && forall|
                j: int,
            | 0 <= j < i ==> (#[trigger] room_ids@[j])@ != path_param.room_id@,
            Err(e) => e == AppError::RoomNotFound && forall|j: int|
                0 <= j < room_ids@.len() ==> (#[trigger] room_ids@[j])@ != path_param.room_id@,
        },
{
    let mut i: usize = 0;
    while i < room_ids.len()
        invariant
            i <= room_ids@.len(),
            forall|j: int| 0 <= j < i ==> (#[trigger] room_ids@[j])@ != path_param.room_id@,
        decreases room_ids.len() - i,
    {
        if room_ids[i] == path_param.room_id {
            return Ok(i);
        }
        i += 1;
    }
    Err(AppError::RoomNotFound)
}

} // verus!
