//! The request bodies of the HTTP routes and the decisions that the routes
//! take on them.

pub mod system;
pub mod trigger;
pub mod upgrade;
pub mod upload;

use vstd::prelude::*;

verus! {
/// The position of the first of `ids` equal to `id`, as the routes look up
/// a server or a schedule by UUID.
pub fn find_by_uuid(ids: &Vec<u128>, id: u128) -> (r: Option<usize>)
    ensures
        r matches Some(i) ==> i < ids@.len() && ids@[i as int] == id && forall|j: int|
            0 <= j < i ==> ids@[j] != id,
        r is None ==> forall|j: int| 0 <= j < ids@.len() ==> ids@[j] != id,
{
    let mut i: usize = 0;
    while i < ids.len()
        invariant
            i <= ids@.len(),
            forall|j: int| 0 <= j < i ==> ids@[j] != id,
        decreases ids@.len() - i,
    {
        if ids[i] == id {
            return Some(i);
        }
        i += 1;
    }
    None
}

} // verus!
