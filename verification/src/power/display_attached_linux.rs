//! Whether a monitor is physically attached, on Linux: what the connectors of the
//! graphics driver say.

use crate::text;
use crate::text::{chars_of, eq_ignore_case, trim_chars};
use vstd::prelude::*;
use vstd::string::*;

verus! {

/// How often the connectors are read, in seconds.
pub const POLL_SECS: u64 = 5;

/// A connector with a monitor.
pub open spec fn connected(status: Seq<char>) -> bool {
    text::same_ignoring_case(text::trim(status), "connected"@)
}

/// Whether some connector has a monitor. `statuses` holds what the connectors say;
/// where none says anything, nothing can be observed.
pub fn read_drm_attached_in(statuses: &Vec<String>) -> (r: Option<bool>)
    ensures
        r == (if statuses@.len() == 0 {
            None
        } else {
            Some(exists|i: int| 0 <= i < statuses@.len() && connected((#[trigger] statuses@[i])@))
        }),
{
    if statuses.len() == 0 {
        return None;
    }
    let mut i: usize = 0;
    while i < statuses.len()
        invariant
            i <= statuses.len(),
            statuses@.len() > 0,
            forall|k: int| 0 <= k < i ==> !connected((#[trigger] statuses@[k])@),
        decreases statuses.len() - i,
    {
        if eq_ignore_case(&trim_chars(&chars_of(&statuses[i])), "connected") {
            proof {
                assert(connected(statuses@[i as int]@));
            }
            return Some(true);
        }
        i += 1;
    }
    Some(false)
}

/// A connector has a monitor where it says `connected`, in any letter case and with white
/// space around it, and not where it says anything else, such as `disconnected`.
pub proof fn law_connected_connectors(front: Seq<char>, said: Seq<char>, back: Seq<char>)
    requires
        forall|i: int| 0 <= i < front.len() ==> text::white_space(#[trigger] front[i]),
        forall|i: int| 0 <= i < back.len() ==> text::white_space(#[trigger] back[i]),
        said.len() > 0 ==> !text::white_space(said[0]) && !text::white_space(said.last()),
    ensures
        connected(front + said + back) <==> text::same_ignoring_case(said, "connected"@),
{
    text::law_trim(front, said, back);
}

} // verus!
