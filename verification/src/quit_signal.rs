//! How the settings window asks the agent to quit.

use crate::commands::custom::Platform;
use vstd::prelude::*;

verus! {

/// Whether an agent was asked to quit. On Windows one was where the event of a
/// running agent could be opened; elsewhere the agent is a service and is not
/// asked.
pub fn request_agent_quit(platform: Platform, event_opened: bool) -> (r: bool)
    ensures
        r == (platform == Platform::Windows && event_opened),
{
    platform == Platform::Windows && event_opened
}

} // verus!
