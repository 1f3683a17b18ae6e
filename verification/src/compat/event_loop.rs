//! Naming of the thread that runs the reactor.

use vstd::prelude::*;
use vstd::string::StringExecFns;

verus! {

/// The name every event loop thread carries.
pub open spec fn base_name() -> Seq<char> {
    "CRUST-Event-Loop"@
}

/// The name of the event loop thread with the identifier `event_loop_id`:
/// the base name, followed by a colon, a space and the identifier where
/// there is one.
pub open spec fn spec_event_loop_name(event_loop_id: Option<Seq<char>>) -> Seq<char> {
    match event_loop_id {
        Some(id) => base_name() + ": "@ + id,
        None => base_name(),
    }
}

/// The name to give the event loop thread.
pub fn event_loop_name(event_loop_id: Option<&str>) -> (name: String)
    ensures
        name@ == spec_event_loop_name(
            match event_loop_id {
                Some(id) => Some(id@),
                None => None,
            },
        ),
{
    let mut name = String::from_str("CRUST-Event-Loop");
    if let Some(id) = event_loop_id {
        name.append(": ");
        name.append(id);
    }
    name
}

} // verus!
