//! The log watcher's per-line step: parse the appended line, map the
//! record to its event, and offer the event to the bus. Tailing the file
//! itself is a capability of the process around the library; the library
//! decides what each new line contributes to the bus.

use vstd::prelude::*;
use crate::channel::EventChannel;
use crate::events::{line_to_event, spec_line_event};

verus! {

/// Process one new log line against the bus.
///
/// An unrecognized or filtered line contributes nothing and is done. A
/// recognized line's event is appended to the channel when a slot is free;
/// a full channel leaves the channel unchanged and reports `false`, and
/// the producer must offer the line again once the router has drained a
/// slot — the event is never dropped.
pub fn watch_line(line: &str, ch: &mut EventChannel) -> (done: bool)
    requires
        old(ch).wf(),
    ensures
        final(ch).wf(),
        final(ch).capacity_spec() == old(ch).capacity_spec(),
        spec_line_event(line@) is None ==> done
            && final(ch).contents() == old(ch).contents(),
        spec_line_event(line@) matches Some(e) ==> {
            &&& done <==> old(ch).contents().len() < old(ch).capacity_spec()
            &&& done ==> final(ch).contents() == old(ch).contents().push(e)
            &&& !done ==> final(ch).contents() == old(ch).contents()
        },
{
    match line_to_event(line) {
        None => true,
        Some(event) => ch.try_send(event),
    }
}

} // verus!
