//! Messages for the log that are gathered before they are written.

use crate::scheduler::LogLevel;
use vstd::prelude::*;

verus! {

/// What gathered messages say.
pub open spec fn note_views(notes: Seq<(LogLevel, String)>) -> Seq<(LogLevel, Seq<char>)> {
    notes.map_values(|n: (LogLevel, String)| (n.0, n.1@))
}

/// No message.
pub fn no_notes() -> (r: Vec<(LogLevel, String)>)
    ensures
        note_views(r@) == Seq::<(LogLevel, Seq<char>)>::empty(),
{
    let v: Vec<(LogLevel, String)> = Vec::new();
    assert(note_views(v@) =~= Seq::<(LogLevel, Seq<char>)>::empty());
    v
}

/// One message.
pub fn one_note(level: LogLevel, text: String) -> (r: Vec<(LogLevel, String)>)
    ensures
        note_views(r@) == seq![(level, text@)],
{
    let ghost view = text@;
    let mut v: Vec<(LogLevel, String)> = Vec::new();
    v.push((level, text));
    assert(note_views(v@) =~= seq![(level, view)]);
    v
}

/// Gathers another message.
pub fn push_note(notes: &mut Vec<(LogLevel, String)>, level: LogLevel, text: String)
    ensures
        note_views(final(notes)@) == note_views(old(notes)@).push((level, text@)),
{
    let ghost view = text@;
    notes.push((level, text));
    assert(note_views(notes@) =~= note_views(old(notes)@).push((level, view)));
}

} // verus!
