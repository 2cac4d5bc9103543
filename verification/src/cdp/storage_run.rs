//! Visiting the pages of the origins for which something is to be stored.

use vstd::prelude::*;

verus! {

/// How often a page is looked at before going on without it.
pub const PAGE_TRIES: u32 = 20;

/// How far the visits have come.
#[derive(Debug, Clone, Copy, PartialEq, Eq, Structural)]
pub enum VisitPhase {
    /// A tab of the origin is looked for.
    Finding { at: usize },
    /// A tab is opened for the origin.
    Opening { at: usize },
    /// The tab is to show the host of the origin.
    Hosting { at: usize, tries: u32 },
    /// A pause before the tab is looked at again.
    HostPause { at: usize, tries: u32 },
    /// The message channel of the tab is opened.
    Connecting { at: usize },
    /// The page is to be there; `sent` tells whether it was sent to the origin.
    Readying { at: usize, tries: u32, sent: bool },
    /// A pause before the page is looked at again.
    ReadyPause { at: usize, tries: u32, sent: bool },
    /// The page is sent to the origin.
    Sending { at: usize },
    /// The items are written; `again` tells whether it is the second time.
    Writing { at: usize, again: bool },
    /// A pause before the missing items are written once more.
    WritePause { at: usize },
    Done,
}

/// What is to be done next.
#[derive(Debug)]
pub enum VisitAction {
    Find { at: usize },
    Open { at: usize },
    /// Look whether the tab shows the host.
    CheckHost { at: usize },
    Connect { at: usize },
    /// Look whether the page is there.
    CheckReady { at: usize },
    /// Send the page to the origin.
    Send { at: usize },
    /// Write the items, or those that are missing after the first time.
    Write { at: usize, again: bool },
    /// Wait for a quarter of a second.
    Pause,
    /// Wait for six tenths of a second.
    LongPause,
    Finish(Result<(), String>),
    /// Go on with the pending action.
    Keep,
}

/// What a `VisitAction` says.
pub enum VisitView {
    Find { at: usize },
    Open { at: usize },
    CheckHost { at: usize },
    Connect { at: usize },
    CheckReady { at: usize },
    Send { at: usize },
    Write { at: usize, again: bool },
    Pause,
    LongPause,
    Finish(Result<(), Seq<char>>),
    Keep,
}

impl View for VisitAction {
    type V = VisitView;

    open spec fn view(&self) -> VisitView {
        match *self {
            VisitAction::Find { at } => VisitView::Find { at },
            VisitAction::Open { at } => VisitView::Open { at },
            VisitAction::CheckHost { at } => VisitView::CheckHost { at },
            VisitAction::Connect { at } => VisitView::Connect { at },
            VisitAction::CheckReady { at } => VisitView::CheckReady { at },
            VisitAction::Send { at } => VisitView::Send { at },
            VisitAction::Write { at, again } => VisitView::Write { at, again },
            VisitAction::Pause => VisitView::Pause,
            VisitAction::LongPause => VisitView::LongPause,
            VisitAction::Finish(r) => VisitView::Finish(crate::ocr::step_result(r)),
            VisitAction::Keep => VisitView::Keep,
        }
    }
}

/// What came of an action.
#[derive(Debug)]
pub enum VisitEvent {
    /// Whether what was looked for is there.
    Seen(bool),
    Opened(Result<(), String>),
    /// Whether the tab has a message channel.
    Connected(Result<bool, String>),
    Sent,
    /// Whether items are missing after the writing.
    Written { missing: bool },
    Paused,
}

/// What a `VisitEvent` says.
pub enum VisitEventView {
    Seen(bool),
    Opened(Result<(), Seq<char>>),
    Connected(Result<bool, Seq<char>>),
    Sent,
    Written { missing: bool },
    Paused,
}

impl View for VisitEvent {
    type V = VisitEventView;

    open spec fn view(&self) -> VisitEventView {
        match *self {
            VisitEvent::Seen(b) => VisitEventView::Seen(b),
            VisitEvent::Opened(r) => VisitEventView::Opened(crate::ocr::step_result(r)),
            VisitEvent::Connected(r) => VisitEventView::Connected(
                match r {
                    Ok(b) => Ok(b),
                    Err(e) => Err(e@),
                },
            ),
            VisitEvent::Sent => VisitEventView::Sent,
            VisitEvent::Written { missing } => VisitEventView::Written { missing },
            VisitEvent::Paused => VisitEventView::Paused,
        }
    }
}

/// The visits to the pages of origins.
#[derive(Debug, Clone, Copy, PartialEq, Eq, Structural)]
pub struct StorageRun {
    /// How many origins there are.
    pub count: usize,
    pub phase: VisitPhase,
}

impl StorageRun {
    pub open spec fn go(self, phase: VisitPhase, action: VisitView) -> (StorageRun, VisitView) {
        (StorageRun { phase, ..self }, action)
    }

    pub open spec fn end(self, result: Result<(), Seq<char>>) -> (StorageRun, VisitView) {
        self.go(VisitPhase::Done, VisitView::Finish(result))
    }

    /// Going on with an origin, or ending after the last one.
    pub open spec fn visit(self, at: int) -> (StorageRun, VisitView) {
        if at < self.count {
            self.go(VisitPhase::Finding { at: at as usize }, VisitView::Find { at: at as usize })
        } else {
            self.end(Ok(()))
        }
    }

    pub open spec fn host(self, at: usize, tries: u32) -> (StorageRun, VisitView) {
        self.go(VisitPhase::Hosting { at, tries }, VisitView::CheckHost { at })
    }

    pub open spec fn ready(self, at: usize, tries: u32, sent: bool) -> (StorageRun, VisitView) {
        self.go(VisitPhase::Readying { at, tries, sent }, VisitView::CheckReady { at })
    }

    pub open spec fn write(self, at: usize, again: bool) -> (StorageRun, VisitView) {
        self.go(VisitPhase::Writing { at, again }, VisitView::Write { at, again })
    }

    /// What follows an event: a tab is opened where there is none, a page that does not
    /// come is sent to the origin once, and items that are missing are written once more.
    /// An event that the pending action cannot cause changes nothing.
    pub open spec fn next(self, event: VisitEventView) -> (StorageRun, VisitView) {
        match (self.phase, event) {
            (VisitPhase::Finding { at }, VisitEventView::Seen(yes)) => if yes {
                self.host(at, 0)
            } else {
                self.go(VisitPhase::Opening { at }, VisitView::Open { at })
            },
            (VisitPhase::Opening { at }, VisitEventView::Opened(r)) => match r {
                Ok(_) => self.host(at, 0),
                Err(e) => self.end(Err(e)),
            },
            (VisitPhase::Hosting { at, tries }, VisitEventView::Seen(yes)) => if yes {
                self.go(VisitPhase::Connecting { at }, VisitView::Connect { at })
            } else {
                self.go(VisitPhase::HostPause { at, tries }, VisitView::Pause)
            },
            (VisitPhase::HostPause { at, tries }, VisitEventView::Paused) => if tries + 1
                < PAGE_TRIES {
                self.host(at, (tries + 1) as u32)
            } else {
                self.go(VisitPhase::Connecting { at }, VisitView::Connect { at })
            },
            (VisitPhase::Connecting { at }, VisitEventView::Connected(r)) => match r {
                Ok(yes) => if yes {
                    self.ready(at, 0, false)
                } else {
                    self.visit(at + 1)
                },
                Err(e) => self.end(Err(e)),
            },
            (VisitPhase::Readying { at, tries, sent }, VisitEventView::Seen(yes)) => if yes {
                self.write(at, false)
            } else {
                self.go(VisitPhase::ReadyPause { at, tries, sent }, VisitView::Pause)
            },
            (VisitPhase::ReadyPause { at, tries, sent }, VisitEventView::Paused) => if tries + 1
                < PAGE_TRIES {
                self.ready(at, (tries + 1) as u32, sent)
            } else if !sent {
                self.go(VisitPhase::Sending { at }, VisitView::Send { at })
            } else {
                self.write(at, false)
            },
            (VisitPhase::Sending { at }, VisitEventView::Sent) => self.ready(at, 0, true),
            (VisitPhase::Writing { at, again }, VisitEventView::Written { missing }) => if missing
                && !again {
                self.go(VisitPhase::WritePause { at }, VisitView::LongPause)
            } else {
                self.visit(at + 1)
            },
            (VisitPhase::WritePause { at }, VisitEventView::Paused) => self.write(at, true),
            _ => (self, VisitView::Keep),
        }
    }

    /// Places stay within the list of the origins, and tries within their number.
    pub open spec fn well_formed(self) -> bool {
        match self.phase {
            VisitPhase::Finding { at }
            | VisitPhase::Opening { at }
            | VisitPhase::Connecting { at }
            | VisitPhase::Sending { at }
            | VisitPhase::Writing { at, .. }
            | VisitPhase::WritePause { at } => at < self.count,
            VisitPhase::Hosting { at, tries } | VisitPhase::HostPause { at, tries } => at
                < self.count && tries < PAGE_TRIES,
            VisitPhase::Readying { at, tries, .. } | VisitPhase::ReadyPause { at, tries, .. } => at
                < self.count && tries < PAGE_TRIES,
            VisitPhase::Done => true,
        }
    }

    /// Whether `event` is of the kind that the pending action causes.
    pub open spec fn awaits(self, event: VisitEventView) -> bool {
        match self.phase {
            VisitPhase::Finding { .. }
            | VisitPhase::Hosting { .. }
            | VisitPhase::Readying { .. } => event is Seen,
            VisitPhase::Opening { .. } => event is Opened,
            VisitPhase::HostPause { .. }
            | VisitPhase::ReadyPause { .. }
            | VisitPhase::WritePause { .. } => event is Paused,
            VisitPhase::Connecting { .. } => event is Connected,
            VisitPhase::Sending { .. } => event is Sent,
            VisitPhase::Writing { .. } => event is Written,
            VisitPhase::Done => false,
        }
    }

    /// An upper bound on the number of actions that are left.
    pub open spec fn steps_left(self) -> int {
        match self.phase {
            VisitPhase::Finding { at } => 200 * (self.count - at),
            VisitPhase::Opening { at } => 200 * (self.count - at) - 1,
            VisitPhase::Hosting { at, tries } => 200 * (self.count - at) - 2 - 2 * tries,
            VisitPhase::HostPause { at, tries } => 200 * (self.count - at) - 3 - 2 * tries,
            VisitPhase::Connecting { at } => 200 * (self.count - at) - 60,
            VisitPhase::Readying { at, tries, sent } => 200 * (self.count - at) - 61 - 2 * tries
                - if sent {
                50int
            } else {
                0int
            },
            VisitPhase::ReadyPause { at, tries, sent } => 200 * (self.count - at) - 62 - 2 * tries
                - if sent {
                50int
            } else {
                0int
            },
            VisitPhase::Sending { at } => 200 * (self.count - at) - 105,
            VisitPhase::Writing { at, again } => 200 * (self.count - at) - if again {
                173int
            } else {
                171int
            },
            VisitPhase::WritePause { at } => 200 * (self.count - at) - 172,
            VisitPhase::Done => 0,
        }
    }

    fn to(&mut self, phase: VisitPhase, action: VisitAction) -> (r: VisitAction)
        ensures
            (*final(self), r@) == old(self).go(phase, action@),
    {
        self.phase = phase;
        action
    }

    fn to_end(&mut self, result: Result<(), String>) -> (r: VisitAction)
        ensures
            (*final(self), r@) == old(self).end(crate::ocr::step_result(result)),
    {
        self.to(VisitPhase::Done, VisitAction::Finish(result))
    }

    fn to_visit(&mut self, at: usize) -> (r: VisitAction)
        ensures
            (*final(self), r@) == old(self).visit(at as int),
    {
        if at < self.count {
            self.to(VisitPhase::Finding { at }, VisitAction::Find { at })
        } else {
            self.to_end(Ok(()))
        }
    }

    /// The visits and what to do first.
    pub fn begin(count: usize) -> (r: (StorageRun, VisitAction))
        ensures
            (r.0, r.1@) == (StorageRun { count, phase: VisitPhase::Done }).visit(0),
            r.0.well_formed(),
    {
        let mut s: StorageRun = StorageRun { count, phase: VisitPhase::Done };
        let action: VisitAction = s.to_visit(0);
        (s, action)
    }

    /// Takes in what came of the pending action and tells what to do next.
    pub fn advance(&mut self, event: VisitEvent) -> (r: VisitAction)
        requires
            old(self).well_formed(),
        ensures
            (*final(self), r@) == old(self).next(event@),
            final(self).well_formed(),
    {
        match (self.phase, event) {
            (VisitPhase::Finding { at }, VisitEvent::Seen(yes)) => if yes {
                self.to(VisitPhase::Hosting { at, tries: 0 }, VisitAction::CheckHost { at })
            } else {
                self.to(VisitPhase::Opening { at }, VisitAction::Open { at })
            },
            (VisitPhase::Opening { at }, VisitEvent::Opened(r)) => match r {
                Ok(_) => self.to(
                    VisitPhase::Hosting { at, tries: 0 },
                    VisitAction::CheckHost { at },
                ),
                Err(e) => self.to_end(Err(e)),
            },
            (VisitPhase::Hosting { at, tries }, VisitEvent::Seen(yes)) => if yes {
                self.to(VisitPhase::Connecting { at }, VisitAction::Connect { at })
            } else {
                self.to(VisitPhase::HostPause { at, tries }, VisitAction::Pause)
            },
            (VisitPhase::HostPause { at, tries }, VisitEvent::Paused) => if tries + 1
                < PAGE_TRIES {
                self.to(
                    VisitPhase::Hosting { at, tries: tries + 1 },
                    VisitAction::CheckHost { at },
                )
            } else {
                self.to(VisitPhase::Connecting { at }, VisitAction::Connect { at })
            },
            (VisitPhase::Connecting { at }, VisitEvent::Connected(r)) => match r {
                Ok(yes) => if yes {
                    self.to(
                        VisitPhase::Readying { at, tries: 0, sent: false },
                        VisitAction::CheckReady { at },
                    )
                } else {
                    self.to_visit(at + 1)
                },
                Err(e) => self.to_end(Err(e)),
            },
            (VisitPhase::Readying { at, tries, sent }, VisitEvent::Seen(yes)) => if yes {
                self.to(
                    VisitPhase::Writing { at, again: false },
                    VisitAction::Write { at, again: false },
                )
            } else {
                self.to(VisitPhase::ReadyPause { at, tries, sent }, VisitAction::Pause)
            },
            (VisitPhase::ReadyPause { at, tries, sent }, VisitEvent::Paused) => if tries + 1
                < PAGE_TRIES {
                self.to(
                    VisitPhase::Readying { at, tries: tries + 1, sent },
                    VisitAction::CheckReady { at },
                )
            } else if !sent {
                self.to(VisitPhase::Sending { at }, VisitAction::Send { at })
            } else {
                self.to(
                    VisitPhase::Writing { at, again: false },
                    VisitAction::Write { at, again: false },
                )
            },
            (VisitPhase::Sending { at }, VisitEvent::Sent) => self.to(
                VisitPhase::Readying { at, tries: 0, sent: true },
                VisitAction::CheckReady { at },
            ),
            (VisitPhase::Writing { at, again }, VisitEvent::Written { missing }) => if missing
                && !again {
                self.to(VisitPhase::WritePause { at }, VisitAction::LongPause)
            } else {
                self.to_visit(at + 1)
            },
            (VisitPhase::WritePause { at }, VisitEvent::Paused) => self.to(
                VisitPhase::Writing { at, again: true },
                VisitAction::Write { at, again: true },
            ),
            _ => VisitAction::Keep,
        }
    }
}

/// Every answered action brings the visits closer to their end.
pub proof fn storage_run_ends(s: StorageRun, event: VisitEventView)
    requires
        s.well_formed(),
        s.awaits(event),
    ensures
        s.next(event).0.well_formed(),
        0 <= s.next(event).0.steps_left() < s.steps_left(),
{
}

/// A page is sent to its origin only where it did not come by itself, and once.
pub proof fn pages_are_sent_once(s: StorageRun, event: VisitEventView)
    requires
        s.next(event).1 is Send,
    ensures
        s.phase matches VisitPhase::ReadyPause { sent, tries, .. } && !sent && tries + 1
            >= PAGE_TRIES,
{
}

impl StorageRun {
    /// The origin that is being visited; all of them where the visits are over.
    pub open spec fn reached(self) -> int {
        match self.phase {
            VisitPhase::Finding { at }
            | VisitPhase::Opening { at }
            | VisitPhase::Connecting { at }
            | VisitPhase::Sending { at }
            | VisitPhase::Writing { at, .. }
            | VisitPhase::WritePause { at } => at as int,
            VisitPhase::Hosting { at, tries } | VisitPhase::HostPause { at, tries } => at as int,
            VisitPhase::Readying { at, .. } | VisitPhase::ReadyPause { at, .. } => at as int,
            VisitPhase::Done => self.count as int,
        }
    }
}

/// An origin is left exactly where its items are written, a second time if some were missing,
/// or where its tab cannot be talked to; the visits then go on with the next origin, or are
/// over after the last one.
pub proof fn storage_run_leaves_no_origin_out(s: StorageRun, event: VisitEventView)
    requires
        s.well_formed(),
        s.awaits(event),
    ensures
        ({
            let (t, action) = s.next(event);
            let broken = (event matches VisitEventView::Opened(r) && r is Err) || (
            event matches VisitEventView::Connected(r) && r is Err);
            let left = event == VisitEventView::Connected(Ok(false)) || (
            event matches VisitEventView::Written { missing } && (!missing
                || s.phase->Writing_again));
            &&& t.count == s.count
            &&& left ==> t.reached() == s.reached() + 1
            &&& !left && !broken ==> t.reached() == s.reached()
            &&& left && s.reached() + 1 < s.count ==> action == (VisitView::Find {
                at: (s.reached() + 1) as usize,
            })
            &&& left && s.reached() + 1 == s.count ==> action == VisitView::Finish(Ok(()))
            &&& action is Finish <==> broken || left && s.reached() + 1 == s.count
            &&& broken ==> (action matches VisitView::Finish(r) && r is Err)
            &&& event matches VisitEventView::Opened(Err(e)) ==> action == VisitView::Finish(Err(e))
            &&& event matches VisitEventView::Connected(Err(e)) ==> action == VisitView::Finish(
                Err(e),
            )
        }),
{
}

/// A visit goes its way: a tab of the origin is used and else opened, its host is waited for
/// for twenty looks, it is connected to, its page is waited for likewise and sent to the
/// origin once in between, and the items are written, the missing ones once more.
pub proof fn storage_visit_goes_its_way(s: StorageRun, event: VisitEventView)
    requires
        s.well_formed(),
        s.awaits(event),
    ensures
        ({
            let (t, action) = s.next(event);
            let at = s.reached() as usize;
            let seen = event == VisitEventView::Seen(true);
            &&& action == (VisitView::Open { at }) <==> s.phase is Finding && !seen
            &&& action is Open ==> s.phase is Finding
            &&& action is CheckHost <==> s.phase is Finding && seen || (
            event matches VisitEventView::Opened(r) && r is Ok) || s.phase is HostPause
                && s.phase->HostPause_tries < 19
            &&& action is Connect <==> s.phase is Hosting && seen || s.phase is HostPause
                && s.phase->HostPause_tries == 19
            &&& action is CheckReady <==> event == VisitEventView::Connected(Ok(true)) || event
                == VisitEventView::Sent || s.phase is ReadyPause && s.phase->ReadyPause_tries < 19
            &&& action is Send <==> s.phase is ReadyPause && s.phase->ReadyPause_tries == 19
                && !s.phase->ReadyPause_sent
            &&& action == (VisitView::Write { at, again: false }) <==> s.phase is Readying && seen
                || s.phase is ReadyPause && s.phase->ReadyPause_tries == 19
                && s.phase->ReadyPause_sent
            &&& action == (VisitView::Write { at, again: true }) <==> s.phase is WritePause
            &&& action is LongPause <==> s.phase is Writing && !s.phase->Writing_again && event == (
            VisitEventView::Written { missing: true })
            &&& action is Pause <==> (s.phase is Hosting || s.phase is Readying) && !seen
            &&& action matches VisitView::CheckHost { at: x } ==> x == at
            &&& action matches VisitView::Connect { at: x } ==> x == at
            &&& action matches VisitView::CheckReady { at: x } ==> x == at
            &&& action matches VisitView::Send { at: x } ==> x == at
            &&& action matches VisitView::Write { at: x, .. } ==> x == at
        }),
{
}

/// The looks are counted from none on, one for each pause, and a page that was sent to its
/// origin is known to be so.
pub proof fn storage_visit_counts_its_looks(s: StorageRun, event: VisitEventView)
    requires
        s.well_formed(),
        s.awaits(event),
    ensures
        ({
            let t = s.next(event).0;
            &&& t.phase is Hosting ==> t.phase->Hosting_tries == (if s.phase is HostPause {
                s.phase->HostPause_tries + 1
            } else {
                0
            })
            &&& t.phase is HostPause ==> s.phase is Hosting && t.phase->HostPause_tries
                == s.phase->Hosting_tries
            &&& t.phase is Readying ==> t.phase->Readying_tries == (if s.phase is ReadyPause {
                s.phase->ReadyPause_tries + 1
            } else {
                0
            }) && t.phase->Readying_sent == (s.phase is Sending || s.phase is ReadyPause
                && s.phase->ReadyPause_sent)
            &&& t.phase is ReadyPause ==> s.phase is Readying && t.phase->ReadyPause_tries
                == s.phase->Readying_tries && t.phase->ReadyPause_sent == s.phase->Readying_sent
        }),
{
}

} // verus!
