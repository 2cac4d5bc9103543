//! A keep-alive round as a state machine: fetch cookies, prepare the browser, visit
//! the sites one by one or all at once, and close what was opened.

use crate::text::str_eq;
use vstd::prelude::*;

verus! {

/// What is told of a round. A site is named by its place among the sites of the
/// round; the text of an error comes with the event that it was caused by.
#[derive(Debug, Clone, Copy, PartialEq, Eq, Structural)]
pub enum KeepNote {
    NoSites,
    SyncStarted,
    SyncDone { imported: usize, parsed: usize },
    SyncFailed,
    ReusedPort { port: u16 },
    LaunchStarted,
    Launched,
    LaunchFailed,
    Started { count: usize },
    Delayed { seconds: u64 },
    Visiting { site: usize },
    Staying { site: usize, seconds: u64 },
    StopCloseFailed,
    CloseFailed,
    Kept { site: usize },
    VisitFailed { site: usize },
    Pausing { seconds: u64 },
    AllDone,
    Opening { site: usize },
    Opened { site: usize },
    OpenFailed { site: usize },
    NothingOpened,
    StayingOnAll { count: usize, seconds: u64 },
    SiteStopCloseFailed { site: usize },
    SiteCloseFailed { site: usize },
}

/// What a wait is for.
#[derive(Debug, Clone, Copy, PartialEq, Eq, Structural)]
pub enum SleepStage {
    Delay,
    Stay { site: usize },
    Interval,
    StayOnAll,
}

/// What has to be done next.
#[derive(Debug, Clone, Copy, PartialEq, Eq, Structural)]
pub enum KeepAction {
    /// Fetch cookies and write them to the browser.
    Sync,
    /// Look for the port of a running browser.
    FindPort,
    /// Start the browser, with the sites of the round or without.
    Launch { with_sites: bool },
    /// Draw a number at random.
    Draw { low: u64, high: u64 },
    /// Wait, unless the user asks to stop.
    Sleep { seconds: u64, stage: SleepStage },
    /// Open a site, in a tab that shows it already where `reuse` allows it.
    Open { site: usize, reuse: bool },
    /// Log in to a site, and go on when that is over.
    Login { site: usize },
    /// Begin to log in to a site, and go on at once.
    StartLogin { site: usize },
    /// Wait for the logins that were begun.
    JoinLogins,
    /// Close the tab of a site.
    Close { site: usize },
    /// The round is over; `cancelled` tells whether it was broken off.
    Finish { cancelled: bool },
    /// Nothing new: the action before is still to be answered.
    Keep,
}

/// What came of an action.
#[derive(Debug)]
pub enum KeepEvent {
    Synced { parsed: usize, imported: usize },
    SyncFailed { message: String },
    Port(Option<u16>),
    Launched { port: u16, opened: usize },
    LaunchFailed { message: String },
    Drawn(u64),
    /// A wait is over, or was interrupted.
    Slept { interrupted: bool },
    /// A tab was opened or not.
    Tab(bool),
    /// A login is over, was begun, or all of them are over.
    LoginsDone,
    /// A tab was closed or not.
    Closed(bool),
}

/// Where a round stands.
#[derive(Debug, Clone, Copy, PartialEq, Eq, Structural)]
pub enum KeepPhase {
    Syncing,
    FindingPort,
    Launching,
    DrawingDelay,
    Delaying,
    Opening { site: usize },
    LoggingIn { site: usize },
    DrawingStay { site: usize },
    Staying { site: usize },
    ClosingOnStop { site: usize },
    Closing { site: usize },
    DrawingInterval { site: usize },
    Pausing { site: usize },
    BatchOpening { site: usize },
    BatchStarting { site: usize },
    BatchJoining,
    BatchStaying,
    BatchStopping { tab: usize },
    BatchClosing { tab: usize },
    Done { cancelled: bool },
}

/// A round in progress.
#[derive(Debug)]
pub struct KeepAlive {
    /// For each site whether it is logged in to.
    pub auto_login: Vec<bool>,
    /// The configured port of the browser.
    pub cdp_port: u16,
    /// The port that the browser listens on.
    pub port: u16,
    /// Whether the round was started by the schedule, and not by hand.
    pub scheduled: bool,
    pub auto_sync: bool,
    /// The upper limit of the delay of a scheduled round, in seconds.
    pub max_delay: u64,
    /// How long to stay on a site, in seconds.
    pub visit_duration: u64,
    /// Whether the browser was started with the sites of the round.
    pub reuse: bool,
    /// The sites that were opened in a round by hand.
    pub opened: Vec<usize>,
    pub phase: KeepPhase,
}

/// The state of a round.
pub struct KeepModel {
    pub auto_login: Seq<bool>,
    pub cdp_port: u16,
    pub port: u16,
    pub scheduled: bool,
    pub auto_sync: bool,
    pub max_delay: u64,
    pub visit_duration: u64,
    pub reuse: bool,
    pub opened: Seq<usize>,
    pub phase: KeepPhase,
}

/// What is told and what is to be done.
#[derive(Debug)]
pub struct KeepTurn {
    pub notes: Vec<KeepNote>,
    pub action: KeepAction,
}

/// A state with what is told and what is to be done in it.
pub struct KeepStep {
    pub state: KeepModel,
    pub notes: Seq<KeepNote>,
    pub action: KeepAction,
}

impl View for KeepAlive {
    type V = KeepModel;

    open spec fn view(&self) -> KeepModel {
        KeepModel {
            auto_login: self.auto_login@,
            cdp_port: self.cdp_port,
            port: self.port,
            scheduled: self.scheduled,
            auto_sync: self.auto_sync,
            max_delay: self.max_delay,
            visit_duration: self.visit_duration,
            reuse: self.reuse,
            opened: self.opened@,
            phase: self.phase,
        }
    }
}

/// The text of a cancelled operation.
pub const CDP_CANCELLED: &'static str = "CDP 操作已终止";

/// A sum that stops at the largest number.
pub open spec fn capped_sum(a: u64, b: u64) -> u64 {
    if a + b > u64::MAX {
        u64::MAX
    } else {
        (a + b) as u64
    }
}

impl KeepModel {
    pub open spec fn count(self) -> int {
        self.auto_login.len() as int
    }

    pub open spec fn at(self, phase: KeepPhase) -> KeepModel {
        KeepModel { phase, ..self }
    }

    pub open spec fn step(
        self,
        phase: KeepPhase,
        notes: Seq<KeepNote>,
        action: KeepAction,
    ) -> KeepStep {
        KeepStep { state: self.at(phase), notes, action }
    }

    pub open spec fn finish(self, notes: Seq<KeepNote>, cancelled: bool) -> KeepStep {
        self.step(KeepPhase::Done { cancelled }, notes, KeepAction::Finish { cancelled })
    }

    pub open spec fn find_port(self, notes: Seq<KeepNote>) -> KeepStep {
        self.step(KeepPhase::FindingPort, notes, KeepAction::FindPort)
    }

    /// How a round begins.
    pub open spec fn begun(self) -> KeepStep {
        if self.count() == 0 {
            self.finish(seq![KeepNote::NoSites], false)
        } else if self.auto_sync {
            self.step(KeepPhase::Syncing, seq![KeepNote::SyncStarted], KeepAction::Sync)
        } else {
            self.find_port(Seq::empty())
        }
    }

    /// What follows a failure before any site was visited.
    pub open spec fn stops_on(self, message: Seq<char>, cancelled: bool) -> bool {
        message == CDP_CANCELLED@ || cancelled
    }

    /// What follows once the browser is there.
    pub open spec fn with_browser(self, notes: Seq<KeepNote>, cancelled: bool) -> KeepStep {
        if cancelled {
            self.finish(notes, true)
        } else {
            let told = notes.push(KeepNote::Started { count: self.auto_login.len() as usize });
            if self.scheduled && self.max_delay > 0 {
                self.step(
                    KeepPhase::DrawingDelay,
                    told,
                    KeepAction::Draw { low: 0, high: self.max_delay },
                )
            } else {
                self.work(told, cancelled)
            }
        }
    }

    pub open spec fn work(self, notes: Seq<KeepNote>, cancelled: bool) -> KeepStep {
        if self.scheduled {
            self.visit(0, notes, cancelled)
        } else {
            self.open(0, notes, cancelled)
        }
    }

    /// The visit of the site at a place, in a scheduled round.
    pub open spec fn visit(self, site: int, notes: Seq<KeepNote>, cancelled: bool) -> KeepStep {
        if site >= self.count() {
            self.finish(notes.push(KeepNote::AllDone), false)
        } else if cancelled {
            self.finish(notes, true)
        } else {
            self.step(
                KeepPhase::Opening { site: site as usize },
                notes.push(KeepNote::Visiting { site: site as usize }),
                KeepAction::Open { site: site as usize, reuse: self.reuse },
            )
        }
    }

    pub open spec fn pause(self, site: usize, notes: Seq<KeepNote>) -> KeepStep {
        self.step(
            KeepPhase::DrawingInterval { site },
            notes,
            KeepAction::Draw { low: 5, high: 14 },
        )
    }

    /// The opening of the site at a place, in a round by hand.
    pub open spec fn open(self, site: int, notes: Seq<KeepNote>, cancelled: bool) -> KeepStep {
        if site >= self.count() {
            self.step(KeepPhase::BatchJoining, notes, KeepAction::JoinLogins)
        } else if cancelled {
            self.stop_tabs(0, notes)
        } else {
            self.step(
                KeepPhase::BatchOpening { site: site as usize },
                notes.push(KeepNote::Opening { site: site as usize }),
                KeepAction::Open { site: site as usize, reuse: self.reuse },
            )
        }
    }

    /// The closing of the opened tabs from a place on, in a round that is broken off.
    pub open spec fn stop_tabs(self, tab: int, notes: Seq<KeepNote>) -> KeepStep {
        if tab < self.opened.len() {
            self.step(
                KeepPhase::BatchStopping { tab: tab as usize },
                notes,
                KeepAction::Close { site: self.opened[tab] },
            )
        } else {
            self.finish(notes, true)
        }
    }

    /// The closing of the opened tabs from a place on.
    pub open spec fn close_tabs(self, tab: int, notes: Seq<KeepNote>) -> KeepStep {
        if tab < self.opened.len() {
            self.step(
                KeepPhase::BatchClosing { tab: tab as usize },
                notes,
                KeepAction::Close { site: self.opened[tab] },
            )
        } else {
            self.finish(notes.push(KeepNote::AllDone), false)
        }
    }

    /// What follows an event before any site was visited.
    pub open spec fn next_early(self, event: KeepEvent, cancelled: bool) -> KeepStep {
        match (self.phase, event) {
            (KeepPhase::Syncing, KeepEvent::Synced { parsed, imported }) => self.find_port(
                seq![KeepNote::SyncDone { imported, parsed }],
            ),
            (KeepPhase::Syncing, KeepEvent::SyncFailed { message }) => if self.stops_on(
                message@,
                cancelled,
            ) {
                self.finish(Seq::empty(), true)
            } else {
                self.find_port(seq![KeepNote::SyncFailed])
            },
            (KeepPhase::FindingPort, KeepEvent::Port(found)) => match found {
                Some(port) => KeepModel { port, ..self }.with_browser(
                    if port != self.cdp_port {
                        seq![KeepNote::ReusedPort { port }]
                    } else {
                        Seq::empty()
                    },
                    cancelled,
                ),
                None => self.step(
                    KeepPhase::Launching,
                    seq![KeepNote::LaunchStarted],
                    KeepAction::Launch { with_sites: !self.scheduled },
                ),
            },
            (KeepPhase::Launching, KeepEvent::Launched { port, opened }) => KeepModel {
                port,
                reuse: opened > 0,
                ..self
            }.with_browser(seq![KeepNote::Launched], cancelled),
            (KeepPhase::Launching, KeepEvent::LaunchFailed { message }) => if self.stops_on(
                message@,
                cancelled,
            ) {
                self.finish(Seq::empty(), true)
            } else {
                self.finish(seq![KeepNote::LaunchFailed], false)
            },
            (KeepPhase::DrawingDelay, KeepEvent::Drawn(n)) => self.step(
                KeepPhase::Delaying,
                seq![KeepNote::Delayed { seconds: n }],
                KeepAction::Sleep { seconds: n, stage: SleepStage::Delay },
            ),
            (KeepPhase::Delaying, KeepEvent::Slept { interrupted }) => if interrupted {
                self.finish(Seq::empty(), true)
            } else {
                self.work(Seq::empty(), cancelled)
            },
            _ => KeepStep { state: self, notes: Seq::empty(), action: KeepAction::Keep },
        }
    }

    /// What follows an event while the sites are visited one by one.
    pub open spec fn next_visit(self, event: KeepEvent, cancelled: bool) -> KeepStep {
        match (self.phase, event) {
            (KeepPhase::Opening { site }, KeepEvent::Tab(ok)) => if ok {
                self.step(KeepPhase::LoggingIn { site }, Seq::empty(), KeepAction::Login { site })
            } else {
                self.pause(site, seq![KeepNote::VisitFailed { site }])
            },
            (KeepPhase::LoggingIn { site }, KeepEvent::LoginsDone) => self.step(
                KeepPhase::DrawingStay { site },
                Seq::empty(),
                KeepAction::Draw { low: 0, high: 9 },
            ),
            (KeepPhase::DrawingStay { site }, KeepEvent::Drawn(n)) => {
                let seconds = capped_sum(self.visit_duration, n);
                self.step(
                    KeepPhase::Staying { site },
                    seq![KeepNote::Staying { site, seconds }],
                    KeepAction::Sleep { seconds, stage: SleepStage::Stay { site } },
                )
            },
            (KeepPhase::Staying { site }, KeepEvent::Slept { interrupted }) => self.step(
                if interrupted {
                    KeepPhase::ClosingOnStop { site }
                } else {
                    KeepPhase::Closing { site }
                },
                Seq::empty(),
                KeepAction::Close { site },
            ),
            (KeepPhase::ClosingOnStop { site }, KeepEvent::Closed(ok)) => self.finish(
                if ok {
                    Seq::empty()
                } else {
                    seq![KeepNote::StopCloseFailed]
                },
                true,
            ),
            (KeepPhase::Closing { site }, KeepEvent::Closed(ok)) => self.pause(
                site,
                if ok {
                    seq![KeepNote::Kept { site }]
                } else {
                    seq![KeepNote::CloseFailed, KeepNote::Kept { site }]
                },
            ),
            (KeepPhase::DrawingInterval { site }, KeepEvent::Drawn(n)) => self.step(
                KeepPhase::Pausing { site },
                seq![KeepNote::Pausing { seconds: n }],
                KeepAction::Sleep { seconds: n, stage: SleepStage::Interval },
            ),
            (KeepPhase::Pausing { site }, KeepEvent::Slept { interrupted }) => if interrupted {
                self.finish(Seq::empty(), true)
            } else {
                self.visit(site + 1, Seq::empty(), cancelled)
            },
            _ => KeepStep { state: self, notes: Seq::empty(), action: KeepAction::Keep },
        }
    }

    /// What follows an event while the sites are opened all at once.
    pub open spec fn next_batch(self, event: KeepEvent, cancelled: bool) -> KeepStep {
        match (self.phase, event) {
            (KeepPhase::BatchOpening { site }, KeepEvent::Tab(ok)) => if !ok {
                self.open(site + 1, seq![KeepNote::OpenFailed { site }], cancelled)
            } else {
                let s = KeepModel { opened: self.opened.push(site), ..self };
                if self.auto_login[site as int] {
                    s.step(
                        KeepPhase::BatchStarting { site },
                        Seq::empty(),
                        KeepAction::StartLogin { site },
                    )
                } else {
                    s.open(site + 1, seq![KeepNote::Opened { site }], cancelled)
                }
            },
            (KeepPhase::BatchStarting { site }, KeepEvent::LoginsDone) => self.open(
                site + 1,
                seq![KeepNote::Opened { site }],
                cancelled,
            ),
            (KeepPhase::BatchJoining, KeepEvent::LoginsDone) => if self.opened.len() == 0 {
                self.finish(seq![KeepNote::NothingOpened], false)
            } else {
                self.step(
                    KeepPhase::BatchStaying,
                    seq![
                        KeepNote::StayingOnAll {
                            count: self.opened.len() as usize,
                            seconds: self.visit_duration,
                        },
                    ],
                    KeepAction::Sleep {
                        seconds: self.visit_duration,
                        stage: SleepStage::StayOnAll,
                    },
                )
            },
            (KeepPhase::BatchStaying, KeepEvent::Slept { interrupted }) => if interrupted {
                self.stop_tabs(0, Seq::empty())
            } else {
                self.close_tabs(0, Seq::empty())
            },
            (KeepPhase::BatchStopping { tab }, KeepEvent::Closed(ok)) => self.stop_tabs(
                tab + 1,
                if ok {
                    Seq::empty()
                } else {
                    seq![KeepNote::SiteStopCloseFailed { site: self.opened[tab as int] }]
                },
            ),
            (KeepPhase::BatchClosing { tab }, KeepEvent::Closed(ok)) => self.close_tabs(
                tab + 1,
                if ok {
                    seq![KeepNote::Kept { site: self.opened[tab as int] }]
                } else {
                    seq![KeepNote::SiteCloseFailed { site: self.opened[tab as int] }]
                },
            ),
            _ => KeepStep { state: self, notes: Seq::empty(), action: KeepAction::Keep },
        }
    }

    /// Whether the sites are not reached yet.
    pub open spec fn is_early(self) -> bool {
        match self.phase {
            KeepPhase::Syncing
            | KeepPhase::FindingPort
            | KeepPhase::Launching
            | KeepPhase::DrawingDelay
            | KeepPhase::Delaying => true,
            _ => false,
        }
    }

    /// What follows an event; `cancelled` tells whether the user has asked to stop by
    /// now. An event that the pending action cannot cause changes nothing.
    pub open spec fn next(self, event: KeepEvent, cancelled: bool) -> KeepStep {
        if self.is_early() {
            self.next_early(event, cancelled)
        } else if self.scheduled {
            self.next_visit(event, cancelled)
        } else {
            self.next_batch(event, cancelled)
        }
    }

    /// The place of the site that is opened next, in a round by hand.
    pub open spec fn batch_progress(self) -> int {
        match self.phase {
            KeepPhase::BatchOpening { site } => site as int,
            KeepPhase::BatchStarting { site } => site + 1,
            _ => if self.is_early() {
                0
            } else {
                self.count()
            },
        }
    }

    /// Places stay within the lists, and no more tabs are open than sites were
    /// reached.
    pub open spec fn well_formed(self) -> bool {
        &&& self.auto_login.len() <= usize::MAX
        &&& self.opened.len() <= self.batch_progress()
        &&& forall|k: int| 0 <= k < self.opened.len() ==> #[trigger] self.opened[k] < self.count()
        &&& match self.phase {
            KeepPhase::Opening { site }
            | KeepPhase::LoggingIn { site }
            | KeepPhase::DrawingStay { site }
            | KeepPhase::Staying { site }
            | KeepPhase::ClosingOnStop { site }
            | KeepPhase::Closing { site }
            | KeepPhase::DrawingInterval { site }
            | KeepPhase::Pausing { site }
            | KeepPhase::BatchOpening { site }
            | KeepPhase::BatchStarting { site } => site < self.count(),
            KeepPhase::BatchStopping { tab } | KeepPhase::BatchClosing { tab } => tab
                < self.opened.len(),
            _ => true,
        }
    }
}

/// What a state and a turn amount to.
pub open spec fn step_of(state: KeepModel, turn: KeepTurn) -> KeepStep {
    KeepStep { state, notes: turn.notes@, action: turn.action }
}

fn no_notes() -> (r: Vec<KeepNote>)
    ensures
        r@ == Seq::<KeepNote>::empty(),
{
    Vec::new()
}

fn one_note(note: KeepNote) -> (r: Vec<KeepNote>)
    ensures
        r@ == seq![note],
{
    let mut v: Vec<KeepNote> = Vec::new();
    v.push(note);
    assert(v@ =~= seq![note]);
    v
}

fn and_note(notes: Vec<KeepNote>, note: KeepNote) -> (r: Vec<KeepNote>)
    ensures
        r@ == notes@.push(note),
{
    let mut v: Vec<KeepNote> = notes;
    v.push(note);
    v
}

impl KeepAlive {
    fn go(&mut self, phase: KeepPhase, notes: Vec<KeepNote>, action: KeepAction) -> (r: KeepTurn)
        ensures
            step_of(final(self)@, r) == old(self)@.step(phase, notes@, action),
    {
        self.phase = phase;
        KeepTurn { notes, action }
    }

    fn finish(&mut self, notes: Vec<KeepNote>, cancelled: bool) -> (r: KeepTurn)
        ensures
            step_of(final(self)@, r) == old(self)@.finish(notes@, cancelled),
    {
        self.go(KeepPhase::Done { cancelled }, notes, KeepAction::Finish { cancelled })
    }

    fn find_port(&mut self, notes: Vec<KeepNote>) -> (r: KeepTurn)
        ensures
            step_of(final(self)@, r) == old(self)@.find_port(notes@),
    {
        self.go(KeepPhase::FindingPort, notes, KeepAction::FindPort)
    }

    fn keep(&self) -> (r: KeepTurn)
        ensures
            r.notes@ == Seq::<KeepNote>::empty(),
            r.action == KeepAction::Keep,
    {
        KeepTurn { notes: no_notes(), action: KeepAction::Keep }
    }

    /// A round and what to do first. `offset_minutes` is the upper limit of the delay
    /// of a scheduled round; below zero it counts as none.
    pub fn begin(
        auto_login: Vec<bool>,
        cdp_port: u16,
        scheduled: bool,
        auto_sync: bool,
        offset_minutes: i32,
        visit_duration: u64,
    ) -> (r: (KeepAlive, KeepTurn))
        ensures
            step_of(r.0@, r.1) == (KeepModel {
                auto_login: auto_login@,
                cdp_port,
                port: cdp_port,
                scheduled,
                auto_sync,
                max_delay: if offset_minutes > 0 {
                    (offset_minutes * 60) as u64
                } else {
                    0
                },
                visit_duration,
                reuse: false,
                opened: Seq::empty(),
                phase: KeepPhase::FindingPort,
            }).begun(),
            r.0@.well_formed(),
    {
        let max_delay: u64 = if offset_minutes > 0 {
            (offset_minutes as u64) * 60
        } else {
            0
        };
        let count: usize = auto_login.len();
        let mut round: KeepAlive = KeepAlive {
            auto_login,
            cdp_port,
            port: cdp_port,
            scheduled,
            auto_sync,
            max_delay,
            visit_duration,
            reuse: false,
            opened: Vec::new(),
            phase: KeepPhase::FindingPort,
        };
        assert(round@.opened =~= Seq::<usize>::empty());
        let turn: KeepTurn = if count == 0 {
            round.finish(one_note(KeepNote::NoSites), false)
        } else if auto_sync {
            round.go(KeepPhase::Syncing, one_note(KeepNote::SyncStarted), KeepAction::Sync)
        } else {
            round.find_port(no_notes())
        };
        (round, turn)
    }

    fn visit(&mut self, site: usize, notes: Vec<KeepNote>, cancelled: bool) -> (r: KeepTurn)
        ensures
            step_of(final(self)@, r) == old(self)@.visit(site as int, notes@, cancelled),
    {
        if site >= self.auto_login.len() {
            self.finish(and_note(notes, KeepNote::AllDone), false)
        } else if cancelled {
            self.finish(notes, true)
        } else {
            let reuse: bool = self.reuse;
            self.go(
                KeepPhase::Opening { site },
                and_note(notes, KeepNote::Visiting { site }),
                KeepAction::Open { site, reuse },
            )
        }
    }

    fn stop_tabs(&mut self, tab: usize, notes: Vec<KeepNote>) -> (r: KeepTurn)
        ensures
            step_of(final(self)@, r) == old(self)@.stop_tabs(tab as int, notes@),
    {
        if tab < self.opened.len() {
            let site: usize = self.opened[tab];
            self.go(KeepPhase::BatchStopping { tab }, notes, KeepAction::Close { site })
        } else {
            self.finish(notes, true)
        }
    }

    fn close_tabs(&mut self, tab: usize, notes: Vec<KeepNote>) -> (r: KeepTurn)
        ensures
            step_of(final(self)@, r) == old(self)@.close_tabs(tab as int, notes@),
    {
        if tab < self.opened.len() {
            let site: usize = self.opened[tab];
            self.go(KeepPhase::BatchClosing { tab }, notes, KeepAction::Close { site })
        } else {
            self.finish(and_note(notes, KeepNote::AllDone), false)
        }
    }

    fn open(&mut self, site: usize, notes: Vec<KeepNote>, cancelled: bool) -> (r: KeepTurn)
        ensures
            step_of(final(self)@, r) == old(self)@.open(site as int, notes@, cancelled),
    {
        if site >= self.auto_login.len() {
            self.go(KeepPhase::BatchJoining, notes, KeepAction::JoinLogins)
        } else if cancelled {
            self.stop_tabs(0, notes)
        } else {
            let reuse: bool = self.reuse;
            self.go(
                KeepPhase::BatchOpening { site },
                and_note(notes, KeepNote::Opening { site }),
                KeepAction::Open { site, reuse },
            )
        }
    }

    fn work(&mut self, notes: Vec<KeepNote>, cancelled: bool) -> (r: KeepTurn)
        ensures
            step_of(final(self)@, r) == old(self)@.work(notes@, cancelled),
    {
        if self.scheduled {
            self.visit(0, notes, cancelled)
        } else {
            self.open(0, notes, cancelled)
        }
    }

    fn with_browser(&mut self, notes: Vec<KeepNote>, cancelled: bool) -> (r: KeepTurn)
        ensures
            step_of(final(self)@, r) == old(self)@.with_browser(notes@, cancelled),
    {
        if cancelled {
            self.finish(notes, true)
        } else {
            let count: usize = self.auto_login.len();
            let told: Vec<KeepNote> = and_note(notes, KeepNote::Started { count });
            if self.scheduled && self.max_delay > 0 {
                let high: u64 = self.max_delay;
                self.go(KeepPhase::DrawingDelay, told, KeepAction::Draw { low: 0, high })
            } else {
                self.work(told, cancelled)
            }
        }
    }

    fn pause(&mut self, site: usize, notes: Vec<KeepNote>) -> (r: KeepTurn)
        ensures
            step_of(final(self)@, r) == old(self)@.pause(site, notes@),
    {
        self.go(KeepPhase::DrawingInterval { site }, notes, KeepAction::Draw { low: 5, high: 14 })
    }

    fn advance_early(&mut self, event: &KeepEvent, cancelled: bool) -> (r: KeepTurn)
        ensures
            step_of(final(self)@, r) == old(self)@.next_early(*event, cancelled),
    {
        match (self.phase, event) {
            (KeepPhase::Syncing, KeepEvent::Synced { parsed, imported }) => self.find_port(
                one_note(KeepNote::SyncDone { imported: *imported, parsed: *parsed }),
            ),
            (KeepPhase::Syncing, KeepEvent::SyncFailed { message }) => {
                if str_eq(message.as_str(), CDP_CANCELLED) || cancelled {
                    self.finish(no_notes(), true)
                } else {
                    self.find_port(one_note(KeepNote::SyncFailed))
                }
            },
            (KeepPhase::FindingPort, KeepEvent::Port(found)) => match found {
                Some(port) => {
                    let notes: Vec<KeepNote> = if *port != self.cdp_port {
                        one_note(KeepNote::ReusedPort { port: *port })
                    } else {
                        no_notes()
                    };
                    self.port = *port;
                    self.with_browser(notes, cancelled)
                },
                None => {
                    let with_sites: bool = !self.scheduled;
                    self.go(
                        KeepPhase::Launching,
                        one_note(KeepNote::LaunchStarted),
                        KeepAction::Launch { with_sites },
                    )
                },
            },
            (KeepPhase::Launching, KeepEvent::Launched { port, opened }) => {
                self.port = *port;
                self.reuse = *opened > 0;
                self.with_browser(one_note(KeepNote::Launched), cancelled)
            },
            (KeepPhase::Launching, KeepEvent::LaunchFailed { message }) => {
                if str_eq(message.as_str(), CDP_CANCELLED) || cancelled {
                    self.finish(no_notes(), true)
                } else {
                    self.finish(one_note(KeepNote::LaunchFailed), false)
                }
            },
            (KeepPhase::DrawingDelay, KeepEvent::Drawn(n)) => self.go(
                KeepPhase::Delaying,
                one_note(KeepNote::Delayed { seconds: *n }),
                KeepAction::Sleep { seconds: *n, stage: SleepStage::Delay },
            ),
            (KeepPhase::Delaying, KeepEvent::Slept { interrupted }) => {
                if *interrupted {
                    self.finish(no_notes(), true)
                } else {
                    self.work(no_notes(), cancelled)
                }
            },
            _ => self.keep(),
        }
    }

    fn advance_visit(&mut self, event: &KeepEvent, cancelled: bool) -> (r: KeepTurn)
        requires
            old(self)@.well_formed(),
        ensures
            step_of(final(self)@, r) == old(self)@.next_visit(*event, cancelled),
    {
        match (self.phase, event) {
            (KeepPhase::Opening { site }, KeepEvent::Tab(ok)) => {
                if *ok {
                    self.go(
                        KeepPhase::LoggingIn { site },
                        no_notes(),
                        KeepAction::Login { site },
                    )
                } else {
                    self.pause(site, one_note(KeepNote::VisitFailed { site }))
                }
            },
            (KeepPhase::LoggingIn { site }, KeepEvent::LoginsDone) => self.go(
                KeepPhase::DrawingStay { site },
                no_notes(),
                KeepAction::Draw { low: 0, high: 9 },
            ),
            (KeepPhase::DrawingStay { site }, KeepEvent::Drawn(n)) => {
                let seconds: u64 = self.visit_duration.saturating_add(*n);
                self.go(
                    KeepPhase::Staying { site },
                    one_note(KeepNote::Staying { site, seconds }),
                    KeepAction::Sleep { seconds, stage: SleepStage::Stay { site } },
                )
            },
            (KeepPhase::Staying { site }, KeepEvent::Slept { interrupted }) => {
                if *interrupted {
                    self.go(
                        KeepPhase::ClosingOnStop { site },
                        no_notes(),
                        KeepAction::Close { site },
                    )
                } else {
                    self.go(KeepPhase::Closing { site }, no_notes(), KeepAction::Close { site })
                }
            },
            (KeepPhase::ClosingOnStop { .. }, KeepEvent::Closed(ok)) => {
                if *ok {
                    self.finish(no_notes(), true)
                } else {
                    self.finish(one_note(KeepNote::StopCloseFailed), true)
                }
            },
            (KeepPhase::Closing { site }, KeepEvent::Closed(ok)) => {
                if *ok {
                    self.pause(site, one_note(KeepNote::Kept { site }))
                } else {
                    let notes: Vec<KeepNote> = and_note(
                        one_note(KeepNote::CloseFailed),
                        KeepNote::Kept { site },
                    );
                    assert(notes@ =~= seq![KeepNote::CloseFailed, KeepNote::Kept { site }]);
                    self.pause(site, notes)
                }
            },
            (KeepPhase::DrawingInterval { site }, KeepEvent::Drawn(n)) => self.go(
                KeepPhase::Pausing { site },
                one_note(KeepNote::Pausing { seconds: *n }),
                KeepAction::Sleep { seconds: *n, stage: SleepStage::Interval },
            ),
            (KeepPhase::Pausing { site }, KeepEvent::Slept { interrupted }) => {
                if *interrupted {
                    self.finish(no_notes(), true)
                } else {
                    self.visit(site + 1, no_notes(), cancelled)
                }
            },
            _ => self.keep(),
        }
    }

    fn advance_batch(&mut self, event: &KeepEvent, cancelled: bool) -> (r: KeepTurn)
        requires
            old(self)@.well_formed(),
        ensures
            step_of(final(self)@, r) == old(self)@.next_batch(*event, cancelled),
    {
        match (self.phase, event) {
            (KeepPhase::BatchOpening { site }, KeepEvent::Tab(ok)) => {
                if !*ok {
                    self.open(site + 1, one_note(KeepNote::OpenFailed { site }), cancelled)
                } else {
                    self.opened.push(site);
                    if self.auto_login[site] {
                        self.go(
                            KeepPhase::BatchStarting { site },
                            no_notes(),
                            KeepAction::StartLogin { site },
                        )
                    } else {
                        self.open(site + 1, one_note(KeepNote::Opened { site }), cancelled)
                    }
                }
            },
            (KeepPhase::BatchStarting { site }, KeepEvent::LoginsDone) => self.open(
                site + 1,
                one_note(KeepNote::Opened { site }),
                cancelled,
            ),
            (KeepPhase::BatchJoining, KeepEvent::LoginsDone) => {
                if self.opened.len() == 0 {
                    self.finish(one_note(KeepNote::NothingOpened), false)
                } else {
                    let count: usize = self.opened.len();
                    let seconds: u64 = self.visit_duration;
                    self.go(
                        KeepPhase::BatchStaying,
                        one_note(KeepNote::StayingOnAll { count, seconds }),
                        KeepAction::Sleep { seconds, stage: SleepStage::StayOnAll },
                    )
                }
            },
            (KeepPhase::BatchStaying, KeepEvent::Slept { interrupted }) => {
                if *interrupted {
                    self.stop_tabs(0, no_notes())
                } else {
                    self.close_tabs(0, no_notes())
                }
            },
            (KeepPhase::BatchStopping { tab }, KeepEvent::Closed(ok)) => {
                let site: usize = self.opened[tab];
                let notes: Vec<KeepNote> = if *ok {
                    no_notes()
                } else {
                    one_note(KeepNote::SiteStopCloseFailed { site })
                };
                self.stop_tabs(tab + 1, notes)
            },
            (KeepPhase::BatchClosing { tab }, KeepEvent::Closed(ok)) => {
                let site: usize = self.opened[tab];
                let notes: Vec<KeepNote> = if *ok {
                    one_note(KeepNote::Kept { site })
                } else {
                    one_note(KeepNote::SiteCloseFailed { site })
                };
                self.close_tabs(tab + 1, notes)
            },
            _ => self.keep(),
        }
    }

    /// Takes in what came of the pending action and tells what to do next.
    pub fn advance(&mut self, event: &KeepEvent, cancelled: bool) -> (r: KeepTurn)
        requires
            old(self)@.well_formed(),
        ensures
            step_of(final(self)@, r) == old(self)@.next(*event, cancelled),
            final(self)@.well_formed(),
    {
        proof {
            keepalive_stays_well_formed(self@, *event, cancelled);
        }
        let early: bool = match self.phase {
            KeepPhase::Syncing
            | KeepPhase::FindingPort
            | KeepPhase::Launching
            | KeepPhase::DrawingDelay
            | KeepPhase::Delaying => true,
            _ => false,
        };
        if early {
            self.advance_early(event, cancelled)
        } else if self.scheduled {
            self.advance_visit(event, cancelled)
        } else {
            self.advance_batch(event, cancelled)
        }
    }
}

/// No event takes a round out of its bounds.
pub proof fn keepalive_stays_well_formed(s: KeepModel, event: KeepEvent, cancelled: bool)
    requires
        s.well_formed(),
    ensures
        s.next(event, cancelled).state.well_formed(),
{
}

impl KeepModel {
    /// Whether `event` is of the kind that the pending action causes.
    pub open spec fn awaits(self, event: KeepEvent) -> bool {
        match self.phase {
            KeepPhase::Syncing => event is Synced || event is SyncFailed,
            KeepPhase::FindingPort => event is Port,
            KeepPhase::Launching => event is Launched || event is LaunchFailed,
            KeepPhase::DrawingDelay => event is Drawn,
            KeepPhase::Delaying => event is Slept,
            KeepPhase::Opening { .. } => self.scheduled && event is Tab,
            KeepPhase::LoggingIn { .. } => self.scheduled && event is LoginsDone,
            KeepPhase::DrawingStay { .. } => self.scheduled && event is Drawn,
            KeepPhase::Staying { .. } => self.scheduled && event is Slept,
            KeepPhase::ClosingOnStop { .. } => self.scheduled && event is Closed,
            KeepPhase::Closing { .. } => self.scheduled && event is Closed,
            KeepPhase::DrawingInterval { .. } => self.scheduled && event is Drawn,
            KeepPhase::Pausing { .. } => self.scheduled && event is Slept,
            KeepPhase::BatchOpening { .. } => !self.scheduled && event is Tab,
            KeepPhase::BatchStarting { .. } => !self.scheduled && event is LoginsDone,
            KeepPhase::BatchJoining => !self.scheduled && event is LoginsDone,
            KeepPhase::BatchStaying => !self.scheduled && event is Slept,
            KeepPhase::BatchStopping { .. } => !self.scheduled && event is Closed,
            KeepPhase::BatchClosing { .. } => !self.scheduled && event is Closed,
            KeepPhase::Done { .. } => false,
        }
    }

    /// An upper bound on the number of actions until the round ends.
    pub open spec fn steps_left(self) -> int {
        let n = self.count();
        match self.phase {
            KeepPhase::Syncing => 10 * n + 15,
            KeepPhase::FindingPort => 10 * n + 14,
            KeepPhase::Launching => 10 * n + 13,
            KeepPhase::DrawingDelay => 10 * n + 12,
            KeepPhase::Delaying => 10 * n + 11,
            KeepPhase::Opening { site } => 10 * (n - site),
            KeepPhase::LoggingIn { site } => 10 * (n - site) - 1,
            KeepPhase::DrawingStay { site } => 10 * (n - site) - 2,
            KeepPhase::Staying { site } => 10 * (n - site) - 3,
            KeepPhase::ClosingOnStop { site } => 10 * (n - site) - 4,
            KeepPhase::Closing { site } => 10 * (n - site) - 4,
            KeepPhase::DrawingInterval { site } => 10 * (n - site) - 5,
            KeepPhase::Pausing { site } => 10 * (n - site) - 6,
            KeepPhase::BatchOpening { site } => n + 5 + 4 * (n - site),
            KeepPhase::BatchStarting { site } => n + 4 + 4 * (n - site),
            KeepPhase::BatchJoining => n + 3,
            KeepPhase::BatchStaying => n + 2,
            KeepPhase::BatchStopping { tab } => self.opened.len() - tab,
            KeepPhase::BatchClosing { tab } => self.opened.len() - tab,
            KeepPhase::Done { .. } => 0,
        }
    }
}

/// Every answered action brings a round closer to its end.
#[verifier::rlimit(50)]
#[verifier::spinoff_prover]
pub proof fn keepalive_ends(s: KeepModel, event: KeepEvent, cancelled: bool)
    requires
        s.well_formed(),
        s.awaits(event),
    ensures
        0 <= s.next(event, cancelled).state.steps_left() < s.steps_left(),
{
}

/// After the user asked to stop, no site is opened any more.
pub proof fn keepalive_cancel_opens_nothing(s: KeepModel, event: KeepEvent)
    ensures
        !(s.next(event, true).action is Open),
{
}

/// A round by hand that opened tabs does not end before each of them was to be
/// closed.
pub proof fn keepalive_closes_what_it_opened(s: KeepModel, event: KeepEvent, cancelled: bool)
    requires
        s.well_formed(),
        !s.scheduled,
        s.awaits(event),
        s.opened.len() > 0,
        s.next(event, cancelled).action is Finish,
    ensures
        s.phase == (KeepPhase::BatchStopping { tab: (s.opened.len() - 1) as usize }) || s.phase == (
        KeepPhase::BatchClosing { tab: (s.opened.len() - 1) as usize }),
{
}

/// A site that was opened in a scheduled round is closed, whether the round goes on
/// or is broken off.
pub proof fn keepalive_closes_each_visit(s: KeepModel, event: KeepEvent, cancelled: bool)
    requires
        s.scheduled,
        s.phase is Staying,
        s.awaits(event),
    ensures
        s.next(event, cancelled).action == (KeepAction::Close { site: s.phase->Staying_site }),
{
}

// ---------------------------------------------------------------- what a round does

/// A round that began in a state and was told events since, each with whether the user had
/// asked to stop by then.
pub open spec fn keep_run(first: KeepModel, told: Seq<(KeepEvent, bool)>) -> KeepStep
    decreases told.len(),
{
    if told.len() == 0 {
        first.begun()
    } else {
        keep_run(first, told.drop_last()).state.next(told.last().0, told.last().1)
    }
}

/// A round asked to open a site before it was told the last of the events.
pub open spec fn asked_to_open(first: KeepModel, told: Seq<(KeepEvent, bool)>, site: int) -> bool {
    exists|k: int|
        0 <= k < told.len() && (#[trigger] keep_run(first, told.take(k))).action is Open && keep_run(
            first,
            told.take(k),
        ).action->Open_site == site
}

/// An event that breaks a round off.
pub open spec fn breaks_off(event: KeepEvent, cancelled: bool) -> bool {
    ||| cancelled
    ||| event matches KeepEvent::Slept { interrupted } && interrupted
    ||| event matches KeepEvent::SyncFailed { message } && message@ == "CDP 操作已终止"@
    ||| event matches KeepEvent::LaunchFailed { message } && message@ == "CDP 操作已终止"@
}

impl KeepModel {
    /// How many of the sites, from the first on, the round has got to; none for a round that
    /// is broken off or over.
    pub open spec fn reached(self) -> int {
        match self.phase {
            KeepPhase::Opening { site }
            | KeepPhase::LoggingIn { site }
            | KeepPhase::DrawingStay { site }
            | KeepPhase::Staying { site }
            | KeepPhase::Closing { site }
            | KeepPhase::DrawingInterval { site }
            | KeepPhase::Pausing { site }
            | KeepPhase::BatchOpening { site }
            | KeepPhase::BatchStarting { site } => site + 1,
            KeepPhase::BatchJoining
            | KeepPhase::BatchStaying
            | KeepPhase::BatchClosing { .. } => self.count(),
            _ => 0,
        }
    }

    /// Whether the round is being broken off, or was.
    pub open spec fn is_stopping(self) -> bool {
        match self.phase {
            KeepPhase::ClosingOnStop { .. } | KeepPhase::BatchStopping { .. } => true,
            KeepPhase::Done { cancelled } => cancelled,
            _ => false,
        }
    }
}

/// The sites are opened in their order, one at a time and none left out.
pub proof fn keepalive_opens_the_next_site(s: KeepModel, event: KeepEvent, cancelled: bool)
    requires
        s.well_formed(),
        s.count() > 0,
    ensures
        ({
            let after = s.next(event, cancelled);
            &&& after.state.count() == s.count()
            &&& after.action is Open ==> after.action->Open_site == s.reached() && s.reached()
                < s.count() && after.state.reached() == s.reached() + 1 && !cancelled
            &&& after.state.reached() > s.reached() ==> after.action is Open
        }),
{
}

proof fn lemma_end_is_reached(s: KeepModel, event: KeepEvent, cancelled: bool)
    requires
        s.well_formed(),
        s.count() > 0,
        s.next(event, cancelled).action == (KeepAction::Finish { cancelled: false }),
    ensures
        event is LaunchFailed || s.reached() == s.count(),
{
}

proof fn lemma_reached_sites_were_asked(first: KeepModel, told: Seq<(KeepEvent, bool)>)
    requires
        first.well_formed(),
        first.is_early(),
        first.count() > 0,
    ensures
        keep_run(first, told).state.well_formed(),
        keep_run(first, told).state.count() == first.count(),
        forall|site: int|
            0 <= site < keep_run(first, told).state.reached() ==> (#[trigger] asked_to_open(
                first,
                told,
                site,
            ) || keep_run(first, told).action is Open && keep_run(first, told).action->Open_site
                == site),
    decreases told.len(),
{
    if told.len() > 0 {
        let before = told.drop_last();
        let s = keep_run(first, before).state;
        let (event, cancelled) = told.last();
        lemma_reached_sites_were_asked(first, before);
        keepalive_opens_the_next_site(s, event, cancelled);
        keepalive_stays_well_formed(s, event, cancelled);
        assert forall|site: int| 0 <= site < keep_run(first, told).state.reached() implies (
        #[trigger] asked_to_open(first, told, site) || keep_run(first, told).action is Open
            && keep_run(first, told).action->Open_site == site) by {
            if site < s.reached() {
                if asked_to_open(first, before, site) {
                    let k = choose|k: int|
                        0 <= k < before.len() && (#[trigger] keep_run(
                            first,
                            before.take(k),
                        )).action is Open && keep_run(first, before.take(k)).action->Open_site
                            == site;
                    assert(told.take(k) =~= before.take(k));
                    assert(keep_run(first, told.take(k)).action is Open);
                } else {
                    assert(told.take(told.len() - 1) =~= before);
                    assert(keep_run(first, told.take(told.len() - 1)).action is Open);
                }
                assert(asked_to_open(first, told, site));
            }
        }
    }
}

/// A round with sites that ends without being broken off has asked to open every one of them
/// before, unless the browser could not be started.
pub proof fn keepalive_asks_for_every_site(first: KeepModel, told: Seq<(KeepEvent, bool)>)
    requires
        first.well_formed(),
        first.is_early(),
        first.count() > 0,
        keep_run(first, told).action == (KeepAction::Finish { cancelled: false }),
    ensures
        told.len() > 0,
        told.last().0 is LaunchFailed || forall|site: int|
            0 <= site < first.count() ==> #[trigger] asked_to_open(first, told, site),
{
    let before = told.drop_last();
    let s = keep_run(first, before).state;
    lemma_reached_sites_were_asked(first, before);
    lemma_end_is_reached(s, told.last().0, told.last().1);
    if !(told.last().0 is LaunchFailed) {
        assert forall|site: int| 0 <= site < first.count() implies #[trigger] asked_to_open(
            first,
            told,
            site,
        ) by {
            if asked_to_open(first, before, site) {
                let k = choose|k: int|
                    0 <= k < before.len() && (#[trigger] keep_run(
                        first,
                        before.take(k),
                    )).action is Open && keep_run(first, before.take(k)).action->Open_site == site;
                assert(told.take(k) =~= before.take(k));
                assert(keep_run(first, told.take(k)).action is Open);
            } else {
                assert(told.take(told.len() - 1) =~= before);
                assert(keep_run(first, told.take(told.len() - 1)).action is Open);
            }
        }
    }
}

/// A round is broken off only where an event of it, at the latest the last, breaks it off.
pub proof fn keepalive_stops_only_when_asked(first: KeepModel, told: Seq<(KeepEvent, bool)>)
    requires
        first.is_early(),
        keep_run(first, told).state.is_stopping(),
    ensures
        exists|k: int|
            0 <= k < told.len() && breaks_off((#[trigger] told[k]).0, told[k].1),
    decreases told.len(),
{
    assert(told.len() > 0);
    let before = told.drop_last();
    let s = keep_run(first, before).state;
    if s.is_stopping() {
        keepalive_stops_only_when_asked(first, before);
        let k = choose|k: int|
            0 <= k < before.len() && breaks_off((#[trigger] before[k]).0, before[k].1);
        assert(told[k] == before[k]);
    } else {
        lemma_stops_on_asking(s, told.last().0, told.last().1);
        assert(breaks_off(told[told.len() - 1].0, told[told.len() - 1].1));
    }
}

proof fn lemma_stops_on_asking(s: KeepModel, event: KeepEvent, cancelled: bool)
    requires
        s.next(event, cancelled).state.is_stopping(),
        !s.is_stopping(),
    ensures
        breaks_off(event, cancelled),
{
}

/// A round that was interrupted in a wait, or told to stop where a site would be opened, does
/// not go on: it closes what is open, or ends.
pub proof fn keepalive_heeds_interrupts(s: KeepModel, event: KeepEvent, cancelled: bool)
    requires
        s.well_formed(),
        s.awaits(event),
        event == (KeepEvent::Slept { interrupted: true }),
    ensures
        s.next(event, cancelled).state.is_stopping(),
        s.next(event, cancelled).action is Close || s.next(event, cancelled).action == (
        KeepAction::Finish { cancelled: true }),
{
}

/// The port is looked for once the synchronisation is over, done or failed, unless the round
/// is broken off; and a browser is started exactly where none was found.
pub proof fn keepalive_finds_its_browser(s: KeepModel, event: KeepEvent, cancelled: bool)
    requires
        s.well_formed(),
        s.awaits(event),
    ensures
        s.next(event, cancelled).action == KeepAction::FindPort <==> s.phase is Syncing && (
        event is Synced || !breaks_off(event, cancelled)),
        forall|sites: bool| #[trigger]
            s.next(event, cancelled).action == (KeepAction::Launch { with_sites: sites }) <==> event
                == KeepEvent::Port(None) && sites == !s.scheduled,
        s.next(event, cancelled).action is Launch <==> event == KeepEvent::Port(None),
        !(s.next(event, cancelled).action is Sync),
{
}

/// The port that the sites are opened on is the one that was found, or that the browser was
/// started with; nothing else of what a round was given changes.
pub proof fn keepalive_keeps_what_it_was_given(s: KeepModel, event: KeepEvent, cancelled: bool)
    requires
        s.well_formed(),
        s.awaits(event),
    ensures
        ({
            let after = s.next(event, cancelled).state;
            &&& after.auto_login == s.auto_login
            &&& after.cdp_port == s.cdp_port
            &&& after.scheduled == s.scheduled
            &&& after.auto_sync == s.auto_sync
            &&& after.max_delay == s.max_delay
            &&& after.visit_duration == s.visit_duration
            &&& after.port == (match event {
                KeepEvent::Port(Some(port)) => port,
                KeepEvent::Launched { port, .. } => port,
                _ => s.port,
            })
            &&& after.reuse == (match event {
                KeepEvent::Launched { opened, .. } => opened > 0,
                _ => s.reuse,
            })
            &&& after.opened == (match (s.phase, event) {
                (KeepPhase::BatchOpening { site }, KeepEvent::Tab(ok)) => if ok {
                    s.opened.push(site)
                } else {
                    s.opened
                },
                _ => s.opened,
            })
        }),
{
}

/// A site is logged in to exactly where its tab was just opened: each in a scheduled round,
/// and those that are to be logged in to in a round by hand.
pub proof fn keepalive_logs_in_what_it_opened(
    s: KeepModel,
    event: KeepEvent,
    cancelled: bool,
    site: usize,
)
    requires
        s.well_formed(),
        s.awaits(event),
    ensures
        s.next(event, cancelled).action == (KeepAction::Login { site }) <==> s.phase == (
        KeepPhase::Opening { site }) && event == KeepEvent::Tab(true),
        s.next(event, cancelled).action == (KeepAction::StartLogin { site }) <==> s.phase == (
        KeepPhase::BatchOpening { site }) && event == KeepEvent::Tab(true)
            && s.auto_login[site as int],
        s.next(event, cancelled).action == KeepAction::JoinLogins ==> !s.scheduled && s.reached()
            == s.count(),
{
}

/// How long is waited, and what for: the delay that was drawn, the stay on a site for the
/// configured time and what was drawn on top, the interval that was drawn, and the stay on all
/// sites for the configured time.
pub proof fn keepalive_waits_as_long_as_drawn(s: KeepModel, event: KeepEvent, cancelled: bool)
    requires
        s.well_formed(),
        s.awaits(event),
        s.next(event, cancelled).action is Sleep,
    ensures
        ({
            let seconds = s.next(event, cancelled).action->Sleep_seconds;
            match s.next(event, cancelled).action->stage {
                SleepStage::Delay => s.phase is DrawingDelay && event == KeepEvent::Drawn(seconds),
                SleepStage::Stay { site } => s.phase == (KeepPhase::DrawingStay { site })
                    && event is Drawn && (s.visit_duration + event->Drawn_0 <= u64::MAX ==> seconds
                    == s.visit_duration + event->Drawn_0) && (s.visit_duration + event->Drawn_0
                    > u64::MAX ==> seconds == u64::MAX),
                SleepStage::Interval => s.phase is DrawingInterval && event == KeepEvent::Drawn(
                    seconds,
                ),
                SleepStage::StayOnAll => s.phase is BatchJoining && s.opened.len() > 0 && seconds
                    == s.visit_duration,
            }
        }),
{
}

/// A number that was drawn is waited for, and the logins that were begun are followed by the
/// stay wherever a site was opened.
pub proof fn keepalive_waits_after_drawing(s: KeepModel, event: KeepEvent, cancelled: bool)
    requires
        s.well_formed(),
        s.awaits(event),
    ensures
        event is Drawn ==> s.next(event, cancelled).action is Sleep,
        s.phase is BatchJoining && s.opened.len() > 0 ==> s.next(event, cancelled).action is Sleep,
        s.phase is BatchJoining && s.opened.len() == 0 ==> s.next(event, cancelled).action == (
        KeepAction::Finish { cancelled: false }),
{
}

/// What is drawn: the delay of a scheduled round up to its limit, once the browser is there;
/// up to nine seconds of a stay after a login; five to fourteen seconds between two sites.
pub proof fn keepalive_draws_within_limits(
    s: KeepModel,
    event: KeepEvent,
    cancelled: bool,
    low: u64,
    high: u64,
)
    requires
        s.well_formed(),
        s.awaits(event),
    ensures
        s.next(event, cancelled).action == (KeepAction::Draw { low, high }) <==> {
            ||| s.is_early() && (event is Launched || event is Port && event != KeepEvent::Port(
                None,
            )) && !cancelled && s.scheduled && s.max_delay > 0 && low == 0 && high == s.max_delay
            ||| s.phase is LoggingIn && low == 0 && high == 9
            ||| (s.phase is Closing || s.phase is Opening && event == KeepEvent::Tab(false)) && low
                == 5 && high == 14
        },
        s.next(event, cancelled).action is Draw ==> match s.phase {
            KeepPhase::LoggingIn { site } => s.next(event, cancelled).state.phase == (
            KeepPhase::DrawingStay { site }),
            KeepPhase::Opening { site } => s.next(event, cancelled).state.phase == (
            KeepPhase::DrawingInterval { site }),
            KeepPhase::Closing { site } => s.next(event, cancelled).state.phase == (
            KeepPhase::DrawingInterval { site }),
            _ => s.next(event, cancelled).state.phase == KeepPhase::DrawingDelay,
        },
{
}

/// A tab is closed exactly where the stay on it is over: in a scheduled round the tab of the
/// site, in a round by hand the opened tabs from the first on.
pub proof fn keepalive_closes_after_the_stay(
    s: KeepModel,
    event: KeepEvent,
    cancelled: bool,
    site: usize,
)
    requires
        s.well_formed(),
        s.awaits(event),
        s.scheduled,
    ensures
        s.next(event, cancelled).action == (KeepAction::Close { site }) <==> s.phase == (
        KeepPhase::Staying { site }),
{
}

/// In a round by hand the opened tabs are closed one after the other, each of them whether or
/// not the one before could be closed.
pub proof fn keepalive_closes_tab_after_tab(s: KeepModel, event: KeepEvent, cancelled: bool)
    requires
        s.well_formed(),
        s.awaits(event),
        !s.scheduled,
    ensures
        ({
            let after = s.next(event, cancelled);
            let done = match s.phase {
                KeepPhase::BatchStopping { tab } | KeepPhase::BatchClosing { tab } => tab + 1,
                _ => 0,
            };
            &&& after.action is Close ==> done < after.state.opened.len()
                && after.action->Close_site == after.state.opened[done]
            &&& event is Closed && done < s.opened.len() ==> after.action is Close
            &&& event is Closed && done >= s.opened.len() ==> after.action == (KeepAction::Finish {
                cancelled: s.phase is BatchStopping,
            })
            &&& s.phase is BatchStaying && s.opened.len() > 0 ==> after.action is Close
            &&& (cancelled && !s.is_early() && s.opened.len() > 0 && s.reached() < s.count()
                && !(event is Closed) && event != KeepEvent::Tab(true)) ==> after.action == (
            KeepAction::Close { site: s.opened[0] })
        }),
{
}

/// What is told of a site is about the site that was worked on, and tells what came of it.
pub proof fn keepalive_tells_what_came_of_a_site(
    s: KeepModel,
    event: KeepEvent,
    cancelled: bool,
    site: usize,
)
    requires
        s.well_formed(),
        s.awaits(event),
    ensures
        ({
            let after = s.next(event, cancelled);
            let first = after.notes[0];
            let last = after.notes.last();
            &&& after.action == (KeepAction::Open { site, reuse: after.state.reuse }) ==> last == (
            if s.scheduled {
                KeepNote::Visiting { site }
            } else {
                KeepNote::Opening { site }
            })
            &&& s.phase == (KeepPhase::Opening { site }) && event == KeepEvent::Tab(false)
                ==> after.notes == seq![KeepNote::VisitFailed { site }]
            &&& s.phase == (KeepPhase::Closing { site }) ==> last == (KeepNote::Kept { site })
                && after.notes.contains(KeepNote::CloseFailed) == (event == KeepEvent::Closed(
                false,
            ))
            &&& s.phase == (KeepPhase::BatchOpening { site }) && event == KeepEvent::Tab(false)
                ==> first == (KeepNote::OpenFailed { site })
            &&& s.phase == (KeepPhase::BatchOpening { site }) && event == KeepEvent::Tab(true)
                && !s.auto_login[site as int] ==> first == (KeepNote::Opened { site })
            &&& s.phase == (KeepPhase::BatchStarting { site }) ==> first == (KeepNote::Opened {
                site,
            })
            &&& s.phase is BatchClosing && s.opened[s.phase->BatchClosing_tab as int] == site
                ==> first == (if event == KeepEvent::Closed(true) {
                KeepNote::Kept { site }
            } else {
                KeepNote::SiteCloseFailed { site }
            })
            &&& s.phase is BatchStopping && event == KeepEvent::Closed(false)
                && s.opened[s.phase->BatchStopping_tab as int] == site ==> first == (
            KeepNote::SiteStopCloseFailed { site })
        }),
{
    let after = s.next(event, cancelled);
    if s.phase == (KeepPhase::Closing { site }) {
        if event == KeepEvent::Closed(false) {
            assert(after.notes[0] == KeepNote::CloseFailed);
        } else {
            assert(after.notes =~= seq![KeepNote::Kept { site }]);
        }
    }
}

/// What is told of the end of a round: that all is done where the last site was left, that
/// nothing was opened, and that the browser could not be started.
pub proof fn keepalive_tells_its_end(s: KeepModel, event: KeepEvent, cancelled: bool)
    requires
        s.well_formed(),
        s.count() > 0,
        s.awaits(event),
        s.next(event, cancelled).action == (KeepAction::Finish { cancelled: false }),
    ensures
        s.next(event, cancelled).notes.last() == (if event is LaunchFailed {
            KeepNote::LaunchFailed
        } else if s.phase is BatchJoining {
            KeepNote::NothingOpened
        } else {
            KeepNote::AllDone
        }),
{
}

/// What is told of a wait tells how long it is, and what for.
pub proof fn keepalive_tells_how_long_it_waits(s: KeepModel, event: KeepEvent, cancelled: bool)
    requires
        s.well_formed(),
        s.awaits(event),
        s.next(event, cancelled).action is Sleep,
    ensures
        ({
            let after = s.next(event, cancelled);
            let seconds = after.action->Sleep_seconds;
            after.notes == seq![
                match after.action->stage {
                    SleepStage::Delay => KeepNote::Delayed { seconds },
                    SleepStage::Stay { site } => KeepNote::Staying { site, seconds },
                    SleepStage::Interval => KeepNote::Pausing { seconds },
                    SleepStage::StayOnAll => KeepNote::StayingOnAll {
                        count: s.opened.len() as usize,
                        seconds,
                    },
                },
            ]
        }),
{
}

/// What is told before the sites are reached: what a synchronisation came to, that another port
/// than the configured one is used, that a browser is started, and how many sites there are.
pub proof fn keepalive_tells_how_it_begins(s: KeepModel, event: KeepEvent)
    requires
        s.well_formed(),
        s.awaits(event),
        s.is_early(),
    ensures
        ({
            let notes = s.next(event, false).notes;
            &&& event matches KeepEvent::Synced { parsed, imported } ==> notes == seq![
                KeepNote::SyncDone { imported, parsed },
            ]
            &&& event matches KeepEvent::Port(Some(port)) ==> (port != s.cdp_port <==> notes[0] == (
            KeepNote::ReusedPort { port }))
            &&& event == KeepEvent::Port(None) ==> notes == seq![KeepNote::LaunchStarted]
            &&& event is Launched ==> notes[0] == KeepNote::Launched
            &&& event is Launched || event is Port && event != KeepEvent::Port(None)
                ==> notes.contains(KeepNote::Started { count: s.auto_login.len() as usize })
        }),
{
    let notes = s.next(event, false).notes;
    if event is Launched {
        assert(notes[1] == (KeepNote::Started { count: s.auto_login.len() as usize }));
    }
    if let KeepEvent::Port(Some(port)) = event {
        let k: int = if port != s.cdp_port {
            1
        } else {
            0
        };
        assert(notes[k] == (KeepNote::Started { count: s.auto_login.len() as usize }));
    }
}

/// A round begins with a synchronisation where that is asked for, and else by looking for its
/// browser; without a site it is over at once. Its longest delay is given in minutes.
pub proof fn keepalive_begins(
    auto_login: Vec<bool>,
    cdp_port: u16,
    scheduled: bool,
    auto_sync: bool,
    offset_minutes: i32,
    visit_duration: u64,
    r: (KeepAlive, KeepTurn),
)
    requires
        call_ensures(
            KeepAlive::begin,
            (auto_login, cdp_port, scheduled, auto_sync, offset_minutes, visit_duration),
            r,
        ),
    ensures
        ({
            let sites = auto_login@.len() > 0;
            &&& r.1.action == KeepAction::Sync <==> sites && auto_sync
            &&& r.1.action == KeepAction::FindPort <==> sites && !auto_sync
            &&& r.1.action == (KeepAction::Finish { cancelled: false }) <==> !sites
            &&& r.0@.auto_login == auto_login@
            &&& r.0@.scheduled == scheduled
            &&& r.0@.cdp_port == cdp_port
            &&& r.0@.port == cdp_port
            &&& r.0@.visit_duration == visit_duration
            &&& r.0@.opened.len() == 0
            &&& !r.0@.reuse
            &&& offset_minutes > 0 ==> r.0@.max_delay == 60 * offset_minutes
            &&& offset_minutes <= 0 ==> r.0@.max_delay == 0
            &&& sites ==> r.0@.is_early()
        }),
{
}

} // verus!
