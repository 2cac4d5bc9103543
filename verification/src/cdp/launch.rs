//! Finding a browser that answers, or starting one.

use crate::cdp::{connected_message, connected_text, CdpLaunchResult, LaunchView};
use crate::keepalive::{capped_sum, CDP_CANCELLED};
use crate::number::{decimal, decimal_of};
use vstd::prelude::*;

verus! {

/// A way in which the browser is started.
#[derive(Debug, Clone, Copy, PartialEq, Eq, Structural)]
pub struct Start {
    /// Whether the spare profile is used.
    pub recovery: bool,
    /// The port that it is given; without one it picks one itself.
    pub port: Option<u16>,
}

/// How far the search has come.
#[derive(Debug, Clone, Copy, PartialEq, Eq, Structural)]
pub enum LaunchPhase {
    Detecting,
    Finding { site: usize },
    Opening { site: usize },
    CheckingProfile,
    CheckingPort,
    Starting { start: Start },
    Pausing { start: Start },
    Reading { start: Start },
    Probing { start: Start, port: u16 },
    Done,
}

/// What the user is told while the browser is looked for.
#[derive(Debug, Clone, Copy, PartialEq, Eq, Structural)]
pub enum LaunchNote {
    Detecting { port: u16 },
    ConfiguredResponds { port: u16 },
    CheckingProfile,
    ProfileInUse,
    PortFree { port: u16 },
    PortTaken { port: u16 },
    Starting { start: Start, pages: usize },
    Started { recovery: bool },
    WaitingForPort { seconds: u64 },
    PortRead { port: u16 },
    Responds { port: u16 },
    PagesOpened { count: usize },
    NotResponding { port: u16 },
    TimedOut { recovery: bool },
    FixedFailed { port: u16 },
    RandomFailed,
    CheckingTab { site: usize },
    TabOpen { site: usize },
    OpeningTab { site: usize },
}

/// What the search ends with.
#[derive(Debug, Clone, Copy, PartialEq, Eq, Structural)]
pub enum LaunchEnd {
    /// The browser behind the configured port was there.
    Found { port: u16, opened: usize },
    /// The browser was started.
    Started { recovery: bool, port: u16, opened: usize },
    Cancelled,
    /// The browser could not be started.
    StartFailed,
    /// The page of a site could not be opened.
    OpenFailed { site: usize },
    NoAnswer,
}

/// What is to be done next.
#[derive(Debug, Clone, Copy, PartialEq, Eq, Structural)]
pub enum LaunchAction {
    /// Ask the browser behind a port for its version; `quick` asks for a short wait.
    Probe { port: u16, quick: bool },
    /// Look for a tab that shows a site.
    Find { site: usize },
    /// Open a tab for a site.
    Open { site: usize },
    /// Look whether the profile is in use.
    CheckProfile,
    /// Look whether the configured port is free.
    CheckPort,
    /// Start the browser.
    Start { start: Start },
    /// Wait for half a second.
    Pause,
    /// Read the port that the browser has written.
    ReadPort { recovery: bool },
    Finish { end: LaunchEnd },
    /// Go on with the pending action.
    Keep,
}

/// What came of an action.
#[derive(Debug, Clone, Copy, PartialEq, Eq, Structural)]
pub enum LaunchEvent {
    Available(bool),
    Tab(bool),
    Opened(bool),
    InUse(bool),
    Free(bool),
    Started(bool),
    Paused,
    Port(Option<u16>),
}

/// The search for a browser.
#[derive(Debug)]
pub struct Launch {
    /// The configured port.
    pub port: u16,
    /// How many pages of sites are to be open.
    pub sites: usize,
    /// How many of them are different.
    pub unique: usize,
    /// How often a started browser was waited for.
    pub attempt: u64,
    pub phase: LaunchPhase,
}

/// What a `Launch` says.
pub struct LaunchModel {
    pub port: u16,
    pub sites: usize,
    pub unique: usize,
    pub attempt: u64,
    pub phase: LaunchPhase,
}

impl View for Launch {
    type V = LaunchModel;

    open spec fn view(&self) -> LaunchModel {
        LaunchModel {
            port: self.port,
            sites: self.sites,
            unique: self.unique,
            attempt: self.attempt,
            phase: self.phase,
        }
    }
}

/// What to tell the user and what to do next.
#[derive(Debug)]
pub struct LaunchTurn {
    pub notes: Vec<LaunchNote>,
    pub action: LaunchAction,
}

/// A state with what to tell and to do in it.
pub struct LaunchStep {
    pub state: LaunchModel,
    pub notes: Seq<LaunchNote>,
    pub action: LaunchAction,
}

/// What a state and a turn amount to.
pub open spec fn launch_step(state: LaunchModel, turn: LaunchTurn) -> LaunchStep {
    LaunchStep { state, notes: turn.notes@, action: turn.action }
}

/// With how many pages the browser is started.
pub open spec fn page_count(unique: usize) -> usize {
    if unique == 0 {
        1
    } else {
        unique
    }
}

impl LaunchModel {
    pub open spec fn step(
        self,
        phase: LaunchPhase,
        notes: Seq<LaunchNote>,
        action: LaunchAction,
    ) -> LaunchStep {
        LaunchStep { state: LaunchModel { phase, ..self }, notes, action }
    }

    pub open spec fn finish(self, notes: Seq<LaunchNote>, end: LaunchEnd) -> LaunchStep {
        self.step(LaunchPhase::Done, notes, LaunchAction::Finish { end })
    }

    /// The first step.
    pub open spec fn begun(self) -> LaunchStep {
        self.step(
            LaunchPhase::Detecting,
            seq![LaunchNote::Detecting { port: self.port }],
            LaunchAction::Probe { port: self.port, quick: false },
        )
    }

    /// Going on with the pages of the sites.
    pub open spec fn find(self, site: int, notes: Seq<LaunchNote>, cancelled: bool) -> LaunchStep {
        if site >= self.sites {
            self.finish(notes, LaunchEnd::Found { port: self.port, opened: self.sites })
        } else if cancelled {
            self.finish(notes, LaunchEnd::Cancelled)
        } else {
            self.step(
                LaunchPhase::Finding { site: site as usize },
                notes.push(LaunchNote::CheckingTab { site: site as usize }),
                LaunchAction::Find { site: site as usize },
            )
        }
    }

    /// Starting the browser.
    pub open spec fn start(self, start: Start, notes: Seq<LaunchNote>) -> LaunchStep {
        LaunchModel { attempt: 0, ..self }.step(
            LaunchPhase::Starting { start },
            notes.push(LaunchNote::Starting { start, pages: page_count(self.unique) }),
            LaunchAction::Start { start },
        )
    }

    /// Starting the browser with the spare profile.
    pub open spec fn recover(self, notes: Seq<LaunchNote>) -> LaunchStep {
        self.start(Start { recovery: true, port: None }, notes)
    }

    /// Waiting for a started browser, as long as there is time.
    pub open spec fn wait(
        self,
        start: Start,
        notes: Seq<LaunchNote>,
        cancelled: bool,
        expired: bool,
    ) -> LaunchStep {
        if !expired {
            let s = LaunchModel { attempt: capped_sum(self.attempt, 1), ..self };
            if cancelled {
                s.finish(notes, LaunchEnd::Cancelled)
            } else {
                s.step(LaunchPhase::Pausing { start }, notes, LaunchAction::Pause)
            }
        } else {
            let told = notes.push(LaunchNote::TimedOut { recovery: start.recovery });
            if start.recovery {
                self.finish(told, LaunchEnd::NoAnswer)
            } else if cancelled {
                self.finish(told, LaunchEnd::Cancelled)
            } else {
                self.recover(
                    told.push(
                        match start.port {
                            Some(_) => LaunchNote::FixedFailed { port: self.port },
                            None => LaunchNote::RandomFailed,
                        },
                    ),
                )
            }
        }
    }

    /// What follows an event before a browser is started.
    pub open spec fn next_found(self, event: LaunchEvent, cancelled: bool) -> LaunchStep {
        match (self.phase, event) {
            (LaunchPhase::Detecting, LaunchEvent::Available(yes)) => if cancelled {
                self.finish(Seq::empty(), LaunchEnd::Cancelled)
            } else if yes {
                self.find(0, seq![LaunchNote::ConfiguredResponds { port: self.port }], cancelled)
            } else {
                self.step(
                    LaunchPhase::CheckingProfile,
                    seq![LaunchNote::CheckingProfile],
                    LaunchAction::CheckProfile,
                )
            },
            (LaunchPhase::Finding { site }, LaunchEvent::Tab(yes)) => if yes {
                self.find(site + 1, seq![LaunchNote::TabOpen { site }], cancelled)
            } else {
                self.step(
                    LaunchPhase::Opening { site },
                    seq![LaunchNote::OpeningTab { site }],
                    LaunchAction::Open { site },
                )
            },
            (LaunchPhase::Opening { site }, LaunchEvent::Opened(ok)) => if ok {
                self.find(site + 1, Seq::empty(), cancelled)
            } else {
                self.finish(Seq::empty(), LaunchEnd::OpenFailed { site })
            },
            (LaunchPhase::CheckingProfile, LaunchEvent::InUse(yes)) => if yes {
                self.recover(seq![LaunchNote::ProfileInUse])
            } else if self.port > 0 {
                self.step(LaunchPhase::CheckingPort, Seq::empty(), LaunchAction::CheckPort)
            } else {
                self.start(
                    Start { recovery: false, port: None },
                    seq![LaunchNote::PortTaken { port: self.port }],
                )
            },
            (LaunchPhase::CheckingPort, LaunchEvent::Free(yes)) => if yes {
                self.start(
                    Start { recovery: false, port: Some(self.port) },
                    seq![LaunchNote::PortFree { port: self.port }],
                )
            } else {
                self.start(
                    Start { recovery: false, port: None },
                    seq![LaunchNote::PortTaken { port: self.port }],
                )
            },
            _ => LaunchStep { state: self, notes: Seq::empty(), action: LaunchAction::Keep },
        }
    }

    /// What follows an event once a browser is being started.
    pub open spec fn next_started(
        self,
        event: LaunchEvent,
        cancelled: bool,
        expired: bool,
    ) -> LaunchStep {
        match (self.phase, event) {
            (LaunchPhase::Starting { start }, LaunchEvent::Started(ok)) => if ok {
                self.wait(
                    start,
                    seq![LaunchNote::Started { recovery: start.recovery }],
                    cancelled,
                    expired,
                )
            } else {
                self.finish(Seq::empty(), LaunchEnd::StartFailed)
            },
            (LaunchPhase::Pausing { start }, LaunchEvent::Paused) => match start.port {
                Some(port) => self.step(
                    LaunchPhase::Probing { start, port },
                    Seq::empty(),
                    LaunchAction::Probe { port, quick: true },
                ),
                None => self.step(
                    LaunchPhase::Reading { start },
                    Seq::empty(),
                    LaunchAction::ReadPort { recovery: start.recovery },
                ),
            },
            (LaunchPhase::Reading { start }, LaunchEvent::Port(found)) => match found {
                Some(port) => self.step(
                    LaunchPhase::Probing { start, port },
                    seq![LaunchNote::PortRead { port }],
                    LaunchAction::Probe { port, quick: true },
                ),
                None => self.wait(
                    start,
                    if self.attempt % 4 == 0 {
                        seq![LaunchNote::WaitingForPort { seconds: self.attempt / 2 }]
                    } else {
                        Seq::empty()
                    },
                    cancelled,
                    expired,
                ),
            },
            (LaunchPhase::Probing { start, port }, LaunchEvent::Available(yes)) => if yes {
                if cancelled {
                    self.finish(Seq::empty(), LaunchEnd::Cancelled)
                } else {
                    self.finish(
                        if self.unique > 0 {
                            seq![
                                LaunchNote::Responds { port },
                                LaunchNote::PagesOpened { count: self.unique },
                            ]
                        } else {
                            seq![LaunchNote::Responds { port }]
                        },
                        LaunchEnd::Started {
                            recovery: start.recovery,
                            port,
                            opened: self.unique,
                        },
                    )
                }
            } else {
                self.wait(
                    start,
                    if self.attempt % 4 == 0 {
                        seq![LaunchNote::NotResponding { port }]
                    } else {
                        Seq::empty()
                    },
                    cancelled,
                    expired,
                )
            },
            _ => LaunchStep { state: self, notes: Seq::empty(), action: LaunchAction::Keep },
        }
    }

    /// Whether a browser is being started.
    pub open spec fn is_starting(self) -> bool {
        match self.phase {
            LaunchPhase::Starting { .. }
            | LaunchPhase::Pausing { .. }
            | LaunchPhase::Reading { .. }
            | LaunchPhase::Probing { .. } => true,
            _ => false,
        }
    }

    /// What follows an event. `cancelled` tells whether the user has asked to stop by now,
    /// and `expired` whether the time for which a started browser is waited is over. An
    /// event that the pending action cannot cause changes nothing.
    pub open spec fn next(self, event: LaunchEvent, cancelled: bool, expired: bool) -> LaunchStep {
        if self.is_starting() {
            self.next_started(event, cancelled, expired)
        } else {
            self.next_found(event, cancelled)
        }
    }

    /// Places stay within the list of the sites.
    pub open spec fn well_formed(self) -> bool {
        match self.phase {
            LaunchPhase::Finding { site } | LaunchPhase::Opening { site } => site < self.sites,
            _ => true,
        }
    }

    /// Whether `event` is of the kind that the pending action causes.
    pub open spec fn awaits(self, event: LaunchEvent) -> bool {
        match self.phase {
            LaunchPhase::Detecting => event is Available,
            LaunchPhase::Finding { .. } => event is Tab,
            LaunchPhase::Opening { .. } => event is Opened,
            LaunchPhase::CheckingProfile => event is InUse,
            LaunchPhase::CheckingPort => event is Free,
            LaunchPhase::Starting { .. } => event is Started,
            LaunchPhase::Pausing { .. } => event is Paused,
            LaunchPhase::Reading { .. } => event is Port,
            LaunchPhase::Probing { .. } => event is Available,
            LaunchPhase::Done => false,
        }
    }

    /// The way in which the browser is being started.
    pub open spec fn current_start(self) -> Option<Start> {
        match self.phase {
            LaunchPhase::Starting { start }
            | LaunchPhase::Pausing { start }
            | LaunchPhase::Reading { start }
            | LaunchPhase::Probing { start, .. } => Some(start),
            _ => None,
        }
    }

    /// An upper bound on the number of actions until the search ends once the time is over.
    pub open spec fn steps_left(self) -> int {
        let later = match self.current_start() {
            Some(start) => if start.recovery {
                0int
            } else {
                5int
            },
            None => 0int,
        };
        match self.phase {
            LaunchPhase::Detecting => 2 * self.sites + 13,
            LaunchPhase::Finding { site } => 2 * (self.sites - site),
            LaunchPhase::Opening { site } => 2 * (self.sites - site) - 1,
            LaunchPhase::CheckingProfile => 12,
            LaunchPhase::CheckingPort => 11,
            LaunchPhase::Starting { .. } => 5 + later,
            LaunchPhase::Pausing { .. } => 4 + later,
            LaunchPhase::Reading { .. } => 3 + later,
            LaunchPhase::Probing { .. } => 2 + later,
            LaunchPhase::Done => 0,
        }
    }
}

fn no_notes() -> (r: Vec<LaunchNote>)
    ensures
        r@ == Seq::<LaunchNote>::empty(),
{
    Vec::new()
}

fn one_note(note: LaunchNote) -> (r: Vec<LaunchNote>)
    ensures
        r@ == seq![note],
{
    let mut v: Vec<LaunchNote> = Vec::new();
    v.push(note);
    assert(v@ =~= seq![note]);
    v
}

fn note_if(told: bool, note: LaunchNote) -> (r: Vec<LaunchNote>)
    ensures
        r@ == if told {
            seq![note]
        } else {
            Seq::<LaunchNote>::empty()
        },
{
    if told {
        one_note(note)
    } else {
        no_notes()
    }
}

impl Launch {
    fn go(&mut self, phase: LaunchPhase, notes: Vec<LaunchNote>, action: LaunchAction) -> (r:
        LaunchTurn)
        ensures
            launch_step(final(self)@, r) == old(self)@.step(phase, notes@, action),
    {
        self.phase = phase;
        LaunchTurn { notes, action }
    }

    fn finish(&mut self, notes: Vec<LaunchNote>, end: LaunchEnd) -> (r: LaunchTurn)
        ensures
            launch_step(final(self)@, r) == old(self)@.finish(notes@, end),
    {
        self.go(LaunchPhase::Done, notes, LaunchAction::Finish { end })
    }

    /// A search and what to do first. `sites` counts the pages that are to be open and
    /// `unique` the different ones among them.
    pub fn begin(port: u16, sites: usize, unique: usize) -> (r: (Launch, LaunchTurn))
        ensures
            launch_step(r.0@, r.1) == (LaunchModel {
                port,
                sites,
                unique,
                attempt: 0,
                phase: LaunchPhase::Detecting,
            }).begun(),
            r.0@.well_formed(),
    {
        let s: Launch = Launch { port, sites, unique, attempt: 0, phase: LaunchPhase::Detecting };
        let turn: LaunchTurn = LaunchTurn {
            notes: one_note(LaunchNote::Detecting { port }),
            action: LaunchAction::Probe { port, quick: false },
        };
        (s, turn)
    }

    fn find(&mut self, site: usize, notes: Vec<LaunchNote>, cancelled: bool) -> (r: LaunchTurn)
        ensures
            launch_step(final(self)@, r) == old(self)@.find(site as int, notes@, cancelled),
    {
        if site >= self.sites {
            let end: LaunchEnd = LaunchEnd::Found { port: self.port, opened: self.sites };
            self.finish(notes, end)
        } else if cancelled {
            self.finish(notes, LaunchEnd::Cancelled)
        } else {
            let mut told: Vec<LaunchNote> = notes;
            told.push(LaunchNote::CheckingTab { site });
            self.go(LaunchPhase::Finding { site }, told, LaunchAction::Find { site })
        }
    }

    fn start(&mut self, start: Start, notes: Vec<LaunchNote>) -> (r: LaunchTurn)
        ensures
            launch_step(final(self)@, r) == old(self)@.start(start, notes@),
    {
        let pages: usize = if self.unique == 0 {
            1
        } else {
            self.unique
        };
        let mut told: Vec<LaunchNote> = notes;
        told.push(LaunchNote::Starting { start, pages });
        self.attempt = 0;
        self.go(LaunchPhase::Starting { start }, told, LaunchAction::Start { start })
    }

    fn recover(&mut self, notes: Vec<LaunchNote>) -> (r: LaunchTurn)
        ensures
            launch_step(final(self)@, r) == old(self)@.recover(notes@),
    {
        self.start(Start { recovery: true, port: None }, notes)
    }

    fn wait(&mut self, start: Start, notes: Vec<LaunchNote>, cancelled: bool, expired: bool) -> (r:
        LaunchTurn)
        ensures
            launch_step(final(self)@, r) == old(self)@.wait(start, notes@, cancelled, expired),
    {
        if !expired {
            self.attempt = self.attempt.saturating_add(1);
            if cancelled {
                self.finish(notes, LaunchEnd::Cancelled)
            } else {
                self.go(LaunchPhase::Pausing { start }, notes, LaunchAction::Pause)
            }
        } else {
            let mut told: Vec<LaunchNote> = notes;
            told.push(LaunchNote::TimedOut { recovery: start.recovery });
            if start.recovery {
                self.finish(told, LaunchEnd::NoAnswer)
            } else if cancelled {
                self.finish(told, LaunchEnd::Cancelled)
            } else {
                match start.port {
                    Some(_) => told.push(LaunchNote::FixedFailed { port: self.port }),
                    None => told.push(LaunchNote::RandomFailed),
                }
                self.recover(told)
            }
        }
    }

    fn advance_found(&mut self, event: LaunchEvent, cancelled: bool) -> (r: LaunchTurn)
        requires
            old(self)@.well_formed(),
        ensures
            launch_step(final(self)@, r) == old(self)@.next_found(event, cancelled),
    {
        match (self.phase, event) {
            (LaunchPhase::Detecting, LaunchEvent::Available(yes)) => {
                let port: u16 = self.port;
                if cancelled {
                    self.finish(no_notes(), LaunchEnd::Cancelled)
                } else if yes {
                    self.find(0, one_note(LaunchNote::ConfiguredResponds { port }), cancelled)
                } else {
                    self.go(
                        LaunchPhase::CheckingProfile,
                        one_note(LaunchNote::CheckingProfile),
                        LaunchAction::CheckProfile,
                    )
                }
            },
            (LaunchPhase::Finding { site }, LaunchEvent::Tab(yes)) => if yes {
                self.find(site + 1, one_note(LaunchNote::TabOpen { site }), cancelled)
            } else {
                self.go(
                    LaunchPhase::Opening { site },
                    one_note(LaunchNote::OpeningTab { site }),
                    LaunchAction::Open { site },
                )
            },
            (LaunchPhase::Opening { site }, LaunchEvent::Opened(ok)) => if ok {
                self.find(site + 1, no_notes(), cancelled)
            } else {
                self.finish(no_notes(), LaunchEnd::OpenFailed { site })
            },
            (LaunchPhase::CheckingProfile, LaunchEvent::InUse(yes)) => {
                let port: u16 = self.port;
                if yes {
                    self.recover(one_note(LaunchNote::ProfileInUse))
                } else if port > 0 {
                    self.go(LaunchPhase::CheckingPort, no_notes(), LaunchAction::CheckPort)
                } else {
                    self.start(
                        Start { recovery: false, port: None },
                        one_note(LaunchNote::PortTaken { port }),
                    )
                }
            },
            (LaunchPhase::CheckingPort, LaunchEvent::Free(yes)) => {
                let port: u16 = self.port;
                if yes {
                    self.start(
                        Start { recovery: false, port: Some(port) },
                        one_note(LaunchNote::PortFree { port }),
                    )
                } else {
                    self.start(
                        Start { recovery: false, port: None },
                        one_note(LaunchNote::PortTaken { port }),
                    )
                }
            },
            _ => LaunchTurn { notes: no_notes(), action: LaunchAction::Keep },
        }
    }

    fn advance_started(&mut self, event: LaunchEvent, cancelled: bool, expired: bool) -> (r:
        LaunchTurn)
        ensures
            launch_step(final(self)@, r) == old(self)@.next_started(event, cancelled, expired),
    {
        match (self.phase, event) {
            (LaunchPhase::Starting { start }, LaunchEvent::Started(ok)) => if ok {
                self.wait(
                    start,
                    one_note(LaunchNote::Started { recovery: start.recovery }),
                    cancelled,
                    expired,
                )
            } else {
                self.finish(no_notes(), LaunchEnd::StartFailed)
            },
            (LaunchPhase::Pausing { start }, LaunchEvent::Paused) => match start.port {
                Some(port) => self.go(
                    LaunchPhase::Probing { start, port },
                    no_notes(),
                    LaunchAction::Probe { port, quick: true },
                ),
                None => self.go(
                    LaunchPhase::Reading { start },
                    no_notes(),
                    LaunchAction::ReadPort { recovery: start.recovery },
                ),
            },
            (LaunchPhase::Reading { start }, LaunchEvent::Port(found)) => match found {
                Some(port) => self.go(
                    LaunchPhase::Probing { start, port },
                    one_note(LaunchNote::PortRead { port }),
                    LaunchAction::Probe { port, quick: true },
                ),
                None => {
                    let n: u64 = self.attempt;
                    let notes: Vec<LaunchNote> = note_if(
                        n % 4 == 0,
                        LaunchNote::WaitingForPort { seconds: n / 2 },
                    );
                    self.wait(start, notes, cancelled, expired)
                },
            },
            (LaunchPhase::Probing { start, port }, LaunchEvent::Available(yes)) => if yes {
                if cancelled {
                    self.finish(no_notes(), LaunchEnd::Cancelled)
                } else {
                    let opened: usize = self.unique;
                    let mut notes: Vec<LaunchNote> = one_note(LaunchNote::Responds { port });
                    if opened > 0 {
                        notes.push(LaunchNote::PagesOpened { count: opened });
                        assert(notes@ =~= seq![
                            LaunchNote::Responds { port },
                            LaunchNote::PagesOpened { count: opened },
                        ]);
                    }
                    self.finish(
                        notes,
                        LaunchEnd::Started { recovery: start.recovery, port, opened },
                    )
                }
            } else {
                let notes: Vec<LaunchNote> = note_if(
                    self.attempt % 4 == 0,
                    LaunchNote::NotResponding { port },
                );
                self.wait(start, notes, cancelled, expired)
            },
            _ => LaunchTurn { notes: no_notes(), action: LaunchAction::Keep },
        }
    }

    /// Takes in what came of the pending action and tells what to do next.
    pub fn advance(&mut self, event: LaunchEvent, cancelled: bool, expired: bool) -> (r: LaunchTurn)
        requires
            old(self)@.well_formed(),
        ensures
            launch_step(final(self)@, r) == old(self)@.next(event, cancelled, expired),
            final(self)@.well_formed(),
    {
        let starting: bool = match self.phase {
            LaunchPhase::Starting { .. }
            | LaunchPhase::Pausing { .. }
            | LaunchPhase::Reading { .. }
            | LaunchPhase::Probing { .. } => true,
            _ => false,
        };
        if starting {
            self.advance_started(event, cancelled, expired)
        } else {
            self.advance_found(event, cancelled)
        }
    }
}

// ---------------------------------------------------------------- a running browser

/// How far the search for a running browser has come.
#[derive(Debug, Clone, Copy, PartialEq, Eq, Structural)]
pub enum PortPhase {
    /// The configured port is asked.
    Configured,
    /// The port that a browser with the profile has written is read.
    Reading { recovery: bool },
    /// The port that was read is asked.
    Asking { recovery: bool, port: u16 },
    Done,
}

/// What is to be done next in the search for a running browser.
#[derive(Debug, Clone, Copy, PartialEq, Eq, Structural)]
pub enum PortAction {
    Probe { port: u16 },
    ReadPort { recovery: bool },
    Finish { found: Option<u16> },
    /// Go on with the pending action.
    Keep,
}

/// The search for a running browser.
#[derive(Debug, Clone, Copy, PartialEq, Eq, Structural)]
pub struct PortSearch {
    pub port: u16,
    pub phase: PortPhase,
}

impl PortSearch {
    pub open spec fn at(self, phase: PortPhase) -> PortSearch {
        PortSearch { phase, ..self }
    }

    /// Going on after a profile without a browser that answers.
    pub open spec fn after(self, recovery: bool) -> (PortSearch, PortAction) {
        if recovery {
            (self.at(PortPhase::Done), PortAction::Finish { found: None })
        } else {
            (
                self.at(PortPhase::Reading { recovery: true }),
                PortAction::ReadPort { recovery: true },
            )
        }
    }

    /// What follows an event: the configured port comes first, then the browser with the
    /// usual profile, and then the one with the spare profile. An event that the pending
    /// action cannot cause changes nothing.
    pub open spec fn next(self, event: LaunchEvent) -> (PortSearch, PortAction) {
        match (self.phase, event) {
            (PortPhase::Configured, LaunchEvent::Available(yes)) => if yes {
                (self.at(PortPhase::Done), PortAction::Finish { found: Some(self.port) })
            } else {
                (
                    self.at(PortPhase::Reading { recovery: false }),
                    PortAction::ReadPort { recovery: false },
                )
            },
            (PortPhase::Reading { recovery }, LaunchEvent::Port(found)) => match found {
                Some(port) => (
                    self.at(PortPhase::Asking { recovery, port }),
                    PortAction::Probe { port },
                ),
                None => self.after(recovery),
            },
            (PortPhase::Asking { recovery, port }, LaunchEvent::Available(yes)) => if yes {
                (self.at(PortPhase::Done), PortAction::Finish { found: Some(port) })
            } else {
                self.after(recovery)
            },
            _ => (self, PortAction::Keep),
        }
    }

    /// The search for a running browser and what to do first.
    pub fn begin(port: u16) -> (r: (PortSearch, PortAction))
        ensures
            r.0 == (PortSearch { port, phase: PortPhase::Configured }),
            r.1 == (PortAction::Probe { port }),
    {
        (PortSearch { port, phase: PortPhase::Configured }, PortAction::Probe { port })
    }

    fn go_after(&mut self, recovery: bool) -> (r: PortAction)
        ensures
            (*final(self), r) == old(self).after(recovery),
    {
        if recovery {
            self.phase = PortPhase::Done;
            PortAction::Finish { found: None }
        } else {
            self.phase = PortPhase::Reading { recovery: true };
            PortAction::ReadPort { recovery: true }
        }
    }

    /// Takes in what came of the pending action and tells what to do next.
    pub fn advance(&mut self, event: LaunchEvent) -> (r: PortAction)
        ensures
            (*final(self), r) == old(self).next(event),
    {
        match (self.phase, event) {
            (PortPhase::Configured, LaunchEvent::Available(yes)) => if yes {
                self.phase = PortPhase::Done;
                PortAction::Finish { found: Some(self.port) }
            } else {
                self.phase = PortPhase::Reading { recovery: false };
                PortAction::ReadPort { recovery: false }
            },
            (PortPhase::Reading { recovery }, LaunchEvent::Port(found)) => match found {
                Some(port) => {
                    self.phase = PortPhase::Asking { recovery, port };
                    PortAction::Probe { port }
                },
                None => self.go_after(recovery),
            },
            (PortPhase::Asking { recovery, port }, LaunchEvent::Available(yes)) => if yes {
                self.phase = PortPhase::Done;
                PortAction::Finish { found: Some(port) }
            } else {
                self.go_after(recovery)
            },
            _ => PortAction::Keep,
        }
    }
}

/// A port is reported only after the browser behind it has answered.
pub proof fn found_port_has_answered(s: PortSearch, event: LaunchEvent)
    requires
        s.next(event).1 matches PortAction::Finish { found } && found is Some,
    ensures
        event == LaunchEvent::Available(true),
        s.phase == PortPhase::Configured ==> s.next(event).1->found == Some(s.port),
        s.phase matches PortPhase::Asking { port, .. } ==> s.next(event).1->found == Some(port),
{
}

// ---------------------------------------------------------------- texts

/// What a browser with the profile is called.
pub open spec fn mode_text(recovery: bool) -> Seq<char> {
    if recovery {
        "备用专用 Chrome"@
    } else {
        "专用 Chrome"@
    }
}

fn mode(recovery: bool) -> (r: &'static str)
    ensures
        r@ == mode_text(recovery),
{
    if recovery {
        "备用专用 Chrome"
    } else {
        "专用 Chrome"
    }
}

/// What the port of a start is called.
pub open spec fn start_port(start: Start) -> Seq<char> {
    match start.port {
        Some(port) => "localhost:"@ + decimal(port as nat),
        None => "随机"@,
    }
}

fn port_text(start: Start) -> (r: String)
    ensures
        r@ == start_port(start),
{
    match start.port {
        Some(port) => "localhost:".to_string().concat(decimal_of(port as u64).as_str()),
        None => "随机".to_string(),
    }
}

/// The text of a note; `profile` is the place of the profile and `url` the address of the
/// site that the note speaks of.
pub open spec fn launch_note(note: LaunchNote, profile: Seq<char>, url: Seq<char>) -> Seq<char> {
    match note {
        LaunchNote::Detecting { port } => "检测配置端口 localhost:"@ + decimal(port as nat) + " 是否已有 CDP 响应"@,
        LaunchNote::ConfiguredResponds { port } => "配置端口 localhost:"@ + decimal(port as nat) + " 已响应"@,
        LaunchNote::CheckingProfile => "检查专用 Chrome Profile："@ + profile,
        LaunchNote::ProfileInUse => "专用 Chrome Profile 正在被占用，但没有可用 CDP；跳过复用，改用备用 Profile"@,
        LaunchNote::PortFree { port } => "配置端口 localhost:"@ + decimal(port as nat) + " 可用，优先按该端口启动"@,
        LaunchNote::PortTaken { port } => "配置端口 localhost:"@ + decimal(port as nat) + " 已被占用，准备改用随机端口"@,
        LaunchNote::Starting { start, pages } => "准备启动"@ + mode_text(start.recovery) + "，Profile："@ + profile + "，端口："@ + start_port(start) + "，初始页面 "@ + decimal(pages as nat) + " 个"@,
        LaunchNote::Started { recovery } => mode_text(recovery) + " 进程已启动，等待 CDP 响应"@,
        LaunchNote::WaitingForPort { seconds } => "等待 Chrome 写入 CDP 端口... 已等待 "@ + decimal(seconds as nat) + " 秒"@,
        LaunchNote::PortRead { port } => "读取到 CDP 端口 localhost:"@ + decimal(port as nat) + "，正在检测响应"@,
        LaunchNote::Responds { port } => "CDP localhost:"@ + decimal(port as nat) + " 已响应"@,
        LaunchNote::PagesOpened { count } => "Chrome 启动参数已打开 "@ + decimal(count as nat) + " 个初始站点"@,
        LaunchNote::NotResponding { port } => "端口 localhost:"@ + decimal(port as nat) + " 尚未响应 CDP"@,
        LaunchNote::TimedOut { recovery } => mode_text(recovery) + " 在 15 秒内未提供可用 CDP"@,
        LaunchNote::FixedFailed { port } => "配置端口 localhost:"@ + decimal(port as nat) + " 启动后未响应，准备改用随机端口"@,
        LaunchNote::RandomFailed => "随机端口启动后未响应，准备尝试备用 Profile"@,
        LaunchNote::CheckingTab { .. } => "检查站点标签页："@ + url,
        LaunchNote::TabOpen { .. } => "站点已在 Chrome 中打开："@ + url,
        LaunchNote::OpeningTab { .. } => "通过 CDP 新建标签页："@ + url,
    }
}

/// The text of a note.
pub fn launch_note_text(note: LaunchNote, profile: &str, url: &str) -> (r: String)
    ensures
        r@ == launch_note(note, profile@, url@),
{
    match note {
        LaunchNote::Detecting { port } => "检测配置端口 localhost:".to_string().concat(decimal_of(port as u64).as_str()).concat(" 是否已有 CDP 响应"),
        LaunchNote::ConfiguredResponds { port } => "配置端口 localhost:".to_string().concat(decimal_of(port as u64).as_str()).concat(" 已响应"),
        LaunchNote::CheckingProfile => "检查专用 Chrome Profile：".to_string().concat(profile),
        LaunchNote::ProfileInUse => "专用 Chrome Profile 正在被占用，但没有可用 CDP；跳过复用，改用备用 Profile".to_string(),
        LaunchNote::PortFree { port } => "配置端口 localhost:".to_string().concat(decimal_of(port as u64).as_str()).concat(" 可用，优先按该端口启动"),
        LaunchNote::PortTaken { port } => "配置端口 localhost:".to_string().concat(decimal_of(port as u64).as_str()).concat(" 已被占用，准备改用随机端口"),
        LaunchNote::Starting { start, pages } => "准备启动".to_string().concat(mode(start.recovery)).concat("，Profile：").concat(profile).concat("，端口：").concat(port_text(start).as_str()).concat("，初始页面 ").concat(decimal_of(pages as u64).as_str()).concat(" 个"),
        LaunchNote::Started { recovery } => mode(recovery).to_string().concat(" 进程已启动，等待 CDP 响应"),
        LaunchNote::WaitingForPort { seconds } => "等待 Chrome 写入 CDP 端口... 已等待 ".to_string().concat(decimal_of(seconds).as_str()).concat(" 秒"),
        LaunchNote::PortRead { port } => "读取到 CDP 端口 localhost:".to_string().concat(decimal_of(port as u64).as_str()).concat("，正在检测响应"),
        LaunchNote::Responds { port } => "CDP localhost:".to_string().concat(decimal_of(port as u64).as_str()).concat(" 已响应"),
        LaunchNote::PagesOpened { count } => "Chrome 启动参数已打开 ".to_string().concat(decimal_of(count as u64).as_str()).concat(" 个初始站点"),
        LaunchNote::NotResponding { port } => "端口 localhost:".to_string().concat(decimal_of(port as u64).as_str()).concat(" 尚未响应 CDP"),
        LaunchNote::TimedOut { recovery } => mode(recovery).to_string().concat(" 在 15 秒内未提供可用 CDP"),
        LaunchNote::FixedFailed { port } => "配置端口 localhost:".to_string().concat(decimal_of(port as u64).as_str()).concat(" 启动后未响应，准备改用随机端口"),
        LaunchNote::RandomFailed => "随机端口启动后未响应，准备尝试备用 Profile".to_string(),
        LaunchNote::CheckingTab { .. } => "检查站点标签页：".to_string().concat(url),
        LaunchNote::TabOpen { .. } => "站点已在 Chrome 中打开：".to_string().concat(url),
        LaunchNote::OpeningTab { .. } => "通过 CDP 新建标签页：".to_string().concat(url),
    }
}

/// What the search results in; `port` is the configured port, `url` the address of the
/// site that could not be opened, and `detail` what went wrong.
pub open spec fn launch_outcome(
    end: LaunchEnd,
    port: u16,
    url: Seq<char>,
    detail: Seq<char>,
) -> Result<LaunchView, Seq<char>> {
    match end {
        LaunchEnd::Found { port, opened } => Ok(
            LaunchView {
                port,
                message: connected_text("Chrome CDP 已连接"@, port, opened),
                opened_initial_urls: opened,
            },
        ),
        LaunchEnd::Started { recovery, port, opened } => Ok(
            LaunchView {
                port,
                message: connected_text(
                    if recovery {
                        "已启动备用专用调试 Chrome"@
                    } else {
                        "已启动专用调试 Chrome"@
                    },
                    port,
                    opened,
                ),
                opened_initial_urls: opened,
            },
        ),
        LaunchEnd::Cancelled => Err(CDP_CANCELLED@),
        LaunchEnd::StartFailed => Err(detail),
        LaunchEnd::OpenFailed { .. } => Err(
            "CDP 已连接，但打开站点 "@ + url + " 失败："@ + detail,
        ),
        LaunchEnd::NoAnswer => Err(
            "已尝试自动启动 Chrome，但 CDP 仍未连接。请关闭刚打开的专用 Chrome 后重试，或在设置里更换 CDP 端口。原端口："@
                + decimal(port as nat),
        ),
    }
}

/// What a result of the search says.
pub open spec fn launch_result_view(r: Result<CdpLaunchResult, String>) -> Result<
    LaunchView,
    Seq<char>,
> {
    match r {
        Ok(l) => Ok(l@),
        Err(e) => Err(e@),
    }
}

/// What the search results in.
pub fn launch_result(end: LaunchEnd, port: u16, url: &str, detail: &str) -> (r: Result<
    CdpLaunchResult,
    String,
>)
    ensures
        launch_result_view(r) == launch_outcome(end, port, url@, detail@),
{
    match end {
        LaunchEnd::Found { port, opened } => Ok(
            CdpLaunchResult {
                port,
                message: connected_message("Chrome CDP 已连接", port, opened),
                opened_initial_urls: opened,
            },
        ),
        LaunchEnd::Started { recovery, port, opened } => {
            let prefix: &str = if recovery {
                "已启动备用专用调试 Chrome"
            } else {
                "已启动专用调试 Chrome"
            };
            Ok(
                CdpLaunchResult {
                    port,
                    message: connected_message(prefix, port, opened),
                    opened_initial_urls: opened,
                },
            )
        },
        LaunchEnd::Cancelled => Err(CDP_CANCELLED.to_string()),
        LaunchEnd::StartFailed => Err(detail.to_string()),
        LaunchEnd::OpenFailed { .. } => Err(
            "CDP 已连接，但打开站点 ".to_string().concat(url).concat(" 失败：").concat(detail),
        ),
        LaunchEnd::NoAnswer => Err(
            "已尝试自动启动 Chrome，但 CDP 仍未连接。请关闭刚打开的专用 Chrome 后重试，或在设置里更换 CDP 端口。原端口：".to_string().concat(
            decimal_of(port as u64).as_str()),
        ),
    }
}

// ---------------------------------------------------------------- laws

/// No event takes the search out of its bounds.
pub proof fn launch_stays_well_formed(
    s: LaunchModel,
    event: LaunchEvent,
    cancelled: bool,
    expired: bool,
)
    requires
        s.well_formed(),
    ensures
        s.next(event, cancelled, expired).state.well_formed(),
{
}

/// Once the time for waiting is over, every answered action brings the search closer to
/// its end.
pub proof fn launch_ends(s: LaunchModel, event: LaunchEvent, cancelled: bool)
    requires
        s.well_formed(),
        s.awaits(event),
    ensures
        0 <= s.next(event, cancelled, true).state.steps_left() < s.steps_left(),
{
}

/// The spare profile is the last resort: after it no browser is started any more.
pub proof fn recovery_is_last(s: LaunchModel, event: LaunchEvent, cancelled: bool, expired: bool)
    requires
        s.current_start() matches Some(start) && start.recovery,
    ensures
        !(s.next(event, cancelled, expired).action is Start),
{
}

/// A browser that already answers is used, and none is started beside it.
pub proof fn answering_browser_is_reused(s: LaunchModel, cancelled: bool, expired: bool)
    requires
        s.phase == LaunchPhase::Detecting,
    ensures
        ({
            let after = s.next(LaunchEvent::Available(true), cancelled, expired);
            !after.state.is_starting() && after.state.phase != LaunchPhase::CheckingProfile
        }),
{
}

/// A browser is reported only on a port on which one has answered.
pub proof fn reported_port_has_answered(
    s: LaunchModel,
    event: LaunchEvent,
    cancelled: bool,
    expired: bool,
)
    requires
        s.next(event, cancelled, expired).action matches LaunchAction::Finish {
            end: LaunchEnd::Started { .. },
        },
    ensures
        event == LaunchEvent::Available(true),
        s.phase is Probing,
        s.next(event, cancelled, expired).action->end->Started_port == s.phase->Probing_port,
{
}

/// A browser is started on the configured port exactly where its profile and that port are
/// free, on a port of its own choice where the port is not, and with the spare profile where
/// the profile is not or where a browser did not answer in time.
pub proof fn launch_starts_what_is_free(
    s: LaunchModel,
    event: LaunchEvent,
    cancelled: bool,
    expired: bool,
)
    requires
        s.well_formed(),
        s.awaits(event),
    ensures
        ({
            let action = s.next(event, cancelled, expired).action;
            let silent = expired && !cancelled && (match s.phase {
                LaunchPhase::Starting { start } => !start.recovery && event == LaunchEvent::Started(
                    true,
                ),
                LaunchPhase::Reading { start } => !start.recovery && event == LaunchEvent::Port(
                    None,
                ),
                LaunchPhase::Probing { start, .. } => !start.recovery && event
                    == LaunchEvent::Available(false),
                _ => false,
            });
            &&& action == (LaunchAction::Start {
                start: Start { recovery: false, port: Some(s.port) },
            }) <==> event == LaunchEvent::Free(true)
            &&& action == (LaunchAction::Start { start: Start { recovery: false, port: None } })
                <==> event == LaunchEvent::Free(false) || event == LaunchEvent::InUse(false)
                && s.port == 0
            &&& action == (LaunchAction::Start { start: Start { recovery: true, port: None } })
                <==> event == LaunchEvent::InUse(true) || silent
            &&& action matches LaunchAction::Start { start } ==> (start.port is Some ==> start.port
                == Some(s.port) && !start.recovery)
            &&& action is CheckProfile <==> s.phase is Detecting && event == LaunchEvent::Available(
                false,
            ) && !cancelled
            &&& action is CheckPort <==> event == LaunchEvent::InUse(false) && s.port > 0
        }),
{
}

/// A started browser is waited for: on the port that it was given it is asked, and else once
/// the port that it wrote is read.
pub proof fn launch_waits_for_the_port(
    s: LaunchModel,
    event: LaunchEvent,
    cancelled: bool,
    expired: bool,
)
    requires
        s.well_formed(),
        s.awaits(event),
        s.is_starting(),
    ensures
        ({
            let after = s.next(event, cancelled, expired);
            let start = s.current_start()->0;
            let waiting = event == LaunchEvent::Started(true) || event == LaunchEvent::Port(None)
                || event == LaunchEvent::Available(false);
            &&& event is Paused && start.port is Some ==> after.action == (LaunchAction::Probe {
                port: start.port->0,
                quick: true,
            })
            &&& event is Paused && start.port is None ==> after.action == (LaunchAction::ReadPort {
                recovery: start.recovery,
            })
            &&& event matches LaunchEvent::Port(Some(port)) ==> after.action == (
            LaunchAction::Probe { port, quick: true })
            &&& after.action is Pause <==> waiting && !expired && !cancelled
            &&& after.action is Probe ==> (after.state.phase matches LaunchPhase::Probing {
                port,
                ..
            } && port == after.action->Probe_port)
            &&& after.action is Pause || after.action is Probe || after.action is ReadPort
                ==> after.state.current_start() == Some(start)
            &&& event == LaunchEvent::Started(false) ==> after.action == (LaunchAction::Finish {
                end: LaunchEnd::StartFailed,
            })
            &&& waiting && cancelled && !(expired && start.recovery) ==> after.action == (
            LaunchAction::Finish { end: LaunchEnd::Cancelled })
            &&& waiting && expired && start.recovery ==> after.action == (LaunchAction::Finish {
                end: LaunchEnd::NoAnswer,
            })
            &&& event == LaunchEvent::Available(true) && !cancelled ==> after.action == (
            LaunchAction::Finish {
                end: LaunchEnd::Started {
                    recovery: start.recovery,
                    port: s.phase->Probing_port,
                    opened: s.unique,
                },
            })
        }),
{
}

impl LaunchModel {
    /// How many of the sites, from the first on, are known to be open.
    pub open spec fn shown(self) -> int {
        match self.phase {
            LaunchPhase::Finding { site } | LaunchPhase::Opening { site } => site as int,
            _ => 0,
        }
    }
}

/// In a browser that answers, each site is looked for in its order and opened exactly where no
/// tab shows it; only after the last one is the browser ready.
pub proof fn launch_opens_every_site(s: LaunchModel, event: LaunchEvent, expired: bool)
    requires
        s.well_formed(),
        s.awaits(event),
        !s.is_starting(),
    ensures
        ({
            let after = s.next(event, false, expired);
            let ready = event == LaunchEvent::Tab(true) || event == LaunchEvent::Opened(true);
            let next: int = if ready {
                s.shown() + 1
            } else {
                0
            };
            let on = ready || event == LaunchEvent::Available(true);
            &&& after.action is Find <==> on && next < s.sites
            &&& after.action is Find ==> after.action->Find_site == next && after.state.phase == (
            LaunchPhase::Finding { site: next as usize })
            &&& after.action is Open <==> event == LaunchEvent::Tab(false)
            &&& after.action is Open ==> after.action->Open_site == s.shown() && after.state.phase
                == (LaunchPhase::Opening { site: s.shown() as usize })
            &&& after.action == (LaunchAction::Finish {
                end: LaunchEnd::Found { port: s.port, opened: s.sites },
            }) <==> on && next >= s.sites
            &&& event == LaunchEvent::Opened(false) ==> after.action == (LaunchAction::Finish {
                end: LaunchEnd::OpenFailed { site: s.shown() as usize },
            })
            &&& !(after.action is Finish && after.action->end == LaunchEnd::Cancelled)
            &&& after.state.port == s.port && after.state.sites == s.sites && after.state.unique
                == s.unique
        }),
{
}

/// The report of a launch gives the port and the number of pages of its end, and is an error
/// exactly where there is no browser.
pub proof fn launch_report_tells_the_end(
    end: LaunchEnd,
    port: u16,
    url: Seq<char>,
    detail: Seq<char>,
)
    ensures
        ({
            let r = launch_outcome(end, port, url, detail);
            &&& r is Ok <==> end is Found || end is Started
            &&& end matches LaunchEnd::Found { port: p, opened } ==> (r->Ok_0).port == p && (
            r->Ok_0).opened_initial_urls == opened
            &&& end matches LaunchEnd::Started { port: p, opened, .. } ==> (r->Ok_0).port == p && (
            r->Ok_0).opened_initial_urls == opened
            &&& end is Cancelled ==> r == Err::<LaunchView, Seq<char>>("CDP 操作已终止"@)
            &&& end is StartFailed ==> r == Err::<LaunchView, Seq<char>>(detail)
        }),
{
}

/// The search for a port asks the configured one, then the one that the browser with the usual
/// profile wrote and then that of the spare profile, and ends without one only after these.
pub proof fn port_search_asks_all(s: PortSearch, event: LaunchEvent)
    ensures
        ({
            let (t, action) = s.next(event);
            let missed = (s.phase is Reading && event == LaunchEvent::Port(None))
                || s.phase is Asking && event == LaunchEvent::Available(false);
            let spare = match s.phase {
                PortPhase::Reading { recovery } => recovery,
                PortPhase::Asking { recovery, .. } => recovery,
                _ => false,
            };
            &&& action == (PortAction::Finish { found: None }) <==> missed && spare
            &&& action == (PortAction::ReadPort { recovery: false }) <==> s.phase is Configured
                && event == LaunchEvent::Available(false)
            &&& action == (PortAction::ReadPort { recovery: true }) <==> missed && !spare
            &&& s.phase is Reading ==> (event matches LaunchEvent::Port(Some(port)) ==> action == (
            PortAction::Probe { port }) && t.phase == (PortPhase::Asking { recovery: spare, port }))
            &&& s.phase is Configured && event == LaunchEvent::Available(true) ==> action == (
            PortAction::Finish { found: Some(s.port) })
            &&& s.phase is Asking && event == LaunchEvent::Available(true) ==> action == (
            PortAction::Finish { found: Some(s.phase->Asking_port) })
            &&& action matches PortAction::ReadPort { recovery } ==> t.phase == (
            PortPhase::Reading { recovery })
            &&& t.port == s.port
        }),
{
}

/// The waits for a started browser are counted from none on, and every fourth in vain is told.
pub proof fn launch_counts_its_waits(
    s: LaunchModel,
    event: LaunchEvent,
    cancelled: bool,
    expired: bool,
)
    requires
        s.well_formed(),
        s.awaits(event),
    ensures
        ({
            let after = s.next(event, cancelled, expired);
            &&& after.action is Pause && s.attempt < u64::MAX ==> after.state.attempt == s.attempt
                + 1
            &&& after.action is Start ==> after.state.attempt == 0
            &&& after.action is Probe || after.action is ReadPort ==> after.state.attempt
                == s.attempt
            &&& event == LaunchEvent::Port(None) && !expired ==> after.notes == (if s.attempt % 4
                == 0 {
                seq![LaunchNote::WaitingForPort { seconds: s.attempt / 2 }]
            } else {
                Seq::empty()
            })
            &&& s.phase is Probing && event == LaunchEvent::Available(false) && !expired
                ==> after.notes == (if s.attempt % 4 == 0 {
                seq![LaunchNote::NotResponding { port: s.phase->Probing_port }]
            } else {
                Seq::empty()
            })
        }),
{
}

} // verus!
