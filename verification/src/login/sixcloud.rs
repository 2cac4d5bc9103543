//! The login of 666clouds: its client area, error messages, and the way back to the
//! page that the login was started from.

use crate::login::common::{form_event_fits, FormAction, FormEvent, FormField};
use crate::text::{contains_text, occurs_at, str_eq};
use vstd::prelude::*;

verus! {

/// What a page of the client area shows.
#[derive(Debug)]
pub struct SixCloudLoginState {
    pub ready: bool,
    pub host: String,
    pub logged_in: bool,
    pub has_login_form: bool,
    pub has_verification: bool,
    pub error_message: String,
}

/// Why a login ended without success.
#[derive(Debug, Clone, Copy, PartialEq, Eq, Structural)]
pub enum SixCloudFailure {
    TabMissing,
    Cancelled,
    /// A step outside the flow failed with a text of its own.
    Outside,
    Unreadable,
    WrongHost,
    VerificationBefore,
    FormMissing,
    UsernameMissing,
    PasswordMissing,
    ButtonMissing,
    VerificationAfter,
    /// The site reported the same error again and again.
    Reported,
    NotLoggedIn,
    ReturnTimeout,
}

/// How a login ended.
#[derive(Debug, Clone, Copy, PartialEq, Eq, Structural)]
pub enum SixCloudEnd {
    LoggedIn,
    AlreadyLoggedIn,
    Failed(SixCloudFailure),
}

/// What is done after a page was waited for.
#[derive(Debug, Clone, Copy, PartialEq, Eq, Structural)]
pub enum SixCloudVerdict {
    Unreadable,
    WrongHost,
    /// An account showed on the page that the login was started from.
    LoggedInHere,
    /// An account showed on the login page.
    LoggedInThere,
    OpenLogin,
    Verification,
    NoForm,
    FillIn,
}

/// Where a login stands.
#[derive(Debug, Clone, Copy, PartialEq, Eq, Structural)]
pub enum SixCloudPhase {
    /// A page is waited for; `opened` tells that it is the login page, and `last` is
    /// what the last readable page calls for.
    Looking { opened: bool, step: u32, last: SixCloudVerdict },
    LookingPause { opened: bool, step: u32, last: SixCloudVerdict },
    Opening,
    TypingUsername,
    TypingPassword,
    Clicking,
    Awaiting { step: u32 },
    /// The page that the login was started from is opened again; `fresh` tells
    /// whether the account is newly logged in.
    Returning { fresh: bool },
    AwaitingTarget { fresh: bool, step: u32 },
    Done(SixCloudEnd),
}

/// A login in progress.
#[derive(Debug)]
pub struct SixCloudLogin {
    pub phase: SixCloudPhase,
    /// The error that the site reported last.
    pub error: String,
    /// How often in a row it was reported.
    pub repeats: u32,
}

/// The state of a login.
pub struct SixCloudModel {
    pub phase: SixCloudPhase,
    pub error: Seq<char>,
    pub repeats: u32,
}

/// The result of a login is looked for at most this many times.
pub const SIXCLOUD_RESULT_STEPS: u32 = 160;

/// An error counts once it was reported this many times in a row.
pub const SIXCLOUD_ERROR_REPEATS: u32 = 3;

/// How often a page is looked at.
pub open spec fn sixcloud_look_steps(opened: bool) -> u32 {
    if opened {
        160
    } else {
        120
    }
}

fn look_steps(opened: bool) -> (r: u32)
    ensures
        r == sixcloud_look_steps(opened),
{
    if opened {
        160
    } else {
        120
    }
}

/// Whether a page is loaded far enough to decide.
pub open spec fn sixcloud_settled(p: SixCloudLoginState) -> bool {
    p.ready && (p.logged_in || p.has_login_form || p.has_verification || p.error_message@.len()
        > 0)
}

/// What a login page calls for.
pub open spec fn sixcloud_form_verdict(p: SixCloudLoginState) -> SixCloudVerdict {
    if p.has_verification {
        SixCloudVerdict::Verification
    } else if !p.has_login_form {
        SixCloudVerdict::NoForm
    } else {
        SixCloudVerdict::FillIn
    }
}

/// What a page calls for.
pub open spec fn sixcloud_verdict(opened: bool, p: SixCloudLoginState) -> SixCloudVerdict {
    if opened {
        if p.logged_in {
            SixCloudVerdict::LoggedInThere
        } else {
            sixcloud_form_verdict(p)
        }
    } else if p.host@ != "666clouds.com"@ && p.host@ != "www.666clouds.com"@ {
        SixCloudVerdict::WrongHost
    } else if p.logged_in {
        SixCloudVerdict::LoggedInHere
    } else if !p.has_login_form {
        SixCloudVerdict::OpenLogin
    } else {
        sixcloud_form_verdict(p)
    }
}

fn settled(p: &SixCloudLoginState) -> (r: bool)
    ensures
        r == sixcloud_settled(*p),
{
    p.ready && (p.logged_in || p.has_login_form || p.has_verification
        || !p.error_message.as_str().is_empty())
}

fn form_verdict(p: &SixCloudLoginState) -> (r: SixCloudVerdict)
    ensures
        r == sixcloud_form_verdict(*p),
{
    if p.has_verification {
        SixCloudVerdict::Verification
    } else if !p.has_login_form {
        SixCloudVerdict::NoForm
    } else {
        SixCloudVerdict::FillIn
    }
}

fn verdict_on(opened: bool, p: &SixCloudLoginState) -> (r: SixCloudVerdict)
    ensures
        r == sixcloud_verdict(opened, *p),
{
    if opened {
        if p.logged_in {
            SixCloudVerdict::LoggedInThere
        } else {
            form_verdict(p)
        }
    } else if !str_eq(p.host.as_str(), "666clouds.com") && !str_eq(
        p.host.as_str(),
        "www.666clouds.com",
    ) {
        SixCloudVerdict::WrongHost
    } else if p.logged_in {
        SixCloudVerdict::LoggedInHere
    } else if !p.has_login_form {
        SixCloudVerdict::OpenLogin
    } else {
        form_verdict(p)
    }
}

pub open spec fn sixcloud_failed(f: SixCloudFailure) -> SixCloudPhase {
    SixCloudPhase::Done(SixCloudEnd::Failed(f))
}

/// `phase`, unless the user asked to stop.
pub open spec fn sixcloud_unless(cancelled: bool, phase: SixCloudPhase) -> SixCloudPhase {
    if cancelled {
        sixcloud_failed(SixCloudFailure::Cancelled)
    } else {
        phase
    }
}

/// The phase that carries out a verdict.
pub open spec fn sixcloud_enacted(v: SixCloudVerdict) -> SixCloudPhase {
    match v {
        SixCloudVerdict::Unreadable => sixcloud_failed(SixCloudFailure::Unreadable),
        SixCloudVerdict::WrongHost => sixcloud_failed(SixCloudFailure::WrongHost),
        SixCloudVerdict::LoggedInHere => SixCloudPhase::Done(SixCloudEnd::AlreadyLoggedIn),
        SixCloudVerdict::LoggedInThere => SixCloudPhase::Returning { fresh: false },
        SixCloudVerdict::OpenLogin => SixCloudPhase::Opening,
        SixCloudVerdict::Verification => sixcloud_failed(SixCloudFailure::VerificationBefore),
        SixCloudVerdict::NoForm => sixcloud_failed(SixCloudFailure::FormMissing),
        SixCloudVerdict::FillIn => SixCloudPhase::TypingUsername,
    }
}

fn failed(f: SixCloudFailure) -> (r: SixCloudPhase)
    ensures
        r == sixcloud_failed(f),
{
    SixCloudPhase::Done(SixCloudEnd::Failed(f))
}

fn unless(cancelled: bool, phase: SixCloudPhase) -> (r: SixCloudPhase)
    ensures
        r == sixcloud_unless(cancelled, phase),
{
    if cancelled {
        failed(SixCloudFailure::Cancelled)
    } else {
        phase
    }
}

fn enact(v: SixCloudVerdict) -> (r: SixCloudPhase)
    ensures
        r == sixcloud_enacted(v),
{
    match v {
        SixCloudVerdict::Unreadable => failed(SixCloudFailure::Unreadable),
        SixCloudVerdict::WrongHost => failed(SixCloudFailure::WrongHost),
        SixCloudVerdict::LoggedInHere => SixCloudPhase::Done(SixCloudEnd::AlreadyLoggedIn),
        SixCloudVerdict::LoggedInThere => SixCloudPhase::Returning { fresh: false },
        SixCloudVerdict::OpenLogin => SixCloudPhase::Opening,
        SixCloudVerdict::Verification => failed(SixCloudFailure::VerificationBefore),
        SixCloudVerdict::NoForm => failed(SixCloudFailure::FormMissing),
        SixCloudVerdict::FillIn => SixCloudPhase::TypingUsername,
    }
}

/// The phase of the next look at the page after the login.
pub open spec fn sixcloud_next_look(step: u32, cancelled: bool) -> SixCloudPhase {
    if step + 1 < SIXCLOUD_RESULT_STEPS {
        sixcloud_unless(cancelled, SixCloudPhase::Awaiting { step: (step + 1) as u32 })
    } else {
        sixcloud_failed(SixCloudFailure::NotLoggedIn)
    }
}

fn next_look(step: u32, cancelled: bool) -> (r: SixCloudPhase)
    requires
        step < SIXCLOUD_RESULT_STEPS,
    ensures
        r == sixcloud_next_look(step, cancelled),
{
    if step + 1 < SIXCLOUD_RESULT_STEPS {
        unless(cancelled, SixCloudPhase::Awaiting { step: step + 1 })
    } else {
        failed(SixCloudFailure::NotLoggedIn)
    }
}

/// How a login ends on the page that it was started from.
pub open spec fn sixcloud_returned(fresh: bool) -> SixCloudPhase {
    SixCloudPhase::Done(
        if fresh {
            SixCloudEnd::LoggedIn
        } else {
            SixCloudEnd::AlreadyLoggedIn
        },
    )
}

fn returned(fresh: bool) -> (r: SixCloudPhase)
    ensures
        r == sixcloud_returned(fresh),
{
    if fresh {
        SixCloudPhase::Done(SixCloudEnd::LoggedIn)
    } else {
        SixCloudPhase::Done(SixCloudEnd::AlreadyLoggedIn)
    }
}

/// What has to be done in a phase.
pub open spec fn sixcloud_pending(phase: SixCloudPhase) -> FormAction {
    match phase {
        SixCloudPhase::Looking { .. } => FormAction::ReadPage { after_millis: 0 },
        SixCloudPhase::LookingPause { .. } => FormAction::Sleep { millis: 250 },
        SixCloudPhase::Opening => FormAction::OpenLogin,
        SixCloudPhase::TypingUsername => FormAction::Type {
            field: FormField::Username,
            pause_min: 550,
            pause_max: 1250,
            key_min: 45,
            key_max: 115,
        },
        SixCloudPhase::TypingPassword => FormAction::Type {
            field: FormField::Password,
            pause_min: 450,
            pause_max: 1050,
            key_min: 55,
            key_max: 135,
        },
        SixCloudPhase::Clicking => FormAction::Click { pause_min: 700, pause_max: 1550 },
        SixCloudPhase::Awaiting { .. } => FormAction::ReadPage { after_millis: 250 },
        SixCloudPhase::Returning { .. } => FormAction::OpenTarget,
        SixCloudPhase::AwaitingTarget { .. } => FormAction::ReadPage { after_millis: 250 },
        SixCloudPhase::Done(_) => FormAction::Finish,
    }
}

impl SixCloudModel {
    pub open spec fn at(self, phase: SixCloudPhase) -> SixCloudModel {
        SixCloudModel { phase, ..self }
    }

    /// The state before anything was done.
    pub open spec fn initial(cancelled: bool) -> SixCloudModel {
        SixCloudModel {
            phase: sixcloud_unless(
                cancelled,
                SixCloudPhase::Looking {
                    opened: false,
                    step: 0,
                    last: SixCloudVerdict::Unreadable,
                },
            ),
            error: Seq::empty(),
            repeats: 0,
        }
    }

    /// The counters stay within the limits of their loops, and a remembered verdict
    /// is one that the pages looked at can lead to.
    pub open spec fn well_formed(self) -> bool {
        &&& self.repeats < SIXCLOUD_ERROR_REPEATS || self.phase is Done
        &&& match self.phase {
            SixCloudPhase::Looking { opened, step, last } => step < sixcloud_look_steps(opened)
                && (opened ==> !(last is OpenLogin)),
            SixCloudPhase::LookingPause { opened, step, last } => step < sixcloud_look_steps(opened)
                && (opened ==> !(last is OpenLogin)),
            SixCloudPhase::Awaiting { step } => step < SIXCLOUD_RESULT_STEPS,
            SixCloudPhase::AwaitingTarget { step, fresh } => step < SIXCLOUD_RESULT_STEPS,
            _ => true,
        }
    }

    /// The state after the site reported an error.
    pub open spec fn reported(
        self,
        message: Seq<char>,
        step: u32,
        cancelled: bool,
    ) -> SixCloudModel {
        let s = SixCloudModel {
            error: message,
            repeats: if self.error == message {
                (self.repeats + 1) as u32
            } else {
                1
            },
            ..self
        };
        if s.repeats >= SIXCLOUD_ERROR_REPEATS {
            s.at(sixcloud_failed(SixCloudFailure::Reported))
        } else {
            s.at(sixcloud_next_look(step, cancelled))
        }
    }

    /// What a page shows after the login.
    pub open spec fn result_seen(
        self,
        step: u32,
        page: Option<SixCloudLoginState>,
        cancelled: bool,
    ) -> SixCloudModel {
        match page {
            None => self.at(sixcloud_next_look(step, cancelled)),
            Some(p) => if p.logged_in {
                self.at(SixCloudPhase::Returning { fresh: true })
            } else if p.has_verification {
                self.at(sixcloud_failed(SixCloudFailure::VerificationAfter))
            } else if p.error_message@.len() > 0 && p.has_login_form {
                self.reported(p.error_message@, step, cancelled)
            } else {
                self.at(sixcloud_next_look(step, cancelled))
            },
        }
    }

    /// What a page shows on the way back.
    pub open spec fn target_seen(
        self,
        fresh: bool,
        step: u32,
        page: Option<SixCloudLoginState>,
        cancelled: bool,
    ) -> SixCloudModel {
        if page matches Some(p) && p.ready && p.logged_in {
            self.at(sixcloud_returned(fresh))
        } else if step + 1 < SIXCLOUD_RESULT_STEPS {
            self.at(
                sixcloud_unless(
                    cancelled,
                    SixCloudPhase::AwaitingTarget { fresh, step: (step + 1) as u32 },
                ),
            )
        } else {
            self.at(sixcloud_failed(SixCloudFailure::ReturnTimeout))
        }
    }

    /// The state after an event; `cancelled` tells whether the user has asked to
    /// stop by now. An event that the pending action cannot cause changes nothing.
    pub open spec fn next(
        self,
        event: FormEvent<SixCloudLoginState>,
        cancelled: bool,
    ) -> SixCloudModel {
        match (self.phase, event) {
            (SixCloudPhase::Looking { opened, step, last }, FormEvent::Page(page)) => match page {
                Some(p) => if sixcloud_settled(p) {
                    self.at(sixcloud_enacted(sixcloud_verdict(opened, p)))
                } else {
                    self.at(
                        SixCloudPhase::LookingPause {
                            opened,
                            step,
                            last: sixcloud_verdict(opened, p),
                        },
                    )
                },
                None => self.at(SixCloudPhase::LookingPause { opened, step, last }),
            },
            (SixCloudPhase::LookingPause { opened, step, last }, FormEvent::Slept) => if step + 1
                < sixcloud_look_steps(opened) {
                self.at(
                    sixcloud_unless(
                        cancelled,
                        SixCloudPhase::Looking { opened, step: (step + 1) as u32, last },
                    ),
                )
            } else {
                self.at(sixcloud_enacted(last))
            },
            (SixCloudPhase::Opening, FormEvent::Outside(ok)) => if ok {
                self.at(
                    sixcloud_unless(
                        cancelled,
                        SixCloudPhase::Looking {
                            opened: true,
                            step: 0,
                            last: SixCloudVerdict::Unreadable,
                        },
                    ),
                )
            } else {
                self.at(sixcloud_failed(SixCloudFailure::Outside))
            },
            (SixCloudPhase::TypingUsername, FormEvent::Acted(ok)) => if ok {
                self.at(SixCloudPhase::TypingPassword)
            } else {
                self.at(sixcloud_failed(SixCloudFailure::UsernameMissing))
            },
            (SixCloudPhase::TypingPassword, FormEvent::Acted(ok)) => if ok {
                self.at(SixCloudPhase::Clicking)
            } else {
                self.at(sixcloud_failed(SixCloudFailure::PasswordMissing))
            },
            (SixCloudPhase::Clicking, FormEvent::Acted(ok)) => if ok {
                self.at(sixcloud_unless(cancelled, SixCloudPhase::Awaiting { step: 0 }))
            } else {
                self.at(sixcloud_failed(SixCloudFailure::ButtonMissing))
            },
            (SixCloudPhase::Awaiting { step }, FormEvent::Page(page)) => self.result_seen(
                step,
                page,
                cancelled,
            ),
            (SixCloudPhase::Returning { fresh }, FormEvent::Outside(ok)) => if ok {
                self.at(
                    sixcloud_unless(cancelled, SixCloudPhase::AwaitingTarget { fresh, step: 0 }),
                )
            } else {
                self.at(sixcloud_failed(SixCloudFailure::Outside))
            },
            (SixCloudPhase::AwaitingTarget { fresh, step }, FormEvent::Page(page)) =>
                self.target_seen(fresh, step, page, cancelled),
            _ => self,
        }
    }

    /// An upper bound on the number of actions until the login ends.
    pub open spec fn steps_left(self) -> int {
        match self.phase {
            SixCloudPhase::Looking { opened, step, .. } => (if opened {
                600int
            } else {
                1000
            }) + 2 * (sixcloud_look_steps(opened) - step),
            SixCloudPhase::LookingPause { opened, step, .. } => (if opened {
                599int
            } else {
                999
            }) + 2 * (sixcloud_look_steps(opened) - step),
            SixCloudPhase::Opening => 950,
            SixCloudPhase::TypingUsername => 503,
            SixCloudPhase::TypingPassword => 502,
            SixCloudPhase::Clicking => 501,
            SixCloudPhase::Awaiting { step } => 200 + SIXCLOUD_RESULT_STEPS - step,
            SixCloudPhase::Returning { .. } => 190,
            SixCloudPhase::AwaitingTarget { step, .. } => SIXCLOUD_RESULT_STEPS - step,
            SixCloudPhase::Done(_) => 0,
        }
    }
}

impl View for SixCloudLogin {
    type V = SixCloudModel;

    open spec fn view(&self) -> SixCloudModel {
        SixCloudModel { phase: self.phase, error: self.error@, repeats: self.repeats }
    }
}

impl SixCloudLogin {
    /// A login that has not begun yet.
    pub fn begin(cancelled: bool) -> (r: SixCloudLogin)
        ensures
            r@ == SixCloudModel::initial(cancelled),
            r@.well_formed(),
    {
        SixCloudLogin {
            phase: unless(
                cancelled,
                SixCloudPhase::Looking {
                    opened: false,
                    step: 0,
                    last: SixCloudVerdict::Unreadable,
                },
            ),
            error: String::new(),
            repeats: 0,
        }
    }

    /// What has to be done in this state.
    pub fn action(&self) -> (r: FormAction)
        ensures
            r == sixcloud_pending(self.phase),
    {
        match self.phase {
            SixCloudPhase::Looking { .. } => FormAction::ReadPage { after_millis: 0 },
            SixCloudPhase::LookingPause { .. } => FormAction::Sleep { millis: 250 },
            SixCloudPhase::Opening => FormAction::OpenLogin,
            SixCloudPhase::TypingUsername => FormAction::Type {
                field: FormField::Username,
                pause_min: 550,
                pause_max: 1250,
                key_min: 45,
                key_max: 115,
            },
            SixCloudPhase::TypingPassword => FormAction::Type {
                field: FormField::Password,
                pause_min: 450,
                pause_max: 1050,
                key_min: 55,
                key_max: 135,
            },
            SixCloudPhase::Clicking => FormAction::Click { pause_min: 700, pause_max: 1550 },
            SixCloudPhase::Awaiting { .. } => FormAction::ReadPage { after_millis: 250 },
            SixCloudPhase::Returning { .. } => FormAction::OpenTarget,
            SixCloudPhase::AwaitingTarget { .. } => FormAction::ReadPage { after_millis: 250 },
            SixCloudPhase::Done(_) => FormAction::Finish,
        }
    }

    fn see_error(&mut self, message: &str, step: u32, cancelled: bool)
        requires
            old(self).repeats < SIXCLOUD_ERROR_REPEATS,
            step < SIXCLOUD_RESULT_STEPS,
        ensures
            final(self)@ == old(self)@.reported(message@, step, cancelled),
    {
        if str_eq(self.error.as_str(), message) {
            self.repeats = self.repeats + 1;
        } else {
            self.error = message.to_string();
            self.repeats = 1;
        }
        if self.repeats >= SIXCLOUD_ERROR_REPEATS {
            self.phase = failed(SixCloudFailure::Reported);
        } else {
            self.phase = next_look(step, cancelled);
        }
    }

    fn see_result(&mut self, step: u32, page: &Option<SixCloudLoginState>, cancelled: bool)
        requires
            old(self).repeats < SIXCLOUD_ERROR_REPEATS,
            step < SIXCLOUD_RESULT_STEPS,
        ensures
            final(self)@ == old(self)@.result_seen(step, *page, cancelled),
    {
        match page {
            None => {
                self.phase = next_look(step, cancelled);
            },
            Some(p) => {
                if p.logged_in {
                    self.phase = SixCloudPhase::Returning { fresh: true };
                } else if p.has_verification {
                    self.phase = failed(SixCloudFailure::VerificationAfter);
                } else if !p.error_message.as_str().is_empty() && p.has_login_form {
                    self.see_error(p.error_message.as_str(), step, cancelled);
                } else {
                    self.phase = next_look(step, cancelled);
                }
            },
        }
    }

    fn see_target(
        &mut self,
        fresh: bool,
        step: u32,
        page: &Option<SixCloudLoginState>,
        cancelled: bool,
    )
        requires
            step < SIXCLOUD_RESULT_STEPS,
        ensures
            final(self)@ == old(self)@.target_seen(fresh, step, *page, cancelled),
    {
        let arrived: bool = match page {
            Some(p) => p.ready && p.logged_in,
            None => false,
        };
        if arrived {
            self.phase = returned(fresh);
        } else if step + 1 < SIXCLOUD_RESULT_STEPS {
            self.phase = unless(
                cancelled,
                SixCloudPhase::AwaitingTarget { fresh, step: step + 1 },
            );
        } else {
            self.phase = failed(SixCloudFailure::ReturnTimeout);
        }
    }

    /// Takes in what came of the pending action.
    pub fn advance(&mut self, event: &FormEvent<SixCloudLoginState>, cancelled: bool)
        requires
            old(self)@.well_formed(),
        ensures
            final(self)@ == old(self)@.next(*event, cancelled),
            final(self)@.well_formed(),
    {
        match (self.phase, event) {
            (SixCloudPhase::Looking { opened, step, last }, FormEvent::Page(page)) => match page {
                Some(p) => {
                    if settled(p) {
                        self.phase = enact(verdict_on(opened, p));
                    } else {
                        self.phase = SixCloudPhase::LookingPause {
                            opened,
                            step,
                            last: verdict_on(opened, p),
                        };
                    }
                },
                None => {
                    self.phase = SixCloudPhase::LookingPause { opened, step, last };
                },
            },
            (SixCloudPhase::LookingPause { opened, step, last }, FormEvent::Slept) => {
                if step + 1 < look_steps(opened) {
                    self.phase = unless(
                        cancelled,
                        SixCloudPhase::Looking { opened, step: step + 1, last },
                    );
                } else {
                    self.phase = enact(last);
                }
            },
            (SixCloudPhase::Opening, FormEvent::Outside(ok)) => {
                if *ok {
                    self.phase = unless(
                        cancelled,
                        SixCloudPhase::Looking {
                            opened: true,
                            step: 0,
                            last: SixCloudVerdict::Unreadable,
                        },
                    );
                } else {
                    self.phase = failed(SixCloudFailure::Outside);
                }
            },
            (SixCloudPhase::TypingUsername, FormEvent::Acted(ok)) => {
                if *ok {
                    self.phase = SixCloudPhase::TypingPassword;
                } else {
                    self.phase = failed(SixCloudFailure::UsernameMissing);
                }
            },
            (SixCloudPhase::TypingPassword, FormEvent::Acted(ok)) => {
                if *ok {
                    self.phase = SixCloudPhase::Clicking;
                } else {
                    self.phase = failed(SixCloudFailure::PasswordMissing);
                }
            },
            (SixCloudPhase::Clicking, FormEvent::Acted(ok)) => {
                if *ok {
                    self.phase = unless(cancelled, SixCloudPhase::Awaiting { step: 0 });
                } else {
                    self.phase = failed(SixCloudFailure::ButtonMissing);
                }
            },
            (SixCloudPhase::Awaiting { step }, FormEvent::Page(page)) => {
                self.see_result(step, page, cancelled);
            },
            (SixCloudPhase::Returning { fresh }, FormEvent::Outside(ok)) => {
                if *ok {
                    self.phase = unless(
                        cancelled,
                        SixCloudPhase::AwaitingTarget { fresh, step: 0 },
                    );
                } else {
                    self.phase = failed(SixCloudFailure::Outside);
                }
            },
            (SixCloudPhase::AwaitingTarget { fresh, step }, FormEvent::Page(page)) => {
                self.see_target(fresh, step, page, cancelled);
            },
            _ => {},
        }
    }
}

/// Every answered action brings a login closer to its end.
#[verifier::rlimit(40)]
#[verifier::spinoff_prover]
pub proof fn sixcloud_login_ends(
    s: SixCloudModel,
    event: FormEvent<SixCloudLoginState>,
    cancelled: bool,
)
    requires
        s.well_formed(),
        form_event_fits(sixcloud_pending(s.phase), event),
    ensures
        s.next(event, cancelled).well_formed(),
        0 <= s.next(event, cancelled).steps_left() < s.steps_left(),
{
}

/// After the user asked to stop, no further round of waiting begins.
pub proof fn sixcloud_cancel_stops_rounds(s: SixCloudModel, event: FormEvent<SixCloudLoginState>)
    requires
        form_event_fits(sixcloud_pending(s.phase), event),
    ensures
        ({
            let phase = s.next(event, true).phase;
            !(phase is Looking || phase is Awaiting || phase is AwaitingTarget)
        }),
{
}

/// The text for a failure; `detail` is the text of a step outside the flow, and
/// `error` the error that the site reported.
pub open spec fn sixcloud_failure_text(
    f: SixCloudFailure,
    detail: Seq<char>,
    error: Seq<char>,
) -> Seq<char> {
    match f {
        SixCloudFailure::TabMissing => "无法连接六六云标签页"@,
        SixCloudFailure::Cancelled => "CDP 操作已终止"@,
        SixCloudFailure::Outside => detail,
        SixCloudFailure::Unreadable => "无法读取六六云页面状态"@,
        SixCloudFailure::WrongHost => "六六云页面加载失败：当前标签页域名不匹配"@,
        SixCloudFailure::VerificationBefore =>
            "六六云登录页要求人机验证，请先在专用 Chrome 中人工完成验证"@,
        SixCloudFailure::FormMissing => "六六云登录页已打开，但未找到登录表单"@,
        SixCloudFailure::UsernameMissing => "未找到六六云邮箱输入框"@,
        SixCloudFailure::PasswordMissing => "未找到六六云密码输入框"@,
        SixCloudFailure::ButtonMissing => "未找到六六云登录按钮"@,
        SixCloudFailure::VerificationAfter =>
            "六六云登录要求人机验证，请先在专用 Chrome 中人工完成验证"@,
        SixCloudFailure::Reported => "六六云登录失败："@ + error,
        SixCloudFailure::NotLoggedIn =>
            "六六云登录后未检测到账户状态，请检查账号、密码或验证要求"@,
        SixCloudFailure::ReturnTimeout => "六六云登录成功，但返回产品详情页超时"@,
    }
}

/// The text for a failure; `detail` is the text of a step outside the flow, and
/// `error` the error that the site reported.
pub fn sixcloud_failure_message(f: SixCloudFailure, detail: &str, error: &str) -> (r: String)
    ensures
        r@ == sixcloud_failure_text(f, detail@, error@),
{
    match f {
        SixCloudFailure::TabMissing => "无法连接六六云标签页".to_string(),
        SixCloudFailure::Cancelled => "CDP 操作已终止".to_string(),
        SixCloudFailure::Outside => detail.to_string(),
        SixCloudFailure::Unreadable => "无法读取六六云页面状态".to_string(),
        SixCloudFailure::WrongHost =>
            "六六云页面加载失败：当前标签页域名不匹配".to_string(),
        SixCloudFailure::VerificationBefore =>
            "六六云登录页要求人机验证，请先在专用 Chrome 中人工完成验证".to_string(),
        SixCloudFailure::FormMissing => "六六云登录页已打开，但未找到登录表单".to_string(),
        SixCloudFailure::UsernameMissing => "未找到六六云邮箱输入框".to_string(),
        SixCloudFailure::PasswordMissing => "未找到六六云密码输入框".to_string(),
        SixCloudFailure::ButtonMissing => "未找到六六云登录按钮".to_string(),
        SixCloudFailure::VerificationAfter =>
            "六六云登录要求人机验证，请先在专用 Chrome 中人工完成验证".to_string(),
        SixCloudFailure::Reported => "六六云登录失败：".to_string().concat(error),
        SixCloudFailure::NotLoggedIn =>
            "六六云登录后未检测到账户状态，请检查账号、密码或验证要求".to_string(),
        SixCloudFailure::ReturnTimeout => "六六云登录成功，但返回产品详情页超时".to_string(),
    }
}

// ---------------------------------------------------------------- what a login does

/// A login fails over a field or a button exactly where that very one was not there.
pub proof fn sixcloud_missing_control_is_the_one_used(
    s: SixCloudModel,
    event: FormEvent<SixCloudLoginState>,
    cancelled: bool,
)
    requires
        !(s.phase is Done),
    ensures
        ({
            let end = s.next(event, cancelled).phase;
            let doing = sixcloud_pending(s.phase);
            let missed = event == FormEvent::<SixCloudLoginState>::Acted(false);
            let typing = doing is Type && missed;
            &&& end == SixCloudPhase::Done(SixCloudEnd::Failed(SixCloudFailure::UsernameMissing))
                <==> typing && doing->field == FormField::Username
            &&& end == SixCloudPhase::Done(SixCloudEnd::Failed(SixCloudFailure::PasswordMissing))
                <==> typing && doing->field == FormField::Password
            &&& end == SixCloudPhase::Done(SixCloudEnd::Failed(SixCloudFailure::ButtonMissing))
                <==> doing is Click && missed
            &&& end == SixCloudPhase::Done(SixCloudEnd::Failed(SixCloudFailure::Outside)) <==> (
            doing is OpenLogin || doing is OpenTarget) && event
                == FormEvent::<SixCloudLoginState>::Outside(false)
            &&& doing is Type && event == FormEvent::<SixCloudLoginState>::Acted(true) ==> !(
            end is Done)
        }),
{
}

/// The form is filled in and sent in order: the user name, the password, the button; the
/// result is looked at after the button was clicked.
pub proof fn sixcloud_fills_in_order(
    s: SixCloudModel,
    event: FormEvent<SixCloudLoginState>,
    cancelled: bool,
)
    requires
        s.well_formed(),
        form_event_fits(sixcloud_pending(s.phase), event),
    ensures
        ({
            let t = s.next(event, cancelled);
            let done = event == FormEvent::<SixCloudLoginState>::Acted(true);
            &&& t.phase is TypingPassword <==> s.phase is TypingUsername && done
            &&& t.phase is Clicking <==> s.phase is TypingPassword && done
            &&& t.phase == (SixCloudPhase::Awaiting { step: 0 }) <==> s.phase is Clicking && done
                && !cancelled
            &&& t.phase is Awaiting ==> !cancelled && (s.phase is Clicking && done
                || s.phase is Awaiting && t.phase->Awaiting_step == s.phase->Awaiting_step + 1)
            &&& t.phase == SixCloudPhase::Done(SixCloudEnd::Failed(SixCloudFailure::Cancelled))
                ==> cancelled
        }),
{
}

/// A page that shows an account, a form, a verification or an error decides: on the login
/// page an account leads back to where the login was started from, and before that it means
/// that the login was done; a form without a verification is filled in.
pub proof fn sixcloud_decides_by_a_loaded_page(
    s: SixCloudModel,
    p: SixCloudLoginState,
    cancelled: bool,
)
    requires
        s.well_formed(),
        s.phase is Looking,
    ensures
        ({
            let t = s.next(FormEvent::Page(Some(p)), cancelled);
            let there = s.phase->Looking_opened;
            let ours = there || p.host@ == "666clouds.com"@ || p.host@ == "www.666clouds.com"@;
            let settled = p.ready && (p.logged_in || p.has_login_form || p.has_verification
                || p.error_message@.len() > 0);
            let open = settled && ours && !p.logged_in;
            &&& t.phase is LookingPause <==> !settled
            &&& t.phase is LookingPause ==> t.phase->LookingPause_opened == there
                && t.phase->LookingPause_step == s.phase->Looking_step
            &&& t.phase == SixCloudPhase::Done(SixCloudEnd::Failed(SixCloudFailure::WrongHost))
                <==> settled && !ours
            &&& t.phase == SixCloudPhase::Done(SixCloudEnd::AlreadyLoggedIn) <==> settled && ours
                && !there && p.logged_in
            &&& t.phase == (SixCloudPhase::Returning { fresh: false }) <==> settled && there
                && p.logged_in
            &&& t.phase is TypingUsername <==> open && p.has_login_form && !p.has_verification
            &&& t.phase is Opening <==> open && !there && !p.has_login_form
            &&& t.phase == SixCloudPhase::Done(
                SixCloudEnd::Failed(SixCloudFailure::VerificationBefore),
            ) <==> open && p.has_verification && (there || p.has_login_form)
            &&& t.phase == SixCloudPhase::Done(SixCloudEnd::Failed(SixCloudFailure::FormMissing))
                <==> open && there && !p.has_verification && !p.has_login_form
        }),
{
}

/// What was seen last is remembered through the pauses, a page that cannot be read changes
/// nothing of it, and the login page is looked at anew once it was opened.
pub proof fn sixcloud_remembers_the_last_page(
    s: SixCloudModel,
    event: FormEvent<SixCloudLoginState>,
    cancelled: bool,
)
    requires
        s.well_formed(),
        form_event_fits(sixcloud_pending(s.phase), event),
    ensures
        ({
            let t = s.next(event, cancelled);
            &&& s.phase is Looking && event == FormEvent::<SixCloudLoginState>::Page(None)
                ==> t.phase == (SixCloudPhase::LookingPause {
                opened: s.phase->Looking_opened,
                step: s.phase->Looking_step,
                last: s.phase->Looking_last,
            })
            &&& s.phase matches SixCloudPhase::LookingPause { opened, step, last } ==> {
                let over = step + 1 == (if opened {
                    160int
                } else {
                    120
                });
                &&& !over && !cancelled ==> t.phase == (SixCloudPhase::Looking {
                    opened,
                    step: (step + 1) as u32,
                    last,
                })
                &&& over && last == SixCloudVerdict::Unreadable ==> t.phase == SixCloudPhase::Done(
                    SixCloudEnd::Failed(SixCloudFailure::Unreadable),
                )
                &&& over && last == SixCloudVerdict::LoggedInHere ==> t.phase == SixCloudPhase::Done(
                    SixCloudEnd::AlreadyLoggedIn,
                )
                &&& over && last == SixCloudVerdict::FillIn ==> t.phase
                    == SixCloudPhase::TypingUsername
                &&& over && last == SixCloudVerdict::OpenLogin ==> t.phase == SixCloudPhase::Opening
            }
            &&& s.phase is Opening && event == FormEvent::<SixCloudLoginState>::Outside(true)
                && !cancelled ==> t.phase is Looking && t.phase->Looking_opened
                && t.phase->Looking_step == 0
            &&& s.phase is Returning && event == FormEvent::<SixCloudLoginState>::Outside(true)
                && !cancelled ==> t.phase == (SixCloudPhase::AwaitingTarget {
                fresh: s.phase->Returning_fresh,
                step: 0,
            })
        }),
{
}

/// After the form was sent, an account leads back to where the login was started from; a
/// verification fails the login; an error that is reported with the form still there counts,
/// and fails the login when it is reported three times in a row.
pub proof fn sixcloud_reads_the_result(s: SixCloudModel, p: SixCloudLoginState, cancelled: bool)
    requires
        s.well_formed(),
        s.phase is Awaiting,
    ensures
        ({
            let t = s.next(FormEvent::Page(Some(p)), cancelled);
            let told = !p.logged_in && !p.has_verification && p.error_message@.len() > 0
                && p.has_login_form;
            let count = if s.error == p.error_message@ {
                s.repeats + 1
            } else {
                1
            };
            &&& t.phase == (SixCloudPhase::Returning { fresh: true }) <==> p.logged_in
            &&& t.phase == SixCloudPhase::Done(
                SixCloudEnd::Failed(SixCloudFailure::VerificationAfter),
            ) <==> !p.logged_in && p.has_verification
            &&& told ==> t.error == p.error_message@ && t.repeats == count
            &&& !told ==> t.error == s.error && t.repeats == s.repeats
            &&& t.phase == SixCloudPhase::Done(SixCloudEnd::Failed(SixCloudFailure::Reported))
                <==> told && count == 3
            &&& t.phase == SixCloudPhase::Done(SixCloudEnd::Failed(SixCloudFailure::NotLoggedIn))
                ==> s.phase->Awaiting_step + 1 == 160
        }),
{
}

/// A login is over where the page that it was started from shows an account again; it is a
/// new one exactly where the account showed after the form was sent.
pub proof fn sixcloud_ends_where_it_began(
    s: SixCloudModel,
    event: FormEvent<SixCloudLoginState>,
    cancelled: bool,
)
    requires
        s.well_formed(),
        form_event_fits(sixcloud_pending(s.phase), event),
    ensures
        ({
            let t = s.next(event, cancelled);
            let shown = event matches FormEvent::Page(Some(p)) && p.ready && p.logged_in;
            &&& t.phase == SixCloudPhase::Done(SixCloudEnd::LoggedIn) <==> s.phase is AwaitingTarget
                && s.phase->AwaitingTarget_fresh && shown
            &&& s.phase is AwaitingTarget && shown ==> t.phase == SixCloudPhase::Done(
                if s.phase->AwaitingTarget_fresh {
                    SixCloudEnd::LoggedIn
                } else {
                    SixCloudEnd::AlreadyLoggedIn
                },
            )
            &&& s.phase is AwaitingTarget && !shown && s.phase->AwaitingTarget_step < 159
                && !cancelled ==> t.phase == (SixCloudPhase::AwaitingTarget {
                fresh: s.phase->AwaitingTarget_fresh,
                step: (s.phase->AwaitingTarget_step + 1) as u32,
            })
            &&& t.phase == SixCloudPhase::Done(SixCloudEnd::Failed(SixCloudFailure::ReturnTimeout))
                ==> s.phase is AwaitingTarget && s.phase->AwaitingTarget_step == 159 && !shown
        }),
{
}

/// The text for what is missing names the very thing that is missing.
pub proof fn sixcloud_text_names_what_is_missing(detail: Seq<char>, error: Seq<char>)
    ensures
        contains_text(sixcloud_failure_text(SixCloudFailure::UsernameMissing, detail, error), "邮箱"@),
        contains_text(sixcloud_failure_text(SixCloudFailure::PasswordMissing, detail, error), "密码"@),
        contains_text(sixcloud_failure_text(SixCloudFailure::ButtonMissing, detail, error), "登录按钮"@),
        contains_text(sixcloud_failure_text(SixCloudFailure::FormMissing, detail, error), "登录表单"@),
        contains_text(sixcloud_failure_text(SixCloudFailure::ReturnTimeout, detail, error), "超时"@),
{
    reveal_strlit("未找到六六云邮箱输入框");
    reveal_strlit("邮箱");
    assert("未找到六六云邮箱输入框"@.subrange(6, 8) =~= "邮箱"@);
    assert(occurs_at("未找到六六云邮箱输入框"@, "邮箱"@, 6));
    reveal_strlit("未找到六六云密码输入框");
    reveal_strlit("密码");
    assert("未找到六六云密码输入框"@.subrange(6, 8) =~= "密码"@);
    assert(occurs_at("未找到六六云密码输入框"@, "密码"@, 6));
    reveal_strlit("未找到六六云登录按钮");
    reveal_strlit("登录按钮");
    assert("未找到六六云登录按钮"@.subrange(6, 10) =~= "登录按钮"@);
    assert(occurs_at("未找到六六云登录按钮"@, "登录按钮"@, 6));
    reveal_strlit("六六云登录页已打开，但未找到登录表单");
    reveal_strlit("登录表单");
    assert("六六云登录页已打开，但未找到登录表单"@.subrange(14, 18) =~= "登录表单"@);
    assert(occurs_at("六六云登录页已打开，但未找到登录表单"@, "登录表单"@, 14));
    reveal_strlit("六六云登录成功，但返回产品详情页超时");
    reveal_strlit("超时");
    assert("六六云登录成功，但返回产品详情页超时"@.subrange(16, 18) =~= "超时"@);
    assert(occurs_at("六六云登录成功，但返回产品详情页超时"@, "超时"@, 16));
}

} // verus!
