//! The login of the PTing forum: its own login page, two-factor step and error
//! messages.

use crate::login::common::{form_event_fits, FormAction, FormEvent, FormField};
use crate::text::{contains_text, occurs_at, str_eq};
use vstd::prelude::*;

verus! {

/// What a page of the forum shows.
#[derive(Debug)]
pub struct PtingLoginState {
    pub ready: bool,
    pub path: String,
    pub logged_in: bool,
    pub has_login_form: bool,
    pub has_otp: bool,
    pub has_verification: bool,
    pub error_message: String,
}

/// Why a login ended without success.
#[derive(Debug, Clone, Copy, PartialEq, Eq, Structural)]
pub enum PtingFailure {
    TabMissing,
    Cancelled,
    /// A step outside the flow failed with a text of its own.
    Outside,
    Unreadable,
    FormNotLoaded,
    VerificationBefore,
    UsernameMissing,
    PasswordMissing,
    ButtonMissing,
    SecretMissing,
    OtpFailed,
    VerificationAfter,
    /// The site reported the same error again and again.
    Reported,
    NotLoggedIn,
}

/// How a login ended.
#[derive(Debug, Clone, Copy, PartialEq, Eq, Structural)]
pub enum PtingEnd {
    LoggedIn,
    AlreadyLoggedIn,
    Failed(PtingFailure),
}

/// What is done after a page was waited for.
#[derive(Debug, Clone, Copy, PartialEq, Eq, Structural)]
pub enum PtingVerdict {
    Unreadable,
    AlreadyLoggedIn,
    OnLoginPage,
    Elsewhere,
    NoForm,
    Verification,
    FillIn,
}

/// Where a login stands.
#[derive(Debug, Clone, Copy, PartialEq, Eq, Structural)]
pub enum PtingPhase {
    /// A page is waited for; `surface` asks for something to log in with, and `last`
    /// is what the last readable page calls for.
    Looking { surface: bool, step: u32, last: PtingVerdict },
    LookingPause { surface: bool, step: u32, last: PtingVerdict },
    Opening,
    TypingUsername,
    TypingPassword,
    Clicking,
    Awaiting { step: u32, otp_done: bool },
    MakingCode { step: u32 },
    SubmittingOtp { step: u32 },
    Done(PtingEnd),
}

/// A login of the forum in progress.
#[derive(Debug)]
pub struct PtingLogin {
    /// Whether a secret for one-time codes is configured.
    pub has_secret: bool,
    pub phase: PtingPhase,
    /// The error that the site reported last.
    pub error: String,
    /// How often in a row it was reported.
    pub repeats: u32,
}

/// The state of a login.
pub struct PtingModel {
    pub has_secret: bool,
    pub phase: PtingPhase,
    pub error: Seq<char>,
    pub repeats: u32,
}

/// The result of a login is looked for at most this many times.
pub const PTING_RESULT_STEPS: u32 = 160;

/// An error counts once it was reported this many times in a row.
pub const PTING_ERROR_REPEATS: u32 = 3;

/// How often a page is looked at.
pub open spec fn pting_look_steps(surface: bool) -> u32 {
    if surface {
        160
    } else {
        120
    }
}

fn look_steps(surface: bool) -> (r: u32)
    ensures
        r == pting_look_steps(surface),
{
    if surface {
        160
    } else {
        120
    }
}

/// Whether a page is loaded far enough to decide.
pub open spec fn pting_settled(surface: bool, p: PtingLoginState) -> bool {
    p.ready && (!surface || p.logged_in || p.has_login_form || p.has_verification
        || p.error_message@.len() > 0)
}

/// What a page calls for.
pub open spec fn pting_verdict(surface: bool, p: PtingLoginState) -> PtingVerdict {
    if p.logged_in {
        PtingVerdict::AlreadyLoggedIn
    } else if surface {
        if !p.has_login_form {
            PtingVerdict::NoForm
        } else if p.has_verification {
            PtingVerdict::Verification
        } else {
            PtingVerdict::FillIn
        }
    } else if p.path@ == "/login"@ {
        PtingVerdict::OnLoginPage
    } else {
        PtingVerdict::Elsewhere
    }
}

fn settled(surface: bool, p: &PtingLoginState) -> (r: bool)
    ensures
        r == pting_settled(surface, *p),
{
    p.ready && (!surface || p.logged_in || p.has_login_form || p.has_verification
        || !p.error_message.as_str().is_empty())
}

fn verdict_on(surface: bool, p: &PtingLoginState) -> (r: PtingVerdict)
    ensures
        r == pting_verdict(surface, *p),
{
    if p.logged_in {
        PtingVerdict::AlreadyLoggedIn
    } else if surface {
        if !p.has_login_form {
            PtingVerdict::NoForm
        } else if p.has_verification {
            PtingVerdict::Verification
        } else {
            PtingVerdict::FillIn
        }
    } else if str_eq(p.path.as_str(), "/login") {
        PtingVerdict::OnLoginPage
    } else {
        PtingVerdict::Elsewhere
    }
}

pub open spec fn pting_failed(f: PtingFailure) -> PtingPhase {
    PtingPhase::Done(PtingEnd::Failed(f))
}

/// `phase`, unless the user asked to stop.
pub open spec fn pting_unless(cancelled: bool, phase: PtingPhase) -> PtingPhase {
    if cancelled {
        pting_failed(PtingFailure::Cancelled)
    } else {
        phase
    }
}

/// The phase in which the login page is waited for.
pub open spec fn pting_second_look() -> PtingPhase {
    PtingPhase::Looking { surface: true, step: 0, last: PtingVerdict::Unreadable }
}

/// The phase that carries out a verdict.
pub open spec fn pting_enacted(v: PtingVerdict, cancelled: bool) -> PtingPhase {
    match v {
        PtingVerdict::Unreadable => pting_failed(PtingFailure::Unreadable),
        PtingVerdict::AlreadyLoggedIn => PtingPhase::Done(PtingEnd::AlreadyLoggedIn),
        PtingVerdict::OnLoginPage => pting_unless(cancelled, pting_second_look()),
        PtingVerdict::Elsewhere => PtingPhase::Opening,
        PtingVerdict::NoForm => pting_failed(PtingFailure::FormNotLoaded),
        PtingVerdict::Verification => pting_failed(PtingFailure::VerificationBefore),
        PtingVerdict::FillIn => PtingPhase::TypingUsername,
    }
}

fn failed(f: PtingFailure) -> (r: PtingPhase)
    ensures
        r == pting_failed(f),
{
    PtingPhase::Done(PtingEnd::Failed(f))
}

fn unless(cancelled: bool, phase: PtingPhase) -> (r: PtingPhase)
    ensures
        r == pting_unless(cancelled, phase),
{
    if cancelled {
        failed(PtingFailure::Cancelled)
    } else {
        phase
    }
}

fn second_look() -> (r: PtingPhase)
    ensures
        r == pting_second_look(),
{
    PtingPhase::Looking { surface: true, step: 0, last: PtingVerdict::Unreadable }
}

fn enact(v: PtingVerdict, cancelled: bool) -> (r: PtingPhase)
    ensures
        r == pting_enacted(v, cancelled),
{
    match v {
        PtingVerdict::Unreadable => failed(PtingFailure::Unreadable),
        PtingVerdict::AlreadyLoggedIn => PtingPhase::Done(PtingEnd::AlreadyLoggedIn),
        PtingVerdict::OnLoginPage => unless(cancelled, second_look()),
        PtingVerdict::Elsewhere => PtingPhase::Opening,
        PtingVerdict::NoForm => failed(PtingFailure::FormNotLoaded),
        PtingVerdict::Verification => failed(PtingFailure::VerificationBefore),
        PtingVerdict::FillIn => PtingPhase::TypingUsername,
    }
}

/// The phase of the next look at the page after the login.
pub open spec fn pting_next_look(step: u32, otp_done: bool, cancelled: bool) -> PtingPhase {
    if step + 1 < PTING_RESULT_STEPS {
        pting_unless(cancelled, PtingPhase::Awaiting { step: (step + 1) as u32, otp_done })
    } else {
        pting_failed(PtingFailure::NotLoggedIn)
    }
}

fn next_look(step: u32, otp_done: bool, cancelled: bool) -> (r: PtingPhase)
    requires
        step < PTING_RESULT_STEPS,
    ensures
        r == pting_next_look(step, otp_done, cancelled),
{
    if step + 1 < PTING_RESULT_STEPS {
        unless(cancelled, PtingPhase::Awaiting { step: step + 1, otp_done })
    } else {
        failed(PtingFailure::NotLoggedIn)
    }
}

/// What has to be done in a phase.
pub open spec fn pting_pending(phase: PtingPhase) -> FormAction {
    match phase {
        PtingPhase::Looking { .. } => FormAction::ReadPage { after_millis: 0 },
        PtingPhase::LookingPause { .. } => FormAction::Sleep { millis: 250 },
        PtingPhase::Opening => FormAction::OpenLogin,
        PtingPhase::TypingUsername => FormAction::Type {
            field: FormField::Username,
            pause_min: 550,
            pause_max: 1250,
            key_min: 45,
            key_max: 115,
        },
        PtingPhase::TypingPassword => FormAction::Type {
            field: FormField::Password,
            pause_min: 450,
            pause_max: 1050,
            key_min: 55,
            key_max: 135,
        },
        PtingPhase::Clicking => FormAction::Click { pause_min: 700, pause_max: 1550 },
        PtingPhase::Awaiting { .. } => FormAction::ReadPage { after_millis: 250 },
        PtingPhase::MakingCode { .. } => FormAction::MakeCode,
        PtingPhase::SubmittingOtp { .. } => FormAction::SubmitOtp { pause_min: 0, pause_max: 0 },
        PtingPhase::Done(_) => FormAction::Finish,
    }
}

impl PtingModel {
    pub open spec fn at(self, phase: PtingPhase) -> PtingModel {
        PtingModel { phase, ..self }
    }

    /// The state before anything was done.
    pub open spec fn initial(has_secret: bool, cancelled: bool) -> PtingModel {
        PtingModel {
            has_secret,
            phase: pting_unless(
                cancelled,
                PtingPhase::Looking { surface: false, step: 0, last: PtingVerdict::Unreadable },
            ),
            error: Seq::empty(),
            repeats: 0,
        }
    }

    /// The counters stay within the limits of their loops, and a remembered verdict
    /// is one that the pages looked at can lead to.
    pub open spec fn well_formed(self) -> bool {
        &&& self.repeats < PTING_ERROR_REPEATS || self.phase is Done
        &&& pting_verdicts_fit(self.phase)
        &&& match self.phase {
            PtingPhase::Looking { surface, step, .. } => step < pting_look_steps(surface),
            PtingPhase::LookingPause { surface, step, last } => step < pting_look_steps(surface),
            PtingPhase::Awaiting { step, .. } => step < PTING_RESULT_STEPS,
            PtingPhase::MakingCode { step } => step < PTING_RESULT_STEPS,
            PtingPhase::SubmittingOtp { step } => step < PTING_RESULT_STEPS,
            _ => true,
        }
    }

    /// The state after the site reported an error.
    pub open spec fn reported(
        self,
        message: Seq<char>,
        step: u32,
        otp_done: bool,
        cancelled: bool,
    ) -> PtingModel {
        let s = PtingModel {
            error: message,
            repeats: if self.error == message {
                (self.repeats + 1) as u32
            } else {
                1
            },
            ..self
        };
        if s.repeats >= PTING_ERROR_REPEATS {
            s.at(pting_failed(PtingFailure::Reported))
        } else {
            s.at(pting_next_look(step, otp_done, cancelled))
        }
    }

    /// What a page shows after the login.
    pub open spec fn result_seen(
        self,
        step: u32,
        otp_done: bool,
        page: Option<PtingLoginState>,
        cancelled: bool,
    ) -> PtingModel {
        match page {
            None => self.at(pting_next_look(step, otp_done, cancelled)),
            Some(p) => if p.logged_in {
                self.at(PtingPhase::Done(PtingEnd::LoggedIn))
            } else if p.has_otp && !otp_done {
                if self.has_secret {
                    self.at(PtingPhase::MakingCode { step })
                } else {
                    self.at(pting_failed(PtingFailure::SecretMissing))
                }
            } else if p.has_verification {
                self.at(pting_failed(PtingFailure::VerificationAfter))
            } else if p.error_message@.len() > 0 && p.has_login_form {
                self.reported(p.error_message@, step, otp_done, cancelled)
            } else {
                self.at(pting_next_look(step, otp_done, cancelled))
            },
        }
    }

    /// The state after an event; `cancelled` tells whether the user has asked to
    /// stop by now. An event that the pending action cannot cause changes nothing.
    pub open spec fn next(self, event: FormEvent<PtingLoginState>, cancelled: bool) -> PtingModel {
        match (self.phase, event) {
            (PtingPhase::Looking { surface, step, last }, FormEvent::Page(page)) => match page {
                Some(p) => if pting_settled(surface, p) {
                    self.at(pting_enacted(pting_verdict(surface, p), cancelled))
                } else {
                    self.at(
                        PtingPhase::LookingPause {
                            surface,
                            step,
                            last: pting_verdict(surface, p),
                        },
                    )
                },
                None => self.at(PtingPhase::LookingPause { surface, step, last }),
            },
            (PtingPhase::LookingPause { surface, step, last }, FormEvent::Slept) => if step + 1
                < pting_look_steps(surface) {
                self.at(
                    pting_unless(
                        cancelled,
                        PtingPhase::Looking { surface, step: (step + 1) as u32, last },
                    ),
                )
            } else {
                self.at(pting_enacted(last, cancelled))
            },
            (PtingPhase::Opening, FormEvent::Outside(ok)) => if ok {
                self.at(pting_unless(cancelled, pting_second_look()))
            } else {
                self.at(pting_failed(PtingFailure::Outside))
            },
            (PtingPhase::TypingUsername, FormEvent::Acted(ok)) => if ok {
                self.at(PtingPhase::TypingPassword)
            } else {
                self.at(pting_failed(PtingFailure::UsernameMissing))
            },
            (PtingPhase::TypingPassword, FormEvent::Acted(ok)) => if ok {
                self.at(PtingPhase::Clicking)
            } else {
                self.at(pting_failed(PtingFailure::PasswordMissing))
            },
            (PtingPhase::Clicking, FormEvent::Acted(ok)) => if ok {
                self.at(
                    pting_unless(cancelled, PtingPhase::Awaiting { step: 0, otp_done: false }),
                )
            } else {
                self.at(pting_failed(PtingFailure::ButtonMissing))
            },
            (PtingPhase::Awaiting { step, otp_done }, FormEvent::Page(page)) => self.result_seen(
                step,
                otp_done,
                page,
                cancelled,
            ),
            (PtingPhase::MakingCode { step }, FormEvent::Outside(ok)) => if ok {
                self.at(PtingPhase::SubmittingOtp { step })
            } else {
                self.at(pting_failed(PtingFailure::Outside))
            },
            (PtingPhase::SubmittingOtp { step }, FormEvent::Acted(ok)) => if ok {
                PtingModel { repeats: 0, ..self }.at(pting_next_look(step, true, cancelled))
            } else {
                self.at(pting_failed(PtingFailure::OtpFailed))
            },
            _ => self,
        }
    }

    /// An upper bound on the number of actions until the login ends.
    pub open spec fn steps_left(self) -> int {
        match self.phase {
            PtingPhase::Looking { surface, step, .. } => (if surface {
                600int
            } else {
                1000
            }) + 2 * (pting_look_steps(surface) - step),
            PtingPhase::LookingPause { surface, step, .. } => (if surface {
                599int
            } else {
                999
            }) + 2 * (pting_look_steps(surface) - step),
            PtingPhase::Opening => 950,
            PtingPhase::TypingUsername => 503,
            PtingPhase::TypingPassword => 502,
            PtingPhase::Clicking => 501,
            PtingPhase::Awaiting { step, .. } => 3 * (PTING_RESULT_STEPS - step),
            PtingPhase::MakingCode { step } => 3 * (PTING_RESULT_STEPS - step) - 1,
            PtingPhase::SubmittingOtp { step } => 3 * (PTING_RESULT_STEPS - step) - 2,
            PtingPhase::Done(_) => 0,
        }
    }
}

impl View for PtingLogin {
    type V = PtingModel;

    open spec fn view(&self) -> PtingModel {
        PtingModel {
            has_secret: self.has_secret,
            phase: self.phase,
            error: self.error@,
            repeats: self.repeats,
        }
    }
}

impl PtingLogin {
    /// A login that has not begun yet.
    pub fn begin(has_secret: bool, cancelled: bool) -> (r: PtingLogin)
        ensures
            r@ == PtingModel::initial(has_secret, cancelled),
            r@.well_formed(),
    {
        let error: String = String::new();
        assert(error@ =~= Seq::empty());
        PtingLogin {
            has_secret,
            phase: unless(
                cancelled,
                PtingPhase::Looking { surface: false, step: 0, last: PtingVerdict::Unreadable },
            ),
            error,
            repeats: 0,
        }
    }

    /// What has to be done in this state.
    pub fn action(&self) -> (r: FormAction)
        ensures
            r == pting_pending(self.phase),
    {
        match self.phase {
            PtingPhase::Looking { .. } => FormAction::ReadPage { after_millis: 0 },
            PtingPhase::LookingPause { .. } => FormAction::Sleep { millis: 250 },
            PtingPhase::Opening => FormAction::OpenLogin,
            PtingPhase::TypingUsername => FormAction::Type {
                field: FormField::Username,
                pause_min: 550,
                pause_max: 1250,
                key_min: 45,
                key_max: 115,
            },
            PtingPhase::TypingPassword => FormAction::Type {
                field: FormField::Password,
                pause_min: 450,
                pause_max: 1050,
                key_min: 55,
                key_max: 135,
            },
            PtingPhase::Clicking => FormAction::Click { pause_min: 700, pause_max: 1550 },
            PtingPhase::Awaiting { .. } => FormAction::ReadPage { after_millis: 250 },
            PtingPhase::MakingCode { .. } => FormAction::MakeCode,
            PtingPhase::SubmittingOtp { .. } => FormAction::SubmitOtp {
                pause_min: 0,
                pause_max: 0,
            },
            PtingPhase::Done(_) => FormAction::Finish,
        }
    }

    fn see_error(&mut self, message: &str, step: u32, otp_done: bool, cancelled: bool)
        requires
            old(self).repeats < PTING_ERROR_REPEATS,
            step < PTING_RESULT_STEPS,
        ensures
            final(self)@ == old(self)@.reported(message@, step, otp_done, cancelled),
    {
        if str_eq(self.error.as_str(), message) {
            self.repeats = self.repeats + 1;
        } else {
            self.error = message.to_string();
            self.repeats = 1;
        }
        if self.repeats >= PTING_ERROR_REPEATS {
            self.phase = failed(PtingFailure::Reported);
        } else {
            self.phase = next_look(step, otp_done, cancelled);
        }
    }

    fn see_result(
        &mut self,
        step: u32,
        otp_done: bool,
        page: &Option<PtingLoginState>,
        cancelled: bool,
    )
        requires
            old(self).repeats < PTING_ERROR_REPEATS,
            step < PTING_RESULT_STEPS,
        ensures
            final(self)@ == old(self)@.result_seen(step, otp_done, *page, cancelled),
    {
        match page {
            None => {
                self.phase = next_look(step, otp_done, cancelled);
            },
            Some(p) => {
                if p.logged_in {
                    self.phase = PtingPhase::Done(PtingEnd::LoggedIn);
                } else if p.has_otp && !otp_done {
                    if self.has_secret {
                        self.phase = PtingPhase::MakingCode { step };
                    } else {
                        self.phase = failed(PtingFailure::SecretMissing);
                    }
                } else if p.has_verification {
                    self.phase = failed(PtingFailure::VerificationAfter);
                } else if !p.error_message.as_str().is_empty() && p.has_login_form {
                    self.see_error(p.error_message.as_str(), step, otp_done, cancelled);
                } else {
                    self.phase = next_look(step, otp_done, cancelled);
                }
            },
        }
    }

    /// Takes in what came of the pending action.
    pub fn advance(&mut self, event: &FormEvent<PtingLoginState>, cancelled: bool)
        requires
            old(self)@.well_formed(),
        ensures
            final(self)@ == old(self)@.next(*event, cancelled),
            final(self)@.well_formed(),
    {
        match (self.phase, event) {
            (PtingPhase::Looking { surface, step, last }, FormEvent::Page(page)) => match page {
                Some(p) => {
                    if settled(surface, p) {
                        self.phase = enact(verdict_on(surface, p), cancelled);
                    } else {
                        self.phase = PtingPhase::LookingPause {
                            surface,
                            step,
                            last: verdict_on(surface, p),
                        };
                    }
                },
                None => {
                    self.phase = PtingPhase::LookingPause { surface, step, last };
                },
            },
            (PtingPhase::LookingPause { surface, step, last }, FormEvent::Slept) => {
                if step + 1 < look_steps(surface) {
                    self.phase = unless(
                        cancelled,
                        PtingPhase::Looking { surface, step: step + 1, last },
                    );
                } else {
                    self.phase = enact(last, cancelled);
                }
            },
            (PtingPhase::Opening, FormEvent::Outside(ok)) => {
                if *ok {
                    self.phase = unless(cancelled, second_look());
                } else {
                    self.phase = failed(PtingFailure::Outside);
                }
            },
            (PtingPhase::TypingUsername, FormEvent::Acted(ok)) => {
                if *ok {
                    self.phase = PtingPhase::TypingPassword;
                } else {
                    self.phase = failed(PtingFailure::UsernameMissing);
                }
            },
            (PtingPhase::TypingPassword, FormEvent::Acted(ok)) => {
                if *ok {
                    self.phase = PtingPhase::Clicking;
                } else {
                    self.phase = failed(PtingFailure::PasswordMissing);
                }
            },
            (PtingPhase::Clicking, FormEvent::Acted(ok)) => {
                if *ok {
                    self.phase = unless(
                        cancelled,
                        PtingPhase::Awaiting { step: 0, otp_done: false },
                    );
                } else {
                    self.phase = failed(PtingFailure::ButtonMissing);
                }
            },
            (PtingPhase::Awaiting { step, otp_done }, FormEvent::Page(page)) => {
                self.see_result(step, otp_done, page, cancelled);
            },
            (PtingPhase::MakingCode { step }, FormEvent::Outside(ok)) => {
                if *ok {
                    self.phase = PtingPhase::SubmittingOtp { step };
                } else {
                    self.phase = failed(PtingFailure::Outside);
                }
            },
            (PtingPhase::SubmittingOtp { step }, FormEvent::Acted(ok)) => {
                if *ok {
                    self.repeats = 0;
                    self.phase = next_look(step, true, cancelled);
                } else {
                    self.phase = failed(PtingFailure::OtpFailed);
                }
            },
            _ => {},
        }
    }
}

/// Every answered action brings a login closer to its end.
#[verifier::rlimit(40)]
#[verifier::spinoff_prover]
pub proof fn pting_login_ends(s: PtingModel, event: FormEvent<PtingLoginState>, cancelled: bool)
    requires
        s.well_formed(),
        form_event_fits(pting_pending(s.phase), event),
    ensures
        s.next(event, cancelled).well_formed(),
        0 <= s.next(event, cancelled).steps_left() < s.steps_left(),
{
}

/// Whether the verdict that a phase remembers is one that its pages can lead to.
pub open spec fn pting_verdicts_fit(phase: PtingPhase) -> bool {
    match phase {
        PtingPhase::Looking { surface, last, .. } => pting_verdict_fits(surface, last),
        PtingPhase::LookingPause { surface, step, last } => pting_verdict_fits(surface, last),
        _ => true,
    }
}

/// Whether pages that are looked at with or without `surface` lead to a verdict.
pub open spec fn pting_verdict_fits(surface: bool, v: PtingVerdict) -> bool {
    match v {
        PtingVerdict::Unreadable | PtingVerdict::AlreadyLoggedIn => true,
        PtingVerdict::OnLoginPage | PtingVerdict::Elsewhere => !surface,
        PtingVerdict::NoForm | PtingVerdict::Verification | PtingVerdict::FillIn => surface,
    }
}

/// Credentials are only typed into a login form without a verification.
pub proof fn pting_types_only_unguarded(
    s: PtingModel,
    event: FormEvent<PtingLoginState>,
    cancelled: bool,
)
    requires
        s.phase is Looking,
        s.next(event, cancelled).phase is TypingUsername,
    ensures
        event matches FormEvent::Page(Some(p)) && p.has_login_form && !p.has_verification,
{
}

/// After the user asked to stop, no further round of waiting begins.
pub proof fn pting_cancel_stops_rounds(s: PtingModel, event: FormEvent<PtingLoginState>)
    requires
        form_event_fits(pting_pending(s.phase), event),
    ensures
        !(s.next(event, true).phase is Looking || s.next(event, true).phase is Awaiting),
{
}

/// The text for a failure; `detail` is the text of a step outside the flow, and
/// `error` the error that the site reported.
pub open spec fn pting_failure_text(
    f: PtingFailure,
    detail: Seq<char>,
    error: Seq<char>,
) -> Seq<char> {
    match f {
        PtingFailure::TabMissing => "无法连接 PTing 标签页"@,
        PtingFailure::Cancelled => "CDP 操作已终止"@,
        PtingFailure::Outside => detail,
        PtingFailure::Unreadable => "无法读取 PTing 页面状态"@,
        PtingFailure::FormNotLoaded => "PTing 登录页已打开，但登录表单未加载完成"@,
        PtingFailure::VerificationBefore =>
            "PTing 登录页要求验证码或工作量证明，需要先在专用 Chrome 中人工完成验证"@,
        PtingFailure::UsernameMissing => "未找到 PTing 邮箱、用户名或手机号输入框"@,
        PtingFailure::PasswordMissing => "未找到 PTing 密码输入框"@,
        PtingFailure::ButtonMissing => "未找到 PTing 登录按钮"@,
        PtingFailure::SecretMissing => "PTing 要求 2FA，但站点未配置 2FA 密钥"@,
        PtingFailure::OtpFailed => "检测到 PTing 2FA，但未能填写或提交验证码"@,
        PtingFailure::VerificationAfter =>
            "PTing 登录要求验证码或工作量证明，需要先在专用 Chrome 中人工完成验证"@,
        PtingFailure::Reported => "PTing 登录失败："@ + error,
        PtingFailure::NotLoggedIn =>
            "PTing 登录后未检测到用户状态，请检查账号、密码、2FA 或验证要求"@,
    }
}

/// The text for a failure; `detail` is the text of a step outside the flow, and
/// `error` the error that the site reported.
pub fn pting_failure_message(f: PtingFailure, detail: &str, error: &str) -> (r: String)
    ensures
        r@ == pting_failure_text(f, detail@, error@),
{
    match f {
        PtingFailure::TabMissing => "无法连接 PTing 标签页".to_string(),
        PtingFailure::Cancelled => "CDP 操作已终止".to_string(),
        PtingFailure::Outside => detail.to_string(),
        PtingFailure::Unreadable => "无法读取 PTing 页面状态".to_string(),
        PtingFailure::FormNotLoaded =>
            "PTing 登录页已打开，但登录表单未加载完成".to_string(),
        PtingFailure::VerificationBefore =>
            "PTing 登录页要求验证码或工作量证明，需要先在专用 Chrome 中人工完成验证".to_string(),
        PtingFailure::UsernameMissing =>
            "未找到 PTing 邮箱、用户名或手机号输入框".to_string(),
        PtingFailure::PasswordMissing => "未找到 PTing 密码输入框".to_string(),
        PtingFailure::ButtonMissing => "未找到 PTing 登录按钮".to_string(),
        PtingFailure::SecretMissing => "PTing 要求 2FA，但站点未配置 2FA 密钥".to_string(),
        PtingFailure::OtpFailed => "检测到 PTing 2FA，但未能填写或提交验证码".to_string(),
        PtingFailure::VerificationAfter =>
            "PTing 登录要求验证码或工作量证明，需要先在专用 Chrome 中人工完成验证".to_string(),
        PtingFailure::Reported => "PTing 登录失败：".to_string().concat(error),
        PtingFailure::NotLoggedIn =>
            "PTing 登录后未检测到用户状态，请检查账号、密码、2FA 或验证要求".to_string(),
    }
}

// ---------------------------------------------------------------- what a login does

/// A login fails over a field, a button or a code exactly where that very one was not there.
pub proof fn pting_missing_control_is_the_one_used(
    s: PtingModel,
    event: FormEvent<PtingLoginState>,
    cancelled: bool,
)
    requires
        !(s.phase is Done),
    ensures
        ({
            let end = s.next(event, cancelled).phase;
            let doing = pting_pending(s.phase);
            let missed = event == FormEvent::<PtingLoginState>::Acted(false);
            let typing = doing is Type && missed;
            &&& end == PtingPhase::Done(PtingEnd::Failed(PtingFailure::UsernameMissing)) <==> typing
                && doing->field == FormField::Username
            &&& end == PtingPhase::Done(PtingEnd::Failed(PtingFailure::PasswordMissing)) <==> typing
                && doing->field == FormField::Password
            &&& end == PtingPhase::Done(PtingEnd::Failed(PtingFailure::ButtonMissing))
                <==> doing is Click && missed
            &&& end == PtingPhase::Done(PtingEnd::Failed(PtingFailure::OtpFailed))
                <==> doing is SubmitOtp && missed
            &&& end == PtingPhase::Done(PtingEnd::Failed(PtingFailure::Outside)) <==> (
            doing is MakeCode || doing is OpenLogin) && event
                == FormEvent::<PtingLoginState>::Outside(false)
            &&& doing is Type && event == FormEvent::<PtingLoginState>::Acted(true) ==> !(
            end is Done)
        }),
{
}

/// The form is filled in and sent in order: the user name, the password, the button; the
/// result is looked at after the button was clicked, and after a code was submitted.
pub proof fn pting_fills_in_order(
    s: PtingModel,
    event: FormEvent<PtingLoginState>,
    cancelled: bool,
)
    requires
        s.well_formed(),
        form_event_fits(pting_pending(s.phase), event),
    ensures
        ({
            let t = s.next(event, cancelled);
            let done = event == FormEvent::<PtingLoginState>::Acted(true);
            &&& t.phase is TypingPassword <==> s.phase is TypingUsername && done
            &&& t.phase is Clicking <==> s.phase is TypingPassword && done
            &&& s.phase is Clicking && done && !cancelled ==> t.phase == (PtingPhase::Awaiting {
                step: 0,
                otp_done: false,
            })
            &&& t.phase is Awaiting ==> !cancelled && (s.phase is Clicking && done
                || s.phase is SubmittingOtp && done && t.phase->Awaiting_otp_done
                && t.phase->Awaiting_step == s.phase->SubmittingOtp_step + 1 || s.phase is Awaiting
                && t.phase->Awaiting_otp_done == s.phase->Awaiting_otp_done
                && t.phase->Awaiting_step == s.phase->Awaiting_step + 1)
            &&& t.phase is SubmittingOtp <==> s.phase is MakingCode && event
                == FormEvent::<PtingLoginState>::Outside(true)
            &&& t.phase is SubmittingOtp ==> t.phase->SubmittingOtp_step
                == s.phase->MakingCode_step
            &&& t.phase == PtingPhase::Done(PtingEnd::Failed(PtingFailure::Cancelled)) ==> cancelled
            &&& t.has_secret == s.has_secret
        }),
{
}

/// The first loaded page decides: an account there means that the login was done before, the
/// login page is looked at for its form, and from any other page the login page is opened.
pub proof fn pting_goes_to_the_login_page(
    s: PtingModel,
    p: PtingLoginState,
    cancelled: bool,
)
    requires
        s.well_formed(),
        s.phase is Looking,
        !s.phase->Looking_surface,
    ensures
        ({
            let t = s.next(FormEvent::Page(Some(p)), cancelled);
            &&& p.ready && p.logged_in ==> t.phase == PtingPhase::Done(PtingEnd::AlreadyLoggedIn)
            &&& p.ready && !p.logged_in && p.path@ != "/login"@ ==> pting_pending(t.phase)
                == FormAction::OpenLogin
            &&& p.ready && !p.logged_in && p.path@ == "/login"@ && !cancelled
                ==> t.phase is Looking && t.phase->Looking_surface && t.phase->Looking_step == 0
            &&& !p.ready ==> t.phase is LookingPause && t.phase->LookingPause_step
                == s.phase->Looking_step && !t.phase->LookingPause_surface
        }),
{
}

/// On the login page the form is filled in exactly where it shows without an account and
/// without a verification.
pub proof fn pting_fills_in_an_open_form(
    s: PtingModel,
    p: PtingLoginState,
    cancelled: bool,
)
    requires
        s.well_formed(),
        s.phase is Looking,
        s.phase->Looking_surface,
        p.ready,
    ensures
        ({
            let t = s.next(FormEvent::Page(Some(p)), cancelled);
            &&& t.phase is TypingUsername <==> p.has_login_form && !p.has_verification
                && !p.logged_in
            &&& t.phase == PtingPhase::Done(PtingEnd::AlreadyLoggedIn) <==> p.logged_in
            &&& t.phase == PtingPhase::Done(PtingEnd::Failed(PtingFailure::VerificationBefore))
                <==> !p.logged_in && p.has_login_form && p.has_verification
            &&& t.phase == PtingPhase::Done(PtingEnd::Failed(PtingFailure::FormNotLoaded))
                <==> !p.logged_in && !p.has_login_form && (p.has_verification
                || p.error_message@.len() > 0)
            &&& t.phase is LookingPause <==> !p.logged_in && !p.has_login_form
                && !p.has_verification && p.error_message@.len() == 0
        }),
{
}

/// What was seen last is remembered through the pauses, a page that cannot be read changes
/// nothing of it, and it decides once the time is up.
pub proof fn pting_decides_by_the_last_page(
    s: PtingModel,
    event: FormEvent<PtingLoginState>,
    cancelled: bool,
)
    requires
        s.well_formed(),
        form_event_fits(pting_pending(s.phase), event),
    ensures
        ({
            let t = s.next(event, cancelled);
            &&& s.phase is Looking && event == FormEvent::<PtingLoginState>::Page(None) ==> t.phase
                == (PtingPhase::LookingPause {
                surface: s.phase->Looking_surface,
                step: s.phase->Looking_step,
                last: s.phase->Looking_last,
            })
            &&& s.phase matches PtingPhase::LookingPause { surface, step, last } ==> {
                let over = step + 1 == (if surface {
                    160int
                } else {
                    120
                });
                &&& !over && !cancelled ==> t.phase == (PtingPhase::Looking {
                    surface,
                    step: (step + 1) as u32,
                    last,
                })
                &&& over && last == PtingVerdict::Unreadable ==> t.phase == PtingPhase::Done(
                    PtingEnd::Failed(PtingFailure::Unreadable),
                )
                &&& over && last == PtingVerdict::AlreadyLoggedIn ==> t.phase == PtingPhase::Done(
                    PtingEnd::AlreadyLoggedIn,
                )
                &&& over && last == PtingVerdict::Elsewhere ==> t.phase == PtingPhase::Opening
                &&& over && last == PtingVerdict::NoForm ==> t.phase == PtingPhase::Done(
                    PtingEnd::Failed(PtingFailure::FormNotLoaded),
                )
                &&& over && last == PtingVerdict::Verification ==> t.phase == PtingPhase::Done(
                    PtingEnd::Failed(PtingFailure::VerificationBefore),
                )
                &&& over && last == PtingVerdict::FillIn ==> t.phase == PtingPhase::TypingUsername
            }
            &&& (s.phase is Opening && event == FormEvent::<PtingLoginState>::Outside(true)
                && !cancelled) ==> t.phase is Looking && t.phase->Looking_surface
                && t.phase->Looking_step == 0
        }),
{
}

/// After the form was sent, an account ends the login with success before anything else; a
/// code is made where one is asked for and a secret is at hand; a verification fails the
/// login; an error that is reported with the form still there counts, and fails the login
/// when it is reported three times in a row.
pub proof fn pting_reads_the_result(s: PtingModel, p: PtingLoginState, cancelled: bool)
    requires
        s.well_formed(),
        s.phase is Awaiting,
    ensures
        ({
            let t = s.next(FormEvent::Page(Some(p)), cancelled);
            let asked = !p.logged_in && p.has_otp && !s.phase->Awaiting_otp_done;
            let told = !p.logged_in && !asked && !p.has_verification && p.error_message@.len() > 0
                && p.has_login_form;
            let count = if s.error == p.error_message@ {
                s.repeats + 1
            } else {
                1
            };
            &&& t.phase == PtingPhase::Done(PtingEnd::LoggedIn) <==> p.logged_in
            &&& t.phase is MakingCode <==> asked && s.has_secret
            &&& t.phase is MakingCode ==> t.phase->MakingCode_step == s.phase->Awaiting_step
            &&& t.phase == PtingPhase::Done(PtingEnd::Failed(PtingFailure::SecretMissing)) <==> asked
                && !s.has_secret
            &&& t.phase == PtingPhase::Done(PtingEnd::Failed(PtingFailure::VerificationAfter))
                <==> !p.logged_in && !asked && p.has_verification
            &&& told ==> t.error == p.error_message@ && t.repeats == count
            &&& !told ==> t.error == s.error && t.repeats == s.repeats
            &&& t.phase == PtingPhase::Done(PtingEnd::Failed(PtingFailure::Reported)) <==> told
                && count == 3
            &&& t.phase == PtingPhase::Done(PtingEnd::Failed(PtingFailure::NotLoggedIn))
                ==> s.phase->Awaiting_step + 1 == 160
        }),
{
}

/// The text for what is missing names the very thing that is missing.
pub proof fn pting_text_names_what_is_missing(detail: Seq<char>, error: Seq<char>)
    ensures
        contains_text(pting_failure_text(PtingFailure::UsernameMissing, detail, error), "用户名"@),
        contains_text(pting_failure_text(PtingFailure::PasswordMissing, detail, error), "密码"@),
        contains_text(pting_failure_text(PtingFailure::ButtonMissing, detail, error), "登录按钮"@),
        contains_text(pting_failure_text(PtingFailure::SecretMissing, detail, error), "2FA 密钥"@),
        contains_text(pting_failure_text(PtingFailure::OtpFailed, detail, error), "提交验证码"@),
        contains_text(pting_failure_text(PtingFailure::FormNotLoaded, detail, error), "登录表单"@),
{
    reveal_strlit("未找到 PTing 邮箱、用户名或手机号输入框");
    reveal_strlit("用户名");
    assert("未找到 PTing 邮箱、用户名或手机号输入框"@.subrange(13, 16) =~= "用户名"@);
    assert(occurs_at("未找到 PTing 邮箱、用户名或手机号输入框"@, "用户名"@, 13));
    reveal_strlit("未找到 PTing 密码输入框");
    reveal_strlit("密码");
    assert("未找到 PTing 密码输入框"@.subrange(10, 12) =~= "密码"@);
    assert(occurs_at("未找到 PTing 密码输入框"@, "密码"@, 10));
    reveal_strlit("未找到 PTing 登录按钮");
    reveal_strlit("登录按钮");
    assert("未找到 PTing 登录按钮"@.subrange(10, 14) =~= "登录按钮"@);
    assert(occurs_at("未找到 PTing 登录按钮"@, "登录按钮"@, 10));
    reveal_strlit("PTing 要求 2FA，但站点未配置 2FA 密钥");
    reveal_strlit("2FA 密钥");
    assert("PTing 要求 2FA，但站点未配置 2FA 密钥"@.subrange(20, 26) =~= "2FA 密钥"@);
    assert(occurs_at("PTing 要求 2FA，但站点未配置 2FA 密钥"@, "2FA 密钥"@, 20));
    reveal_strlit("检测到 PTing 2FA，但未能填写或提交验证码");
    reveal_strlit("提交验证码");
    assert("检测到 PTing 2FA，但未能填写或提交验证码"@.subrange(20, 25) =~= "提交验证码"@);
    assert(occurs_at("检测到 PTing 2FA，但未能填写或提交验证码"@, "提交验证码"@, 20));
    reveal_strlit("PTing 登录页已打开，但登录表单未加载完成");
    reveal_strlit("登录表单");
    assert("PTing 登录页已打开，但登录表单未加载完成"@.subrange(14, 18) =~= "登录表单"@);
    assert(occurs_at("PTing 登录页已打开，但登录表单未加载完成"@, "登录表单"@, 14));
}

} // verus!
