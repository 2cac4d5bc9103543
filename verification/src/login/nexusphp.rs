//! The login of a NexusPHP site as a state machine: which page to wait for, what
//! to type, when to retry with a new captcha image, and when to give up so that
//! no login attempt is wasted.

use crate::login::common::{ChallengeProbe, NexusLoginPageState};
use crate::number::{decimal, decimal_of};
use crate::text::{contains_text, has_prefix, has_suffix, sum_contains_its_parts};
use vstd::prelude::*;

verus! {

/// The input fields of the login form.
#[derive(Debug, Clone, Copy, PartialEq, Eq, Structural)]
pub enum NexusField {
    Username,
    Password,
    Code,
    Captcha,
}

/// Why a login ended without success.
#[derive(Debug, Clone, Copy, PartialEq, Eq, Structural)]
pub enum NexusFailure {
    /// The tab has no debugging channel.
    TabMissing,
    /// The user asked to stop.
    Cancelled,
    /// A step outside this machine failed with a text of its own.
    Outside,
    /// The site never let the browser through to its login form.
    ChallengeTimeout,
    /// Too few attempts are left to risk one.
    AtThreshold { left: u32 },
    UsernameMissing,
    PasswordMissing,
    CodeMissing,
    FormUnreadable,
    CaptchaMissing,
    /// The form is filled in, but a captcha has to be typed by hand.
    CaptchaByHand { remaining: Option<u32> },
    VerificationTimeout,
    ButtonMissing,
    /// The captcha was refused at the last attempt.
    CaptchaRejected { total: u8 },
    UnexpectedPage,
    StillOnLogin,
    /// No attempt was allowed at all.
    NoAttempt { total: u8 },
}

/// How a login ended.
#[derive(Debug, Clone, Copy, PartialEq, Eq, Structural)]
pub enum NexusEnd {
    LoggedIn,
    AlreadyLoggedIn,
    Failed(NexusFailure),
}

/// Where a login stands.
#[derive(Debug, Clone, Copy, PartialEq, Eq, Structural)]
pub enum NexusPhase {
    /// A new captcha image is being asked for.
    Retrying,
    RetryPause,
    Connecting,
    /// The login form is looked for; `stable` pages in a row showed an account.
    FindForm { step: u32, stable: u32 },
    FindFormPause { step: u32, stable: u32 },
    TypingUsername { two_factor: bool },
    TypingPassword { two_factor: bool },
    MakingCode,
    TypingCode,
    ReadingForm,
    ReadingCaptcha,
    TypingCaptcha,
    /// The human verification is watched; `solved` samples in a row were fine.
    Probing { step: u32, solved: u32, told: bool },
    ProbePause { step: u32, solved: u32, told: bool, announce: bool },
    Submitting,
    ClickingPreferred,
    ClickingAny,
    ReadingResult { step: u32 },
    ReadingFinal,
    Done(NexusEnd),
}

/// What has to be done next.
#[derive(Debug, Clone, Copy, PartialEq, Eq, Structural)]
pub enum NexusAction {
    /// Ask for a new captcha image before attempt `attempt` of `total`.
    RequestNewCaptcha { attempt: u32, total: u8 },
    /// Wait; `announce` asks to tell the user of the human verification.
    Sleep { millis: u64, announce: bool },
    Connect,
    /// Read the page state after a pause.
    ReadPage { after_millis: u64 },
    /// Type into a field after a pause, with a delay between the keys.
    Type { field: NexusField, pause_min: u64, pause_max: u64, key_min: u64, key_max: u64 },
    /// Compute the one-time code.
    MakeCode,
    /// Take the captcha image and have it recognised.
    ReadCaptcha,
    /// Look at the human verification.
    Probe,
    /// Submit the form after a pause.
    Submit { pause_min: u64, pause_max: u64 },
    ClickPreferred,
    ClickAny,
    Finish(NexusEnd),
}

/// What came of an action.
#[derive(Debug)]
pub enum NexusEvent {
    /// A step outside this machine succeeded or failed.
    Outside(bool),
    Slept,
    Page(Option<NexusLoginPageState>),
    /// Typing, submitting or clicking found its element or not.
    Acted(bool),
    Probe(Option<ChallengeProbe>),
}

/// A login of a NexusPHP site in progress.
#[derive(Debug, Clone, Copy, PartialEq, Eq, Structural)]
pub struct NexusLogin {
    /// Attempts must stay above this number.
    pub min_remaining: u32,
    /// How often a captcha may be tried by recognition; `None` without it.
    pub ocr_attempts: Option<u8>,
    /// Whether a secret for one-time codes is configured.
    pub has_secret: bool,
    /// The number of failed attempts so far.
    pub attempt: u8,
    /// The number of attempts left that a page reported last.
    pub remaining: Option<u32>,
    pub phase: NexusPhase,
}

/// The page is waited for at most this many times.
pub const FORM_STEPS: u32 = 240;

/// An account must show this many times in a row.
pub const STABLE_PAGES: u32 = 3;

/// The human verification is looked at at most this many times.
pub const PROBE_STEPS: u32 = 120;

/// A solved verification must show this many times in a row.
pub const SOLVED_SAMPLES: u32 = 2;

/// The result of a submission is looked for at most this many times.
pub const RESULT_STEPS: u32 = 40;

impl NexusLogin {
    /// The number of attempts that may be made.
    pub open spec fn total(self) -> u8 {
        match self.ocr_attempts {
            Some(n) => n,
            None => 1,
        }
    }

    pub open spec fn at(self, phase: NexusPhase) -> NexusLogin {
        NexusLogin { phase, ..self }
    }

    pub open spec fn fail(self, f: NexusFailure) -> NexusLogin {
        self.at(NexusPhase::Done(NexusEnd::Failed(f)))
    }

    /// The state `self.at(phase)`, unless the user asked to stop.
    pub open spec fn at_unless(self, cancelled: bool, phase: NexusPhase) -> NexusLogin {
        if cancelled {
            self.fail(NexusFailure::Cancelled)
        } else {
            self.at(phase)
        }
    }

    /// The state at the start of attempt number `attempt`.
    pub open spec fn attempt_started(self, attempt: u8, cancelled: bool) -> NexusLogin {
        let s = NexusLogin { attempt, ..self };
        s.at_unless(
            cancelled,
            if attempt == 0 {
                NexusPhase::Connecting
            } else {
                NexusPhase::Retrying
            },
        )
    }

    /// The state before anything was done.
    pub open spec fn initial(
        min_remaining: u32,
        ocr_attempts: Option<u8>,
        has_secret: bool,
        cancelled: bool,
    ) -> NexusLogin {
        let s = NexusLogin {
            min_remaining,
            ocr_attempts,
            has_secret,
            attempt: 0,
            remaining: None,
            phase: NexusPhase::Connecting,
        };
        if s.total() == 0 {
            s.fail(NexusFailure::NoAttempt { total: 0 })
        } else {
            s.attempt_started(0, cancelled)
        }
    }

    /// The state with the number of attempts left that `page` reports.
    pub open spec fn noting(self, page: Option<NexusLoginPageState>) -> NexusLogin {
        match page {
            Some(p) => match p.remaining_attempts {
                Some(n) => NexusLogin { remaining: Some(n), ..self },
                None => self,
            },
            None => self,
        }
    }

    /// What a page shows while the login form is looked for.
    pub open spec fn form_seen(
        self,
        step: u32,
        stable: u32,
        page: Option<NexusLoginPageState>,
    ) -> NexusLogin {
        match page {
            None => self.at(NexusPhase::FindFormPause { step, stable }),
            Some(p) => if p.has_login_form {
                match p.remaining_attempts {
                    Some(n) if n <= self.min_remaining => self.fail(
                        NexusFailure::AtThreshold { left: n },
                    ),
                    _ => self.at(NexusPhase::TypingUsername { two_factor: p.has_two_factor }),
                }
            } else if p.ready && !p.challenge && p.logged_in {
                if stable + 1 >= STABLE_PAGES {
                    self.at(NexusPhase::Done(NexusEnd::AlreadyLoggedIn))
                } else {
                    self.at(NexusPhase::FindFormPause { step, stable: (stable + 1) as u32 })
                }
            } else {
                self.at(NexusPhase::FindFormPause { step, stable: 0 })
            },
        }
    }

    /// What the filled-in form shows.
    pub open spec fn form_filled(
        self,
        page: Option<NexusLoginPageState>,
        cancelled: bool,
    ) -> NexusLogin {
        match page {
            None => self.fail(NexusFailure::FormUnreadable),
            Some(p) => if !p.has_captcha {
                self.at_unless(cancelled, NexusPhase::Probing { step: 0, solved: 0, told: false })
            } else if self.ocr_attempts is Some {
                self.at(NexusPhase::ReadingCaptcha)
            } else {
                self.fail(NexusFailure::CaptchaByHand { remaining: p.remaining_attempts })
            },
        }
    }

    /// What a look at the human verification shows.
    pub open spec fn probed(
        self,
        step: u32,
        solved: u32,
        told: bool,
        probe: Option<ChallengeProbe>,
    ) -> NexusLogin {
        match probe {
            None => self.at(NexusPhase::ProbePause { step, solved, told, announce: false }),
            Some(p) => {
                let count: u32 = if p.solved {
                    (solved + 1) as u32
                } else {
                    0
                };
                if !p.has_challenge || count >= SOLVED_SAMPLES {
                    self.at(NexusPhase::Submitting)
                } else {
                    self.at(
                        NexusPhase::ProbePause { step, solved: count, told: true, announce: !told },
                    )
                }
            },
        }
    }

    /// What a page shows after the submission.
    pub open spec fn result_seen(
        self,
        step: u32,
        page: Option<NexusLoginPageState>,
        cancelled: bool,
    ) -> NexusLogin {
        let settled = page matches Some(p) && p.ready && !p.challenge;
        if settled && page->0.logged_in {
            self.at(NexusPhase::Done(NexusEnd::LoggedIn))
        } else if settled && page->0.is_failure_page {
            if self.attempt + 1 >= self.total() {
                self.fail(NexusFailure::CaptchaRejected { total: self.total() })
            } else {
                self.attempt_started((self.attempt + 1) as u8, cancelled)
            }
        } else if step + 1 < RESULT_STEPS {
            self.at_unless(cancelled, NexusPhase::ReadingResult { step: (step + 1) as u32 })
        } else {
            self.at(NexusPhase::ReadingFinal)
        }
    }

    /// The state after an event; `cancelled` tells whether the user has asked to
    /// stop by now. An event that the pending action cannot cause changes nothing.
    pub open spec fn next(self, event: NexusEvent, cancelled: bool) -> NexusLogin {
        match (self.phase, event) {
            (NexusPhase::Retrying, NexusEvent::Outside(ok)) => if ok {
                self.at(NexusPhase::RetryPause)
            } else {
                self.fail(NexusFailure::Outside)
            },
            (NexusPhase::RetryPause, NexusEvent::Slept) => self.at(NexusPhase::Connecting),
            (NexusPhase::Connecting, NexusEvent::Outside(ok)) => if ok {
                self.at_unless(cancelled, NexusPhase::FindForm { step: 0, stable: 0 })
            } else {
                self.fail(NexusFailure::Outside)
            },
            (NexusPhase::FindForm { step, stable }, NexusEvent::Page(page)) => self.noting(
                page,
            ).form_seen(step, stable, page),
            (NexusPhase::FindFormPause { step, stable }, NexusEvent::Slept) => if step + 1
                < FORM_STEPS {
                self.at_unless(
                    cancelled,
                    NexusPhase::FindForm { step: (step + 1) as u32, stable },
                )
            } else {
                self.fail(NexusFailure::ChallengeTimeout)
            },
            (NexusPhase::TypingUsername { two_factor }, NexusEvent::Acted(ok)) => if ok {
                self.at(NexusPhase::TypingPassword { two_factor })
            } else {
                self.fail(NexusFailure::UsernameMissing)
            },
            (NexusPhase::TypingPassword { two_factor }, NexusEvent::Acted(ok)) => if !ok {
                self.fail(NexusFailure::PasswordMissing)
            } else if self.has_secret && two_factor {
                self.at(NexusPhase::MakingCode)
            } else {
                self.at(NexusPhase::ReadingForm)
            },
            (NexusPhase::MakingCode, NexusEvent::Outside(ok)) => if ok {
                self.at(NexusPhase::TypingCode)
            } else {
                self.fail(NexusFailure::Outside)
            },
            (NexusPhase::TypingCode, NexusEvent::Acted(ok)) => if ok {
                self.at(NexusPhase::ReadingForm)
            } else {
                self.fail(NexusFailure::CodeMissing)
            },
            (NexusPhase::ReadingForm, NexusEvent::Page(page)) => self.noting(page).form_filled(
                page,
                cancelled,
            ),
            (NexusPhase::ReadingCaptcha, NexusEvent::Outside(ok)) => if ok {
                self.at(NexusPhase::TypingCaptcha)
            } else {
                self.fail(NexusFailure::Outside)
            },
            (NexusPhase::TypingCaptcha, NexusEvent::Acted(ok)) => if ok {
                self.at_unless(cancelled, NexusPhase::Probing { step: 0, solved: 0, told: false })
            } else {
                self.fail(NexusFailure::CaptchaMissing)
            },
            (NexusPhase::Probing { step, solved, told }, NexusEvent::Probe(probe)) => self.probed(
                step,
                solved,
                told,
                probe,
            ),
            (NexusPhase::ProbePause { step, solved, told, announce }, NexusEvent::Slept) => if step
                + 1 < PROBE_STEPS {
                self.at_unless(
                    cancelled,
                    NexusPhase::Probing { step: (step + 1) as u32, solved, told },
                )
            } else {
                self.fail(NexusFailure::VerificationTimeout)
            },
            (NexusPhase::Submitting, NexusEvent::Acted(ok)) => if ok {
                self.at_unless(cancelled, NexusPhase::ReadingResult { step: 0 })
            } else {
                self.at(NexusPhase::ClickingPreferred)
            },
            (NexusPhase::ClickingPreferred, NexusEvent::Acted(ok)) => if ok {
                self.at_unless(cancelled, NexusPhase::ReadingResult { step: 0 })
            } else {
                self.at(NexusPhase::ClickingAny)
            },
            (NexusPhase::ClickingAny, NexusEvent::Acted(ok)) => if ok {
                self.at_unless(cancelled, NexusPhase::ReadingResult { step: 0 })
            } else {
                self.fail(NexusFailure::ButtonMissing)
            },
            (NexusPhase::ReadingResult { step }, NexusEvent::Page(page)) => self.noting(
                page,
            ).result_seen(step, page, cancelled),
            (NexusPhase::ReadingFinal, NexusEvent::Page(page)) => self.noting(page).fail(
                if page matches Some(p) && !p.has_login_form && !p.logged_in {
                    NexusFailure::UnexpectedPage
                } else {
                    NexusFailure::StillOnLogin
                },
            ),
            _ => self,
        }
    }

    /// The counters stay within the limits of their loops.
    pub open spec fn well_formed(self) -> bool {
        &&& self.attempt < self.total() || self.phase is Done
        &&& match self.phase {
            NexusPhase::FindForm { step, stable } | NexusPhase::FindFormPause { step, stable } =>
                step < FORM_STEPS && stable < STABLE_PAGES,
            NexusPhase::Probing { step, solved, .. } => step < PROBE_STEPS && solved
                < SOLVED_SAMPLES,
            NexusPhase::ProbePause { step, solved, .. } => step < PROBE_STEPS && solved
                < SOLVED_SAMPLES,
            NexusPhase::ReadingResult { step } => step < RESULT_STEPS,
            _ => true,
        }
    }

    /// What has to be done in this state.
    pub open spec fn pending(self) -> NexusAction {
        match self.phase {
            NexusPhase::Retrying => NexusAction::RequestNewCaptcha {
                attempt: (self.attempt + 1) as u32,
                total: self.total(),
            },
            NexusPhase::RetryPause => NexusAction::Sleep { millis: 1500, announce: false },
            NexusPhase::Connecting => NexusAction::Connect,
            NexusPhase::FindForm { .. } => NexusAction::ReadPage { after_millis: 0 },
            NexusPhase::FindFormPause { .. } => NexusAction::Sleep { millis: 500, announce: false },
            NexusPhase::TypingUsername { .. } => NexusAction::Type {
                field: NexusField::Username,
                pause_min: 650,
                pause_max: 1350,
                key_min: 45,
                key_max: 120,
            },
            NexusPhase::TypingPassword { .. } => NexusAction::Type {
                field: NexusField::Password,
                pause_min: 500,
                pause_max: 1150,
                key_min: 55,
                key_max: 140,
            },
            NexusPhase::MakingCode => NexusAction::MakeCode,
            NexusPhase::TypingCode => NexusAction::Type {
                field: NexusField::Code,
                pause_min: 450,
                pause_max: 950,
                key_min: 70,
                key_max: 145,
            },
            NexusPhase::ReadingForm => NexusAction::ReadPage { after_millis: 0 },
            NexusPhase::ReadingCaptcha => NexusAction::ReadCaptcha,
            NexusPhase::TypingCaptcha => NexusAction::Type {
                field: NexusField::Captcha,
                pause_min: 500,
                pause_max: 1000,
                key_min: 70,
                key_max: 145,
            },
            NexusPhase::Probing { .. } => NexusAction::Probe,
            NexusPhase::ProbePause { announce, .. } => NexusAction::Sleep { millis: 500, announce },
            NexusPhase::Submitting => if self.ocr_attempts is Some {
                NexusAction::Submit { pause_min: 1200, pause_max: 2500 }
            } else {
                NexusAction::Submit { pause_min: 750, pause_max: 1550 }
            },
            NexusPhase::ClickingPreferred => NexusAction::ClickPreferred,
            NexusPhase::ClickingAny => NexusAction::ClickAny,
            NexusPhase::ReadingResult { .. } => NexusAction::ReadPage { after_millis: 250 },
            NexusPhase::ReadingFinal => NexusAction::ReadPage { after_millis: 0 },
            NexusPhase::Done(end) => NexusAction::Finish(end),
        }
    }

    fn max_attempts(&self) -> (r: u8)
        ensures
            r == self.total(),
    {
        match self.ocr_attempts {
            Some(n) => n,
            None => 1,
        }
    }

    fn set(&mut self, phase: NexusPhase)
        ensures
            *final(self) == old(self).at(phase),
    {
        self.phase = phase;
    }

    fn set_failed(&mut self, f: NexusFailure)
        ensures
            *final(self) == old(self).fail(f),
    {
        self.phase = NexusPhase::Done(NexusEnd::Failed(f));
    }

    fn set_unless(&mut self, cancelled: bool, phase: NexusPhase)
        ensures
            *final(self) == old(self).at_unless(cancelled, phase),
    {
        if cancelled {
            self.set_failed(NexusFailure::Cancelled);
        } else {
            self.set(phase);
        }
    }

    fn start_attempt(&mut self, attempt: u8, cancelled: bool)
        ensures
            *final(self) == old(self).attempt_started(attempt, cancelled),
    {
        self.attempt = attempt;
        self.set_unless(
            cancelled,
            if attempt == 0 {
                NexusPhase::Connecting
            } else {
                NexusPhase::Retrying
            },
        );
    }

    fn note(&mut self, page: &Option<NexusLoginPageState>)
        ensures
            *final(self) == old(self).noting(*page),
    {
        if let Some(p) = page {
            if let Some(n) = p.remaining_attempts {
                self.remaining = Some(n);
            }
        }
    }

    /// A login that has not begun yet.
    pub fn begin(
        min_remaining: u32,
        ocr_attempts: Option<u8>,
        has_secret: bool,
        cancelled: bool,
    ) -> (r: NexusLogin)
        ensures
            r == NexusLogin::initial(min_remaining, ocr_attempts, has_secret, cancelled),
            r.well_formed(),
    {
        let mut s: NexusLogin = NexusLogin {
            min_remaining,
            ocr_attempts,
            has_secret,
            attempt: 0,
            remaining: None,
            phase: NexusPhase::Connecting,
        };
        if s.max_attempts() == 0 {
            s.set_failed(NexusFailure::NoAttempt { total: 0 });
        } else {
            s.start_attempt(0, cancelled);
        }
        s
    }

    /// What has to be done in this state.
    pub fn action(&self) -> (r: NexusAction)
        requires
            self.well_formed(),
        ensures
            r == self.pending(),
    {
        match self.phase {
            NexusPhase::Retrying => NexusAction::RequestNewCaptcha {
                attempt: self.attempt as u32 + 1,
                total: self.max_attempts(),
            },
            NexusPhase::RetryPause => NexusAction::Sleep { millis: 1500, announce: false },
            NexusPhase::Connecting => NexusAction::Connect,
            NexusPhase::FindForm { .. } => NexusAction::ReadPage { after_millis: 0 },
            NexusPhase::FindFormPause { .. } => NexusAction::Sleep { millis: 500, announce: false },
            NexusPhase::TypingUsername { .. } => NexusAction::Type {
                field: NexusField::Username,
                pause_min: 650,
                pause_max: 1350,
                key_min: 45,
                key_max: 120,
            },
            NexusPhase::TypingPassword { .. } => NexusAction::Type {
                field: NexusField::Password,
                pause_min: 500,
                pause_max: 1150,
                key_min: 55,
                key_max: 140,
            },
            NexusPhase::MakingCode => NexusAction::MakeCode,
            NexusPhase::TypingCode => NexusAction::Type {
                field: NexusField::Code,
                pause_min: 450,
                pause_max: 950,
                key_min: 70,
                key_max: 145,
            },
            NexusPhase::ReadingForm => NexusAction::ReadPage { after_millis: 0 },
            NexusPhase::ReadingCaptcha => NexusAction::ReadCaptcha,
            NexusPhase::TypingCaptcha => NexusAction::Type {
                field: NexusField::Captcha,
                pause_min: 500,
                pause_max: 1000,
                key_min: 70,
                key_max: 145,
            },
            NexusPhase::Probing { .. } => NexusAction::Probe,
            NexusPhase::ProbePause { announce, .. } => NexusAction::Sleep { millis: 500, announce },
            NexusPhase::Submitting => if self.ocr_attempts.is_some() {
                NexusAction::Submit { pause_min: 1200, pause_max: 2500 }
            } else {
                NexusAction::Submit { pause_min: 750, pause_max: 1550 }
            },
            NexusPhase::ClickingPreferred => NexusAction::ClickPreferred,
            NexusPhase::ClickingAny => NexusAction::ClickAny,
            NexusPhase::ReadingResult { .. } => NexusAction::ReadPage { after_millis: 250 },
            NexusPhase::ReadingFinal => NexusAction::ReadPage { after_millis: 0 },
            NexusPhase::Done(end) => NexusAction::Finish(end),
        }
    }

    fn see_form(&mut self, step: u32, stable: u32, page: &Option<NexusLoginPageState>)
        requires
            stable < STABLE_PAGES,
        ensures
            *final(self) == old(self).form_seen(step, stable, *page),
    {
        match page {
            None => self.set(NexusPhase::FindFormPause { step, stable }),
            Some(p) => {
                if p.has_login_form {
                    let at_threshold: Option<u32> = match p.remaining_attempts {
                        Some(n) => if n <= self.min_remaining {
                            Some(n)
                        } else {
                            None
                        },
                        None => None,
                    };
                    match at_threshold {
                        Some(n) => self.set_failed(NexusFailure::AtThreshold { left: n }),
                        None => self.set(
                            NexusPhase::TypingUsername { two_factor: p.has_two_factor },
                        ),
                    }
                } else if p.ready && !p.challenge && p.logged_in {
                    if stable + 1 >= STABLE_PAGES {
                        self.set(NexusPhase::Done(NexusEnd::AlreadyLoggedIn));
                    } else {
                        self.set(NexusPhase::FindFormPause { step, stable: stable + 1 });
                    }
                } else {
                    self.set(NexusPhase::FindFormPause { step, stable: 0 });
                }
            },
        }
    }

    fn see_filled_form(&mut self, page: &Option<NexusLoginPageState>, cancelled: bool)
        ensures
            *final(self) == old(self).form_filled(*page, cancelled),
    {
        match page {
            None => self.set_failed(NexusFailure::FormUnreadable),
            Some(p) => {
                if !p.has_captcha {
                    self.set_unless(
                        cancelled,
                        NexusPhase::Probing { step: 0, solved: 0, told: false },
                    );
                } else if self.ocr_attempts.is_some() {
                    self.set(NexusPhase::ReadingCaptcha);
                } else {
                    self.set_failed(
                        NexusFailure::CaptchaByHand { remaining: p.remaining_attempts },
                    );
                }
            },
        }
    }

    fn see_probe(&mut self, step: u32, solved: u32, told: bool, probe: &Option<ChallengeProbe>)
        requires
            solved < SOLVED_SAMPLES,
        ensures
            *final(self) == old(self).probed(step, solved, told, *probe),
    {
        match probe {
            None => self.set(NexusPhase::ProbePause { step, solved, told, announce: false }),
            Some(p) => {
                let count: u32 = if p.solved {
                    solved + 1
                } else {
                    0
                };
                if !p.has_challenge || count >= SOLVED_SAMPLES {
                    self.set(NexusPhase::Submitting);
                } else {
                    self.set(
                        NexusPhase::ProbePause { step, solved: count, told: true, announce: !told },
                    );
                }
            },
        }
    }

    fn see_result(&mut self, step: u32, page: &Option<NexusLoginPageState>, cancelled: bool)
        requires
            step < RESULT_STEPS,
        ensures
            *final(self) == old(self).result_seen(step, *page, cancelled),
    {
        let (accepted, refused): (bool, bool) = match page {
            Some(p) => {
                let settled: bool = p.ready && !p.challenge;
                (settled && p.logged_in, settled && !p.logged_in && p.is_failure_page)
            },
            None => (false, false),
        };
        if accepted {
            self.set(NexusPhase::Done(NexusEnd::LoggedIn));
        } else if refused {
            if self.attempt as u32 + 1 >= self.max_attempts() as u32 {
                let total: u8 = self.max_attempts();
                self.set_failed(NexusFailure::CaptchaRejected { total });
            } else {
                self.start_attempt(self.attempt + 1, cancelled);
            }
        } else if step + 1 < RESULT_STEPS {
            self.set_unless(cancelled, NexusPhase::ReadingResult { step: step + 1 });
        } else {
            self.set(NexusPhase::ReadingFinal);
        }
    }

    /// Takes in what came of the pending action.
    pub fn advance(&mut self, event: &NexusEvent, cancelled: bool)
        requires
            old(self).well_formed(),
        ensures
            *final(self) == old(self).next(*event, cancelled),
            final(self).well_formed(),
    {
        match (self.phase, event) {
            (NexusPhase::Retrying, NexusEvent::Outside(ok)) => {
                if *ok {
                    self.set(NexusPhase::RetryPause);
                } else {
                    self.set_failed(NexusFailure::Outside);
                }
            },
            (NexusPhase::RetryPause, NexusEvent::Slept) => self.set(NexusPhase::Connecting),
            (NexusPhase::Connecting, NexusEvent::Outside(ok)) => {
                if *ok {
                    self.set_unless(cancelled, NexusPhase::FindForm { step: 0, stable: 0 });
                } else {
                    self.set_failed(NexusFailure::Outside);
                }
            },
            (NexusPhase::FindForm { step, stable }, NexusEvent::Page(page)) => {
                self.note(page);
                self.see_form(step, stable, page);
            },
            (NexusPhase::FindFormPause { step, stable }, NexusEvent::Slept) => {
                if step + 1 < FORM_STEPS {
                    self.set_unless(cancelled, NexusPhase::FindForm { step: step + 1, stable });
                } else {
                    self.set_failed(NexusFailure::ChallengeTimeout);
                }
            },
            (NexusPhase::TypingUsername { two_factor }, NexusEvent::Acted(ok)) => {
                if *ok {
                    self.set(NexusPhase::TypingPassword { two_factor });
                } else {
                    self.set_failed(NexusFailure::UsernameMissing);
                }
            },
            (NexusPhase::TypingPassword { two_factor }, NexusEvent::Acted(ok)) => {
                if !*ok {
                    self.set_failed(NexusFailure::PasswordMissing);
                } else if self.has_secret && two_factor {
                    self.set(NexusPhase::MakingCode);
                } else {
                    self.set(NexusPhase::ReadingForm);
                }
            },
            (NexusPhase::MakingCode, NexusEvent::Outside(ok)) => {
                if *ok {
                    self.set(NexusPhase::TypingCode);
                } else {
                    self.set_failed(NexusFailure::Outside);
                }
            },
            (NexusPhase::TypingCode, NexusEvent::Acted(ok)) => {
                if *ok {
                    self.set(NexusPhase::ReadingForm);
                } else {
                    self.set_failed(NexusFailure::CodeMissing);
                }
            },
            (NexusPhase::ReadingForm, NexusEvent::Page(page)) => {
                self.note(page);
                self.see_filled_form(page, cancelled);
            },
            (NexusPhase::ReadingCaptcha, NexusEvent::Outside(ok)) => {
                if *ok {
                    self.set(NexusPhase::TypingCaptcha);
                } else {
                    self.set_failed(NexusFailure::Outside);
                }
            },
            (NexusPhase::TypingCaptcha, NexusEvent::Acted(ok)) => {
                if *ok {
                    self.set_unless(
                        cancelled,
                        NexusPhase::Probing { step: 0, solved: 0, told: false },
                    );
                } else {
                    self.set_failed(NexusFailure::CaptchaMissing);
                }
            },
            (NexusPhase::Probing { step, solved, told }, NexusEvent::Probe(probe)) => {
                self.see_probe(step, solved, told, probe);
            },
            (NexusPhase::ProbePause { step, solved, told, .. }, NexusEvent::Slept) => {
                if step + 1 < PROBE_STEPS {
                    self.set_unless(
                        cancelled,
                        NexusPhase::Probing { step: step + 1, solved, told },
                    );
                } else {
                    self.set_failed(NexusFailure::VerificationTimeout);
                }
            },
            (NexusPhase::Submitting, NexusEvent::Acted(ok)) => {
                if *ok {
                    self.set_unless(cancelled, NexusPhase::ReadingResult { step: 0 });
                } else {
                    self.set(NexusPhase::ClickingPreferred);
                }
            },
            (NexusPhase::ClickingPreferred, NexusEvent::Acted(ok)) => {
                if *ok {
                    self.set_unless(cancelled, NexusPhase::ReadingResult { step: 0 });
                } else {
                    self.set(NexusPhase::ClickingAny);
                }
            },
            (NexusPhase::ClickingAny, NexusEvent::Acted(ok)) => {
                if *ok {
                    self.set_unless(cancelled, NexusPhase::ReadingResult { step: 0 });
                } else {
                    self.set_failed(NexusFailure::ButtonMissing);
                }
            },
            (NexusPhase::ReadingResult { step }, NexusEvent::Page(page)) => {
                self.note(page);
                self.see_result(step, page, cancelled);
            },
            (NexusPhase::ReadingFinal, NexusEvent::Page(page)) => {
                self.note(page);
                let moved: bool = match page {
                    Some(p) => !p.has_login_form && !p.logged_in,
                    None => false,
                };
                if moved {
                    self.set_failed(NexusFailure::UnexpectedPage);
                } else {
                    self.set_failed(NexusFailure::StillOnLogin);
                }
            },
            _ => {},
        }
    }
}

/// The text for a failure; `detail` is the text of a step outside this machine.
pub open spec fn nexus_failure_text(
    f: NexusFailure,
    site: Seq<char>,
    min_remaining: u32,
    detail: Seq<char>,
) -> Seq<char> {
    match f {
        NexusFailure::TabMissing => "无法连接 "@ + site + " 标签页"@,
        NexusFailure::Cancelled => "CDP 操作已终止"@,
        NexusFailure::Outside => detail,
        NexusFailure::ChallengeTimeout => "等待 "@ + site + " Cloudflare 验证放行超时（120 秒）"@,
        NexusFailure::AtThreshold { left } => site + " 当前仅剩 "@ + decimal(left as nat)
            + " 次登录机会，已达到安全阈值 "@ + decimal(min_remaining as nat)
            + "，停止自动登录与重试"@,
        NexusFailure::UsernameMissing => "未找到 "@ + site + " 用户名输入框"@,
        NexusFailure::PasswordMissing => "未找到 "@ + site + " 密码输入框"@,
        NexusFailure::CodeMissing => "未找到 "@ + site + " 两步验证码输入框"@,
        NexusFailure::FormUnreadable => "无法读取 "@ + site + " 登录表单状态"@,
        NexusFailure::CaptchaMissing => "未找到 "@ + site + " 图片验证码输入框"@,
        NexusFailure::CaptchaByHand { remaining } => site + " 登录信息已填写"@ + (
        match remaining {
            Some(n) => "，当前剩余 "@ + decimal(n as nat) + " 次尝试"@,
            None => Seq::empty(),
        }) + "，请人工输入图片验证码并点击登录"@,
        NexusFailure::VerificationTimeout => "等待 "@ + site + " 人机验证通过超时"@,
        NexusFailure::ButtonMissing => "未找到 "@ + site + " 登录按钮"@,
        NexusFailure::CaptchaRejected { total } => site
            + " 自动登录失败：图片验证码错误，已达到最大重试次数 "@ + decimal(total as nat) + " 次"@,
        NexusFailure::UnexpectedPage => site
            + " 自动登录失败：跳转到了非预期页面（可能是用户名或密码错误）"@,
        NexusFailure::StillOnLogin => site + " 登录后仍停留在登录页，请检查凭据"@,
        NexusFailure::NoAttempt { total } => site + " 自动登录失败：已尝试 "@ + decimal(
            total as nat,
        ) + " 次均未成功"@,
    }
}

/// The text for a failure; `detail` is the text of a step outside this machine.
pub fn nexus_failure_message(
    f: NexusFailure,
    site: &str,
    min_remaining: u32,
    detail: &str,
) -> (r: String)
    ensures
        r@ == nexus_failure_text(f, site@, min_remaining, detail@),
{
    match f {
        NexusFailure::TabMissing => "无法连接 ".to_string().concat(site).concat(" 标签页"),
        NexusFailure::Cancelled => "CDP 操作已终止".to_string(),
        NexusFailure::Outside => detail.to_string(),
        NexusFailure::ChallengeTimeout => "等待 ".to_string().concat(site).concat(
            " Cloudflare 验证放行超时（120 秒）",
        ),
        NexusFailure::AtThreshold { left } => site.to_string().concat(" 当前仅剩 ").concat(
            decimal_of(left as u64).as_str(),
        ).concat(" 次登录机会，已达到安全阈值 ").concat(
            decimal_of(min_remaining as u64).as_str(),
        ).concat("，停止自动登录与重试"),
        NexusFailure::UsernameMissing => "未找到 ".to_string().concat(site).concat(
            " 用户名输入框",
        ),
        NexusFailure::PasswordMissing => "未找到 ".to_string().concat(site).concat(
            " 密码输入框",
        ),
        NexusFailure::CodeMissing => "未找到 ".to_string().concat(site).concat(
            " 两步验证码输入框",
        ),
        NexusFailure::FormUnreadable => "无法读取 ".to_string().concat(site).concat(
            " 登录表单状态",
        ),
        NexusFailure::CaptchaMissing => "未找到 ".to_string().concat(site).concat(
            " 图片验证码输入框",
        ),
        NexusFailure::CaptchaByHand { remaining } => {
            let note: String = match remaining {
                Some(n) => "，当前剩余 ".to_string().concat(
                    decimal_of(n as u64).as_str(),
                ).concat(" 次尝试"),
                None => String::new(),
            };
            site.to_string().concat(" 登录信息已填写").concat(note.as_str()).concat(
                "，请人工输入图片验证码并点击登录",
            )
        },
        NexusFailure::VerificationTimeout => "等待 ".to_string().concat(site).concat(
            " 人机验证通过超时",
        ),
        NexusFailure::ButtonMissing => "未找到 ".to_string().concat(site).concat(" 登录按钮"),
        NexusFailure::CaptchaRejected { total } => site.to_string().concat(
            " 自动登录失败：图片验证码错误，已达到最大重试次数 ",
        ).concat(decimal_of(total as u64).as_str()).concat(" 次"),
        NexusFailure::UnexpectedPage => site.to_string().concat(
            " 自动登录失败：跳转到了非预期页面（可能是用户名或密码错误）",
        ),
        NexusFailure::StillOnLogin => site.to_string().concat(
            " 登录后仍停留在登录页，请检查凭据",
        ),
        NexusFailure::NoAttempt { total } => site.to_string().concat(
            " 自动登录失败：已尝试 ",
        ).concat(decimal_of(total as u64).as_str()).concat(" 次均未成功"),
    }
}

impl NexusLogin {
    /// Whether `event` is of the kind that the pending action causes.
    pub open spec fn awaits(self, event: NexusEvent) -> bool {
        match self.pending() {
            NexusAction::RequestNewCaptcha { .. } => event is Outside,
            NexusAction::Sleep { .. } => event is Slept,
            NexusAction::Connect => event is Outside,
            NexusAction::ReadPage { .. } => event is Page,
            NexusAction::Type { .. } => event is Acted,
            NexusAction::MakeCode => event is Outside,
            NexusAction::ReadCaptcha => event is Outside,
            NexusAction::Probe => event is Probe,
            NexusAction::Submit { .. } => event is Acted,
            NexusAction::ClickPreferred => event is Acted,
            NexusAction::ClickAny => event is Acted,
            NexusAction::Finish(_) => false,
        }
    }

    /// An upper bound on the number of actions until the login ends.
    pub open spec fn steps_left(self) -> int {
        if self.phase is Done {
            0
        } else {
            2000 * (self.total() - self.attempt) + match self.phase {
                NexusPhase::Retrying => 1200int,
                NexusPhase::RetryPause => 1199,
                NexusPhase::Connecting => 1198,
                NexusPhase::FindForm { step, .. } => 700 + 2 * (FORM_STEPS - step),
                NexusPhase::FindFormPause { step, .. } => 699 + 2 * (FORM_STEPS - step),
                NexusPhase::TypingUsername { .. } => 699,
                NexusPhase::TypingPassword { .. } => 698,
                NexusPhase::MakingCode => 697,
                NexusPhase::TypingCode => 696,
                NexusPhase::ReadingForm => 695,
                NexusPhase::ReadingCaptcha => 694,
                NexusPhase::TypingCaptcha => 693,
                NexusPhase::Probing { step, .. } => 400 + 2 * (PROBE_STEPS - step),
                NexusPhase::ProbePause { step, .. } => 399 + 2 * (PROBE_STEPS - step),
                NexusPhase::Submitting => 399,
                NexusPhase::ClickingPreferred => 398,
                NexusPhase::ClickingAny => 397,
                NexusPhase::ReadingResult { step } => 300 + RESULT_STEPS - step,
                NexusPhase::ReadingFinal => 300,
                NexusPhase::Done(_) => 0,
            }
        }
    }
}

/// Every answered action brings a login closer to its end, so that each login
/// ends after at most `steps_left` actions.
#[verifier::rlimit(60)]
#[verifier::spinoff_prover]
pub proof fn nexus_login_ends(s: NexusLogin, event: NexusEvent, cancelled: bool)
    requires
        s.well_formed(),
        s.awaits(event),
    ensures
        s.next(event, cancelled).well_formed(),
        0 <= s.next(event, cancelled).steps_left() < s.steps_left(),
{
}

/// A login that has ended stays as it is.
pub proof fn nexus_end_is_final(s: NexusLogin, event: NexusEvent, cancelled: bool)
    requires
        s.phase is Done,
    ensures
        s.next(event, cancelled) == s,
{
}

/// Credentials are only typed after a login form was seen whose number of attempts
/// left is unknown or above the threshold.
pub proof fn nexus_threshold_guards_credentials(
    s: NexusLogin,
    event: NexusEvent,
    cancelled: bool,
)
    requires
        !(s.phase is TypingUsername),
        s.next(event, cancelled).phase is TypingUsername,
    ensures
        s.phase is FindForm,
        event matches NexusEvent::Page(Some(p)) && p.has_login_form && (
        p.remaining_attempts is None || p.remaining_attempts->0 > s.min_remaining),
{
}

/// After the user asked to stop, no further round of waiting begins and no further
/// attempt is made.
pub proof fn nexus_cancel_stops_rounds(s: NexusLogin, event: NexusEvent)
    requires
        s.well_formed(),
        s.awaits(event),
    ensures
        ({
            let t = s.next(event, true);
            &&& t.attempt == s.attempt || t.phase == NexusPhase::Done(
                NexusEnd::Failed(NexusFailure::Cancelled),
            )
            &&& !(t.phase is FindForm || t.phase is Probing || t.phase is ReadingResult
                || t.phase is Retrying)
        }),
{
}

/// The number of attempts left is always the one that a page reported last.
pub proof fn nexus_remaining_is_last_reported(s: NexusLogin, event: NexusEvent, cancelled: bool)
    ensures
        s.next(event, cancelled).remaining == (match event {
            NexusEvent::Page(Some(p)) if s.awaits(event) && p.remaining_attempts is Some =>
                p.remaining_attempts,
            _ => s.remaining,
        }),
{
}

/// Another attempt is only made after the site refused the captcha, and never more
/// attempts than allowed.
pub proof fn nexus_retries_only_refused_captchas(
    s: NexusLogin,
    event: NexusEvent,
    cancelled: bool,
)
    requires
        s.well_formed(),
        s.next(event, cancelled).attempt != s.attempt,
    ensures
        s.next(event, cancelled).attempt == s.attempt + 1,
        s.next(event, cancelled).attempt < s.total(),
        s.phase is ReadingResult,
        event matches NexusEvent::Page(Some(p)) && p.is_failure_page && !p.logged_in,
{
}

// ---------------------------------------------------------------- what a login does

/// A login that was in a state and was told events since, each with whether the user had
/// asked to stop by then.
pub open spec fn nexus_run(first: NexusLogin, told: Seq<(NexusEvent, bool)>) -> NexusLogin
    decreases told.len(),
{
    if told.len() == 0 {
        first
    } else {
        nexus_run(first, told.drop_last()).next(told.last().0, told.last().1)
    }
}

/// A login fails over a field exactly where typing into that very field was not done.
pub proof fn nexus_missing_field_is_the_one_typed_into(
    s: NexusLogin,
    event: NexusEvent,
    cancelled: bool,
)
    requires
        !(s.phase is Done),
    ensures
        ({
            let end = s.next(event, cancelled).phase;
            let typing = s.pending();
            let missed = event == NexusEvent::Acted(false) && typing is Type;
            &&& end == NexusPhase::Done(NexusEnd::Failed(NexusFailure::UsernameMissing)) <==> missed
                && typing->field == NexusField::Username
            &&& end == NexusPhase::Done(NexusEnd::Failed(NexusFailure::PasswordMissing)) <==> missed
                && typing->field == NexusField::Password
            &&& end == NexusPhase::Done(NexusEnd::Failed(NexusFailure::CodeMissing)) <==> missed
                && typing->field == NexusField::Code
            &&& end == NexusPhase::Done(NexusEnd::Failed(NexusFailure::CaptchaMissing)) <==> missed
                && typing->field == NexusField::Captcha
            &&& end == NexusPhase::Done(NexusEnd::Failed(NexusFailure::CodeMissing))
                <==> s.phase is TypingCode && event == NexusEvent::Acted(false)
            &&& typing is Type && event == NexusEvent::Acted(true) ==> !(end is Done)
                || cancelled && typing->field == NexusField::Captcha
        }),
{
}

/// A login that is under way, and so a form that is submitted, had every field typed that was
/// to be typed.
pub proof fn nexus_goes_on_only_with_all_typed(
    first: NexusLogin,
    told: Seq<(NexusEvent, bool)>,
    k: int,
)
    requires
        !(nexus_run(first, told).phase is Done),
        0 <= k < told.len(),
        nexus_run(first, told.take(k)).pending() is Type,
        told[k].0 is Acted,
    ensures
        told[k].0 == NexusEvent::Acted(true),
    decreases told.len(),
{
    let before = told.drop_last();
    let s = nexus_run(first, before);
    if s.phase is Done {
        nexus_end_is_final(s, told.last().0, told.last().1);
    } else if k < before.len() {
        assert(before.take(k) =~= told.take(k));
        nexus_goes_on_only_with_all_typed(first, before, k);
    } else {
        assert(told.take(k) =~= before);
        nexus_missing_field_is_the_one_typed_into(s, told.last().0, told.last().1);
    }
}

/// The fields are typed one after the other: the password after the user name, the code after
/// the password where a secret is configured and the form asks for one, and the captcha after
/// it was recognised.
pub proof fn nexus_types_in_order(s: NexusLogin, event: NexusEvent, cancelled: bool)
    requires
        s.awaits(event),
    ensures
        ({
            let t = s.next(event, cancelled);
            &&& t.phase is TypingUsername <==> s.phase is FindForm && (event matches NexusEvent::Page(
                Some(p),
            ) && p.has_login_form && (p.remaining_attempts matches Some(n) ==> n
                > s.min_remaining))
            &&& t.phase is TypingUsername ==> t.phase->TypingUsername_two_factor == (
            event->Page_0->0).has_two_factor
            &&& forall|two_factor: bool| #[trigger]
                is_typing_password(t, two_factor) <==> s.phase == (NexusPhase::TypingUsername {
                    two_factor,
                }) && event == NexusEvent::Acted(true)
            &&& t.phase is MakingCode <==> s.phase == (NexusPhase::TypingPassword {
                two_factor: true,
            }) && s.has_secret && event == NexusEvent::Acted(true)
            &&& t.phase is TypingCode <==> s.phase is MakingCode && event == NexusEvent::Outside(
                true,
            )
            &&& t.phase is ReadingForm <==> event == NexusEvent::Acted(true) && (s.phase is TypingCode
                || s.phase is TypingPassword && !(s.has_secret
                && s.phase->TypingPassword_two_factor))
            &&& t.phase is ReadingCaptcha <==> s.phase is ReadingForm && s.ocr_attempts is Some && (
            event matches NexusEvent::Page(Some(p)) && p.has_captcha)
            &&& t.phase is TypingCaptcha <==> s.phase is ReadingCaptcha && event
                == NexusEvent::Outside(true)
        }),
{
}

/// A login types its password.
pub open spec fn is_typing_password(s: NexusLogin, two_factor: bool) -> bool {
    s.phase == (NexusPhase::TypingPassword { two_factor })
}

/// The form is submitted exactly where no human verification stands in the way, or was seen
/// solved twice in a row; and the verification is first looked at when the form is filled in.
pub proof fn nexus_submits_what_is_filled_in(s: NexusLogin, event: NexusEvent, cancelled: bool)
    requires
        s.well_formed(),
        s.awaits(event),
    ensures
        ({
            let t = s.next(event, cancelled);
            let filled = s.phase is ReadingForm && (event matches NexusEvent::Page(Some(p))
                && !p.has_captcha) || s.phase is TypingCaptcha && event == NexusEvent::Acted(true);
            &&& t.phase is Submitting <==> (event matches NexusEvent::Probe(Some(p)) && (
            !p.has_challenge || p.solved && s.phase->Probing_solved == 1))
            &&& filled && !cancelled ==> t.phase == (NexusPhase::Probing {
                step: 0,
                solved: 0,
                told: false,
            })
            &&& t.phase is Probing ==> !cancelled && (filled || s.phase is ProbePause
                && t.phase->Probing_step == s.phase->ProbePause_step + 1 && t.phase->Probing_solved
                == s.phase->ProbePause_solved && t.phase->Probing_told == s.phase->ProbePause_told)
            &&& t.phase is ProbePause ==> s.phase is Probing && t.phase->ProbePause_step
                == s.phase->Probing_step
            &&& (event matches NexusEvent::Probe(Some(p)) && p.has_challenge && !p.solved)
                ==> t.phase == (NexusPhase::ProbePause {
                step: s.phase->Probing_step,
                solved: 0,
                told: true,
                announce: !s.phase->Probing_told,
            })
            &&& (event matches NexusEvent::Probe(Some(p)) && p.has_challenge && p.solved
                && s.phase->Probing_solved == 0) ==> t.phase == (NexusPhase::ProbePause {
                step: s.phase->Probing_step,
                solved: 1,
                told: true,
                announce: !s.phase->Probing_told,
            })
            &&& event == NexusEvent::Probe(None) ==> t.phase == (NexusPhase::ProbePause {
                step: s.phase->Probing_step,
                solved: s.phase->Probing_solved,
                told: s.phase->Probing_told,
                announce: false,
            })
        }),
{
}

/// Where the form cannot be submitted, the button is clicked, first the likely one and then
/// any; the result is looked at once one of these was done.
pub proof fn nexus_falls_back_to_the_buttons(s: NexusLogin, event: NexusEvent, cancelled: bool)
    requires
        s.well_formed(),
        s.awaits(event),
    ensures
        ({
            let t = s.next(event, cancelled);
            let sending = s.phase is Submitting || s.phase is ClickingPreferred
                || s.phase is ClickingAny;
            &&& t.phase is ClickingPreferred <==> s.phase is Submitting && event
                == NexusEvent::Acted(false)
            &&& t.phase is ClickingAny <==> s.phase is ClickingPreferred && event
                == NexusEvent::Acted(false)
            &&& sending && event == NexusEvent::Acted(true) && !cancelled ==> t.phase == (
            NexusPhase::ReadingResult { step: 0 })
            &&& t.phase is ReadingResult ==> !cancelled && (sending && event == NexusEvent::Acted(
                true,
            ) && t.phase->ReadingResult_step == 0 || s.phase is ReadingResult
                && t.phase->ReadingResult_step == s.phase->ReadingResult_step + 1)
            &&& t.phase is ReadingFinal ==> s.phase == (NexusPhase::ReadingResult { step: 39 })
        }),
{
}

/// A login succeeds exactly where the page after the submission shows an account, and was
/// done before exactly where three pages in a row show one and no login form.
pub proof fn nexus_succeeds_on_an_account_page(s: NexusLogin, event: NexusEvent, cancelled: bool)
    requires
        s.well_formed(),
        s.awaits(event),
    ensures
        ({
            let t = s.next(event, cancelled);
            let account = event matches NexusEvent::Page(Some(p)) && p.ready && !p.challenge
                && p.logged_in;
            let free = account && !(event->Page_0->0).has_login_form;
            &&& t.phase == NexusPhase::Done(NexusEnd::LoggedIn) <==> s.phase is ReadingResult
                && account
            &&& t.phase == NexusPhase::Done(NexusEnd::AlreadyLoggedIn) <==> s.phase is FindForm
                && s.phase->FindForm_stable == 2 && free
            &&& t.phase is FindFormPause ==> s.phase is FindForm && t.phase->FindFormPause_step
                == s.phase->FindForm_step && t.phase->FindFormPause_stable == (if free {
                s.phase->FindForm_stable + 1
            } else if event == NexusEvent::Page(None) {
                s.phase->FindForm_stable as int
            } else {
                0
            })
            &&& t.phase is FindForm ==> !cancelled && (s.phase is Connecting && event
                == NexusEvent::Outside(true) && t.phase->FindForm_step == 0
                && t.phase->FindForm_stable == 0 || s.phase is FindFormPause
                && t.phase->FindForm_step == s.phase->FindFormPause_step + 1
                && t.phase->FindForm_stable == s.phase->FindFormPause_stable)
            &&& t.phase is Connecting <==> s.phase is RetryPause
            &&& t.phase is RetryPause <==> s.phase is Retrying && event == NexusEvent::Outside(true)
        }),
{
}

/// Each failure other than a missing field comes exactly where its cause does.
pub proof fn nexus_fails_for_a_reason(s: NexusLogin, event: NexusEvent, cancelled: bool)
    requires
        s.well_formed(),
        s.awaits(event),
    ensures
        ({
            let end = s.next(event, cancelled).phase;
            let page = event->Page_0;
            let settled = page is Some && (page->0).ready && !(page->0).challenge;
            let refused = s.phase is ReadingResult && settled && !(page->0).logged_in && (
            page->0).is_failure_page;
            &&& failed_with(end, NexusFailure::Outside) <==> event == NexusEvent::Outside(false)
            &&& failed_with(end, NexusFailure::ChallengeTimeout) <==> s.phase is FindFormPause
                && s.phase->FindFormPause_step == 239
            &&& failed_with(end, NexusFailure::VerificationTimeout) <==> s.phase is ProbePause
                && s.phase->ProbePause_step == 119
            &&& failed_with(end, NexusFailure::FormUnreadable) <==> s.phase is ReadingForm && page
                == None::<NexusLoginPageState>
            &&& failed_with(end, NexusFailure::ButtonMissing) <==> s.phase is ClickingAny && event
                == NexusEvent::Acted(false)
            &&& failed_with(end, NexusFailure::UnexpectedPage) <==> s.phase is ReadingFinal
                && page is Some && !(page->0).has_login_form && !(page->0).logged_in
            &&& failed_with(end, NexusFailure::StillOnLogin) <==> s.phase is ReadingFinal && (
            page is None || (page->0).has_login_form || (page->0).logged_in)
            &&& forall|left: u32| #[trigger]
                failed_with(end, NexusFailure::AtThreshold { left }) <==> s.phase is FindForm
                    && page is Some && (page->0).has_login_form && (page->0).remaining_attempts
                    == Some(left) && left <= s.min_remaining
            &&& forall|remaining: Option<u32>| #[trigger]
                failed_with(end, NexusFailure::CaptchaByHand { remaining })
                    <==> s.phase is ReadingForm && page is Some && (page->0).has_captcha
                    && s.ocr_attempts is None && (page->0).remaining_attempts == remaining
            &&& forall|total: u8| #[trigger]
                failed_with(end, NexusFailure::CaptchaRejected { total }) <==> refused && s.attempt
                    + 1 == s.total() && total == s.total()
            &&& end is Retrying <==> refused && s.attempt + 1 < s.total() && !cancelled
            &&& failed_with(end, NexusFailure::Cancelled) ==> cancelled
            &&& !failed_with(end, NexusFailure::TabMissing)
            &&& forall|total: u8| !#[trigger] failed_with(end, NexusFailure::NoAttempt { total })
        }),
{
}

/// A login ended with a failure.
pub open spec fn failed_with(phase: NexusPhase, f: NexusFailure) -> bool {
    phase == NexusPhase::Done(NexusEnd::Failed(f))
}

/// What a login was given does not change, and a pause is never shorter than none: its limits
/// and those of the keys are in order.
pub proof fn nexus_keeps_what_it_was_given(s: NexusLogin, event: NexusEvent, cancelled: bool)
    ensures
        s.next(event, cancelled).min_remaining == s.min_remaining,
        s.next(event, cancelled).ocr_attempts == s.ocr_attempts,
        s.next(event, cancelled).has_secret == s.has_secret,
        s.pending() matches NexusAction::Type { pause_min, pause_max, key_min, key_max, .. } ==> 0
            < pause_min < pause_max && 0 < key_min < key_max,
        s.pending() matches NexusAction::Submit { pause_min, pause_max } ==> 0 < pause_min
            < pause_max,
        s.pending() is Submit <==> s.phase is Submitting,
        s.pending() is ClickPreferred <==> s.phase is ClickingPreferred,
        s.pending() is ClickAny <==> s.phase is ClickingAny,
        s.pending() is MakeCode <==> s.phase is MakingCode,
        s.pending() is ReadCaptcha <==> s.phase is ReadingCaptcha,
        s.pending() is Probe <==> s.phase is Probing,
        s.pending() matches NexusAction::Sleep { announce, .. } && announce ==> s.phase is ProbePause
            && s.phase->ProbePause_announce,
        s.phase is ProbePause && s.phase->ProbePause_announce ==> (
        s.pending() matches NexusAction::Sleep { announce, .. } && announce),
        forall|end: NexusEnd| #[trigger]
            s.pending() == NexusAction::Finish(end) <==> s.phase == NexusPhase::Done(end),
{
}

/// A login begins by connecting, unless the user asked to stop or no attempt is allowed.
pub proof fn nexus_begins_by_connecting(
    min_remaining: u32,
    ocr_attempts: Option<u8>,
    has_secret: bool,
    cancelled: bool,
)
    ensures
        ({
            let s = NexusLogin::initial(min_remaining, ocr_attempts, has_secret, cancelled);
            &&& s.pending() == (if ocr_attempts == Some(0u8) {
                NexusAction::Finish(NexusEnd::Failed(NexusFailure::NoAttempt { total: 0 }))
            } else if cancelled {
                NexusAction::Finish(NexusEnd::Failed(NexusFailure::Cancelled))
            } else {
                NexusAction::Connect
            })
            &&& s.min_remaining == min_remaining
            &&& s.ocr_attempts == ocr_attempts
            &&& s.has_secret == has_secret
            &&& s.remaining is None
            &&& s.attempt == 0
        }),
{
}

/// The text for what is missing names the site and the very thing that is missing.
pub proof fn nexus_text_names_what_is_missing(site: Seq<char>, min_remaining: u32, detail: Seq<char>)
    ensures
        ({
            let text = |f: NexusFailure| nexus_failure_text(f, site, min_remaining, detail);
            &&& contains_text(text(NexusFailure::UsernameMissing), site)
            &&& contains_text(text(NexusFailure::PasswordMissing), site)
            &&& contains_text(text(NexusFailure::CodeMissing), site)
            &&& contains_text(text(NexusFailure::CaptchaMissing), site)
            &&& contains_text(text(NexusFailure::ButtonMissing), site)
            &&& has_suffix(text(NexusFailure::UsernameMissing), " 用户名输入框"@)
            &&& has_suffix(text(NexusFailure::PasswordMissing), " 密码输入框"@)
            &&& has_suffix(text(NexusFailure::CodeMissing), " 两步验证码输入框"@)
            &&& has_suffix(text(NexusFailure::CaptchaMissing), " 图片验证码输入框"@)
            &&& has_suffix(text(NexusFailure::ButtonMissing), " 登录按钮"@)
            &&& text(NexusFailure::Outside) == detail
        }),
{
    sum_contains_its_parts("未找到 "@, site, " 用户名输入框"@);
    sum_contains_its_parts("未找到 "@, site, " 密码输入框"@);
    sum_contains_its_parts("未找到 "@, site, " 两步验证码输入框"@);
    sum_contains_its_parts("未找到 "@, site, " 图片验证码输入框"@);
    sum_contains_its_parts("未找到 "@, site, " 登录按钮"@);
}

/// The text for a login that is not risked tells how many attempts are left and where the limit
/// is; that for a refused captcha tells how many attempts were made.
pub proof fn nexus_text_tells_the_numbers(
    site: Seq<char>,
    left: u32,
    min_remaining: u32,
    total: u8,
    detail: Seq<char>,
)
    ensures
        ({
            let few = nexus_failure_text(
                NexusFailure::AtThreshold { left },
                site,
                min_remaining,
                detail,
            );
            let refused = nexus_failure_text(
                NexusFailure::CaptchaRejected { total },
                site,
                min_remaining,
                detail,
            );
            &&& has_prefix(few, site + " 当前仅剩 "@ + decimal(left as nat))
            &&& contains_text(few, decimal(min_remaining as nat))
            &&& has_prefix(refused, site)
            &&& has_suffix(refused, decimal(total as nat) + " 次"@)
        }),
{
    let head = site + " 当前仅剩 "@ + decimal(left as nat);
    let middle = " 次登录机会，已达到安全阈值 "@;
    let limit = decimal(min_remaining as nat);
    let few = head + middle + limit + "，停止自动登录与重试"@;
    sum_contains_its_parts(head + middle, limit, "，停止自动登录与重试"@);
    assert(few.take(head.len() as int) =~= head);
    let told = " 自动登录失败：图片验证码错误，已达到最大重试次数 "@;
    let last = decimal(total as nat) + " 次"@;
    let refused = site + told + decimal(total as nat) + " 次"@;
    assert(refused =~= site + told + last);
    sum_contains_its_parts(site, told, last);
}

} // verus!
