//! The login of M-Team: the login page and its two-factor step.

use crate::login::common::{form_event_fits, FormAction, FormEvent, FormField, LoginPageState};
use crate::text::{contains_text, occurs_at, str_eq};
use vstd::prelude::*;

verus! {

/// Why a login ended without success.
#[derive(Debug, Clone, Copy, PartialEq, Eq, Structural)]
pub enum MteamFailure {
    TabMissing,
    Unreadable,
    WrongHost,
    FormNotLoaded,
    NothingFound,
    UsernameMissing,
    PasswordMissing,
    ButtonMissing,
    SecretMissing,
    OtpFailed,
    NotLoggedIn,
}

/// How a login ended.
#[derive(Debug, Clone, Copy, PartialEq, Eq, Structural)]
pub enum MteamEnd {
    LoggedIn,
    AlreadyLoggedIn,
    Failed(MteamFailure),
}

/// What is done after the page was waited for.
#[derive(Debug, Clone, Copy, PartialEq, Eq, Structural)]
pub enum MteamVerdict {
    FillIn,
    Stop(MteamEnd),
}

/// Where a login stands.
#[derive(Debug, Clone, Copy, PartialEq, Eq, Structural)]
pub enum MteamPhase {
    FindForm { step: u32 },
    FindFormPause { step: u32, verdict: MteamVerdict },
    TypingUsername,
    TypingPassword,
    Clicking,
    Awaiting { step: u32, otp_done: bool },
    SubmittingOtp { step: u32 },
    Done(MteamEnd),
}

/// A login of M-Team in progress.
#[derive(Debug, Clone, Copy, PartialEq, Eq, Structural)]
pub struct MteamLogin {
    /// Whether a one-time code is at hand.
    pub has_code: bool,
    pub phase: MteamPhase,
}

/// The page is looked at at most this many times, before and after the login.
pub const MTEAM_STEPS: u32 = 120;

/// Whether the page is loaded far enough to decide.
pub open spec fn mteam_settled(page: Option<LoginPageState>) -> bool {
    page matches Some(p) && p.host@ == "kp.m-team.cc"@ && p.ready && (p.has_login_form
        || p.logged_in)
}

/// What the last page that was read calls for.
pub open spec fn mteam_verdict(page: Option<LoginPageState>) -> MteamVerdict {
    match page {
        None => MteamVerdict::Stop(MteamEnd::Failed(MteamFailure::Unreadable)),
        Some(p) => if p.host@ != "kp.m-team.cc"@ {
            MteamVerdict::Stop(MteamEnd::Failed(MteamFailure::WrongHost))
        } else if p.logged_in {
            MteamVerdict::Stop(MteamEnd::AlreadyLoggedIn)
        } else if p.has_login_form {
            MteamVerdict::FillIn
        } else if p.path@ == "/login"@ {
            MteamVerdict::Stop(MteamEnd::Failed(MteamFailure::FormNotLoaded))
        } else {
            MteamVerdict::Stop(MteamEnd::Failed(MteamFailure::NothingFound))
        },
    }
}

fn settled(page: &Option<LoginPageState>) -> (r: bool)
    ensures
        r == mteam_settled(*page),
{
    match page {
        Some(p) => str_eq(p.host.as_str(), "kp.m-team.cc") && p.ready && (p.has_login_form
            || p.logged_in),
        None => false,
    }
}

fn verdict_on(page: &Option<LoginPageState>) -> (r: MteamVerdict)
    ensures
        r == mteam_verdict(*page),
{
    match page {
        None => MteamVerdict::Stop(MteamEnd::Failed(MteamFailure::Unreadable)),
        Some(p) => if !str_eq(p.host.as_str(), "kp.m-team.cc") {
            MteamVerdict::Stop(MteamEnd::Failed(MteamFailure::WrongHost))
        } else if p.logged_in {
            MteamVerdict::Stop(MteamEnd::AlreadyLoggedIn)
        } else if p.has_login_form {
            MteamVerdict::FillIn
        } else if str_eq(p.path.as_str(), "/login") {
            MteamVerdict::Stop(MteamEnd::Failed(MteamFailure::FormNotLoaded))
        } else {
            MteamVerdict::Stop(MteamEnd::Failed(MteamFailure::NothingFound))
        },
    }
}

/// The phase that carries out a verdict.
pub open spec fn mteam_enacted(v: MteamVerdict) -> MteamPhase {
    match v {
        MteamVerdict::FillIn => MteamPhase::TypingUsername,
        MteamVerdict::Stop(end) => MteamPhase::Done(end),
    }
}

fn enact(v: MteamVerdict) -> (r: MteamPhase)
    ensures
        r == mteam_enacted(v),
{
    match v {
        MteamVerdict::FillIn => MteamPhase::TypingUsername,
        MteamVerdict::Stop(end) => MteamPhase::Done(end),
    }
}

/// The phase of the next look at the page after the login.
pub open spec fn mteam_next_look(step: u32, otp_done: bool) -> MteamPhase {
    if step + 1 < MTEAM_STEPS {
        MteamPhase::Awaiting { step: (step + 1) as u32, otp_done }
    } else {
        MteamPhase::Done(MteamEnd::Failed(MteamFailure::NotLoggedIn))
    }
}

fn next_look(step: u32, otp_done: bool) -> (r: MteamPhase)
    requires
        step < MTEAM_STEPS,
    ensures
        r == mteam_next_look(step, otp_done),
{
    if step + 1 < MTEAM_STEPS {
        MteamPhase::Awaiting { step: step + 1, otp_done }
    } else {
        MteamPhase::Done(MteamEnd::Failed(MteamFailure::NotLoggedIn))
    }
}

impl MteamLogin {
    pub open spec fn at(self, phase: MteamPhase) -> MteamLogin {
        MteamLogin { phase, ..self }
    }

    pub open spec fn fail(self, f: MteamFailure) -> MteamLogin {
        self.at(MteamPhase::Done(MteamEnd::Failed(f)))
    }

    /// The counters stay within the limits of their loops.
    pub open spec fn well_formed(self) -> bool {
        match self.phase {
            MteamPhase::FindForm { step } => step < MTEAM_STEPS,
            MteamPhase::FindFormPause { step, .. } => step < MTEAM_STEPS,
            MteamPhase::Awaiting { step, .. } => step < MTEAM_STEPS,
            MteamPhase::SubmittingOtp { step } => step < MTEAM_STEPS,
            _ => true,
        }
    }

    /// What a page shows after the login.
    pub open spec fn result_seen(
        self,
        step: u32,
        otp_done: bool,
        page: Option<LoginPageState>,
    ) -> MteamLogin {
        match page {
            None => self.at(mteam_next_look(step, otp_done)),
            Some(p) => if p.has_otp && !otp_done {
                if self.has_code {
                    self.at(MteamPhase::SubmittingOtp { step })
                } else {
                    self.fail(MteamFailure::SecretMissing)
                }
            } else if p.logged_in {
                self.at(MteamPhase::Done(MteamEnd::LoggedIn))
            } else {
                self.at(mteam_next_look(step, otp_done))
            },
        }
    }

    /// The state after an event. One that the pending action cannot cause changes
    /// nothing.
    pub open spec fn next(self, event: FormEvent<LoginPageState>) -> MteamLogin {
        match (self.phase, event) {
            (MteamPhase::FindForm { step }, FormEvent::Page(page)) => if mteam_settled(page) {
                self.at(mteam_enacted(mteam_verdict(page)))
            } else {
                self.at(MteamPhase::FindFormPause { step, verdict: mteam_verdict(page) })
            },
            (MteamPhase::FindFormPause { step, verdict }, FormEvent::Slept) => if step + 1
                < MTEAM_STEPS {
                self.at(MteamPhase::FindForm { step: (step + 1) as u32 })
            } else {
                self.at(mteam_enacted(verdict))
            },
            (MteamPhase::TypingUsername, FormEvent::Acted(ok)) => if ok {
                self.at(MteamPhase::TypingPassword)
            } else {
                self.fail(MteamFailure::UsernameMissing)
            },
            (MteamPhase::TypingPassword, FormEvent::Acted(ok)) => if ok {
                self.at(MteamPhase::Clicking)
            } else {
                self.fail(MteamFailure::PasswordMissing)
            },
            (MteamPhase::Clicking, FormEvent::Acted(ok)) => if ok {
                self.at(MteamPhase::Awaiting { step: 0, otp_done: false })
            } else {
                self.fail(MteamFailure::ButtonMissing)
            },
            (MteamPhase::Awaiting { step, otp_done }, FormEvent::Page(page)) => self.result_seen(
                step,
                otp_done,
                page,
            ),
            (MteamPhase::SubmittingOtp { step }, FormEvent::Acted(ok)) => if ok {
                self.at(mteam_next_look(step, true))
            } else {
                self.fail(MteamFailure::OtpFailed)
            },
            _ => self,
        }
    }

    /// What has to be done in this state.
    pub open spec fn pending(self) -> FormAction {
        match self.phase {
            MteamPhase::FindForm { .. } => FormAction::ReadPage { after_millis: 0 },
            MteamPhase::FindFormPause { .. } => FormAction::Sleep { millis: 250 },
            MteamPhase::TypingUsername => FormAction::Type {
                field: FormField::Username,
                pause_min: 550,
                pause_max: 1250,
                key_min: 45,
                key_max: 115,
            },
            MteamPhase::TypingPassword => FormAction::Type {
                field: FormField::Password,
                pause_min: 450,
                pause_max: 1050,
                key_min: 55,
                key_max: 135,
            },
            MteamPhase::Clicking => FormAction::Click { pause_min: 700, pause_max: 1550 },
            MteamPhase::Awaiting { .. } => FormAction::ReadPage { after_millis: 250 },
            MteamPhase::SubmittingOtp { .. } => FormAction::SubmitOtp {
                pause_min: 0,
                pause_max: 0,
            },
            MteamPhase::Done(_) => FormAction::Finish,
        }
    }

    /// A login that has not begun yet.
    pub fn begin(has_code: bool) -> (r: MteamLogin)
        ensures
            r == (MteamLogin { has_code, phase: MteamPhase::FindForm { step: 0 } }),
            r.well_formed(),
    {
        MteamLogin { has_code, phase: MteamPhase::FindForm { step: 0 } }
    }

    /// What has to be done in this state.
    pub fn action(&self) -> (r: FormAction)
        ensures
            r == self.pending(),
    {
        match self.phase {
            MteamPhase::FindForm { .. } => FormAction::ReadPage { after_millis: 0 },
            MteamPhase::FindFormPause { .. } => FormAction::Sleep { millis: 250 },
            MteamPhase::TypingUsername => FormAction::Type {
                field: FormField::Username,
                pause_min: 550,
                pause_max: 1250,
                key_min: 45,
                key_max: 115,
            },
            MteamPhase::TypingPassword => FormAction::Type {
                field: FormField::Password,
                pause_min: 450,
                pause_max: 1050,
                key_min: 55,
                key_max: 135,
            },
            MteamPhase::Clicking => FormAction::Click { pause_min: 700, pause_max: 1550 },
            MteamPhase::Awaiting { .. } => FormAction::ReadPage { after_millis: 250 },
            MteamPhase::SubmittingOtp { .. } => FormAction::SubmitOtp {
                pause_min: 0,
                pause_max: 0,
            },
            MteamPhase::Done(_) => FormAction::Finish,
        }
    }

    fn set_failed(&mut self, f: MteamFailure)
        ensures
            *final(self) == old(self).fail(f),
    {
        self.phase = MteamPhase::Done(MteamEnd::Failed(f));
    }

    fn see_result(&mut self, step: u32, otp_done: bool, page: &Option<LoginPageState>)
        requires
            step < MTEAM_STEPS,
        ensures
            *final(self) == old(self).result_seen(step, otp_done, *page),
    {
        match page {
            None => {
                self.phase = next_look(step, otp_done);
            },
            Some(p) => {
                if p.has_otp && !otp_done {
                    if self.has_code {
                        self.phase = MteamPhase::SubmittingOtp { step };
                    } else {
                        self.set_failed(MteamFailure::SecretMissing);
                    }
                } else if p.logged_in {
                    self.phase = MteamPhase::Done(MteamEnd::LoggedIn);
                } else {
                    self.phase = next_look(step, otp_done);
                }
            },
        }
    }

    /// Takes in what came of the pending action.
    pub fn advance(&mut self, event: &FormEvent<LoginPageState>)
        requires
            old(self).well_formed(),
        ensures
            *final(self) == old(self).next(*event),
            final(self).well_formed(),
    {
        match (self.phase, event) {
            (MteamPhase::FindForm { step }, FormEvent::Page(page)) => {
                if settled(page) {
                    self.phase = enact(verdict_on(page));
                } else {
                    self.phase = MteamPhase::FindFormPause { step, verdict: verdict_on(page) };
                }
            },
            (MteamPhase::FindFormPause { step, verdict }, FormEvent::Slept) => {
                if step + 1 < MTEAM_STEPS {
                    self.phase = MteamPhase::FindForm { step: step + 1 };
                } else {
                    self.phase = enact(verdict);
                }
            },
            (MteamPhase::TypingUsername, FormEvent::Acted(ok)) => {
                if *ok {
                    self.phase = MteamPhase::TypingPassword;
                } else {
                    self.set_failed(MteamFailure::UsernameMissing);
                }
            },
            (MteamPhase::TypingPassword, FormEvent::Acted(ok)) => {
                if *ok {
                    self.phase = MteamPhase::Clicking;
                } else {
                    self.set_failed(MteamFailure::PasswordMissing);
                }
            },
            (MteamPhase::Clicking, FormEvent::Acted(ok)) => {
                if *ok {
                    self.phase = MteamPhase::Awaiting { step: 0, otp_done: false };
                } else {
                    self.set_failed(MteamFailure::ButtonMissing);
                }
            },
            (MteamPhase::Awaiting { step, otp_done }, FormEvent::Page(page)) => {
                self.see_result(step, otp_done, page);
            },
            (MteamPhase::SubmittingOtp { step }, FormEvent::Acted(ok)) => {
                if *ok {
                    self.phase = next_look(step, true);
                } else {
                    self.set_failed(MteamFailure::OtpFailed);
                }
            },
            _ => {},
        }
    }

    /// An upper bound on the number of actions until the login ends.
    pub open spec fn steps_left(self) -> int {
        match self.phase {
            MteamPhase::FindForm { step } => 400 + 2 * (MTEAM_STEPS - step),
            MteamPhase::FindFormPause { step, .. } => 399 + 2 * (MTEAM_STEPS - step),
            MteamPhase::TypingUsername => 303,
            MteamPhase::TypingPassword => 302,
            MteamPhase::Clicking => 301,
            MteamPhase::Awaiting { step, .. } => 2 * (MTEAM_STEPS - step),
            MteamPhase::SubmittingOtp { step } => 2 * (MTEAM_STEPS - step) - 1,
            MteamPhase::Done(_) => 0,
        }
    }
}

/// Every answered action brings a login closer to its end.
pub proof fn mteam_login_ends(s: MteamLogin, event: FormEvent<LoginPageState>)
    requires
        s.well_formed(),
        form_event_fits(s.pending(), event),
    ensures
        s.next(event).well_formed(),
        0 <= s.next(event).steps_left() < s.steps_left(),
{
}

/// Whether a one-time code was already submitted.
pub open spec fn mteam_otp_done(s: MteamLogin) -> bool {
    match s.phase {
        MteamPhase::Awaiting { otp_done, .. } => otp_done,
        MteamPhase::Done(_) => true,
        _ => false,
    }
}

/// A one-time code is submitted at most once: after it was, the flow never asks for
/// another one.
pub proof fn mteam_submits_one_code(s: MteamLogin, event: FormEvent<LoginPageState>)
    requires
        mteam_otp_done(s),
    ensures
        mteam_otp_done(s.next(event)),
        !(s.next(event).pending() is SubmitOtp),
{
}

/// The text for a failure.
pub open spec fn mteam_failure_text(f: MteamFailure) -> Seq<char> {
    match f {
        MteamFailure::TabMissing => "无法连接 M-Team 标签页"@,
        MteamFailure::Unreadable => "无法读取 M-Team 登录页状态"@,
        MteamFailure::WrongHost => "M-Team 页面加载超时，未能进入站点页面"@,
        MteamFailure::FormNotLoaded => "M-Team 已进入登录页，但登录表单未加载完成"@,
        MteamFailure::NothingFound => "M-Team 登录状态检测超时：未发现账户信息或登录表单"@,
        MteamFailure::UsernameMissing => "未找到 M-Team 用户名输入框"@,
        MteamFailure::PasswordMissing => "未找到 M-Team 密码输入框"@,
        MteamFailure::ButtonMissing => "未找到 M-Team 登录按钮"@,
        MteamFailure::SecretMissing => "M-Team 要求 2FA，但站点未配置 2FA 密钥"@,
        MteamFailure::OtpFailed => "检测到 M-Team 2FA 验证，但未能填写或提交验证码"@,
        MteamFailure::NotLoggedIn =>
            "M-Team 登录后未检测到账户信息，请检查账号、密码、2FA 或验证码要求"@,
    }
}

/// The text for a failure.
pub fn mteam_failure_message(f: MteamFailure) -> (r: String)
    ensures
        r@ == mteam_failure_text(f),
{
    match f {
        MteamFailure::TabMissing => "无法连接 M-Team 标签页".to_string(),
        MteamFailure::Unreadable => "无法读取 M-Team 登录页状态".to_string(),
        MteamFailure::WrongHost => "M-Team 页面加载超时，未能进入站点页面".to_string(),
        MteamFailure::FormNotLoaded => "M-Team 已进入登录页，但登录表单未加载完成".to_string(),
        MteamFailure::NothingFound =>
            "M-Team 登录状态检测超时：未发现账户信息或登录表单".to_string(),
        MteamFailure::UsernameMissing => "未找到 M-Team 用户名输入框".to_string(),
        MteamFailure::PasswordMissing => "未找到 M-Team 密码输入框".to_string(),
        MteamFailure::ButtonMissing => "未找到 M-Team 登录按钮".to_string(),
        MteamFailure::SecretMissing => "M-Team 要求 2FA，但站点未配置 2FA 密钥".to_string(),
        MteamFailure::OtpFailed =>
            "检测到 M-Team 2FA 验证，但未能填写或提交验证码".to_string(),
        MteamFailure::NotLoggedIn =>
            "M-Team 登录后未检测到账户信息，请检查账号、密码、2FA 或验证码要求".to_string(),
    }
}

// ---------------------------------------------------------------- what a login does

/// A login fails over a field or a button exactly where that very one was not there.
pub proof fn mteam_missing_control_is_the_one_used(s: MteamLogin, event: FormEvent<LoginPageState>)
    requires
        !(s.phase is Done),
        !(s.phase is FindFormPause),
    ensures
        ({
            let end = s.next(event).phase;
            let doing = s.pending();
            let missed = event == FormEvent::<LoginPageState>::Acted(false);
            let typing = doing is Type && missed;
            &&& end == MteamPhase::Done(MteamEnd::Failed(MteamFailure::UsernameMissing)) <==> typing
                && doing->field == FormField::Username
            &&& end == MteamPhase::Done(MteamEnd::Failed(MteamFailure::PasswordMissing)) <==> typing
                && doing->field == FormField::Password
            &&& end == MteamPhase::Done(MteamEnd::Failed(MteamFailure::ButtonMissing))
                <==> doing is Click && missed
            &&& end == MteamPhase::Done(MteamEnd::Failed(MteamFailure::OtpFailed))
                <==> doing is SubmitOtp && missed
            &&& (doing is Type || doing is Click) && event
                == FormEvent::<LoginPageState>::Acted(true) ==> !(end is Done)
        }),
{
}

/// The form is filled in and sent in order: the user name, the password, the button; the
/// result is looked at after the button was clicked.
pub proof fn mteam_fills_in_order(s: MteamLogin, event: FormEvent<LoginPageState>)
    requires
        s.well_formed(),
        form_event_fits(s.pending(), event),
    ensures
        ({
            let t = s.next(event);
            let done = event == FormEvent::<LoginPageState>::Acted(true);
            &&& t.phase is TypingPassword <==> s.phase is TypingUsername && done
            &&& t.phase is Clicking <==> s.phase is TypingPassword && done
            &&& t.phase == (MteamPhase::Awaiting { step: 0, otp_done: false })
                <==> s.phase is Clicking && done
            &&& t.phase is Awaiting ==> s.phase is Clicking || s.phase is SubmittingOtp && done
                && t.phase->Awaiting_otp_done && t.phase->Awaiting_step
                == s.phase->SubmittingOtp_step + 1 || s.phase is Awaiting
                && t.phase->Awaiting_otp_done == s.phase->Awaiting_otp_done
                && t.phase->Awaiting_step == s.phase->Awaiting_step + 1
            &&& t.has_code == s.has_code
        }),
{
}

/// The form is filled in exactly where a page of the site shows it and no account: as soon
/// as such a page is loaded, or on the last of all looks.
pub proof fn mteam_fills_in_the_form_of_the_site(s: MteamLogin, event: FormEvent<LoginPageState>)
    requires
        s.well_formed(),
        form_event_fits(s.pending(), event),
    ensures
        ({
            let t = s.next(event);
            let page = event->Page_0;
            let site = page is Some && (page->0).host@ == "kp.m-team.cc"@;
            &&& s.phase is FindForm && site && (page->0).ready && (page->0).has_login_form && !(
            page->0).logged_in ==> t.phase == MteamPhase::TypingUsername
            &&& s.phase is FindForm && site && (page->0).ready && (page->0).logged_in ==> t.phase
                == MteamPhase::Done(MteamEnd::AlreadyLoggedIn)
            &&& s.phase is FindForm && (!site || !(page->0).ready || !(page->0).has_login_form && !(
            page->0).logged_in) ==> t.phase is FindFormPause && t.phase->FindFormPause_step
                == s.phase->FindForm_step
            &&& t.phase is FindFormPause ==> ({
                let verdict = t.phase->verdict;
                &&& verdict == MteamVerdict::FillIn <==> site && (page->0).has_login_form && !(
                page->0).logged_in
                &&& verdict == MteamVerdict::Stop(MteamEnd::AlreadyLoggedIn) <==> site && (
                page->0).logged_in
                &&& verdict == MteamVerdict::Stop(MteamEnd::Failed(MteamFailure::Unreadable))
                    <==> page is None
                &&& verdict == MteamVerdict::Stop(MteamEnd::Failed(MteamFailure::WrongHost))
                    <==> page is Some && !site
                &&& verdict == MteamVerdict::Stop(MteamEnd::Failed(MteamFailure::FormNotLoaded))
                    <==> site && !(page->0).has_login_form && !(page->0).logged_in && (
                page->0).path@ == "/login"@
                &&& verdict != MteamVerdict::Stop(MteamEnd::LoggedIn)
            })
            &&& s.phase is FindFormPause && s.phase->FindFormPause_step < 119 ==> t.phase == (
            MteamPhase::FindForm { step: (s.phase->FindFormPause_step + 1) as u32 })
            &&& s.phase is FindFormPause && s.phase->FindFormPause_step == 119 ==> match s.phase->verdict {
                MteamVerdict::FillIn => t.phase == MteamPhase::TypingUsername,
                MteamVerdict::Stop(end) => t.phase == MteamPhase::Done(end),
            }
        }),
{
}

/// A login succeeds exactly where an account shows after the form was sent, and the code that
/// was asked for was submitted; a code is submitted where one is asked for and at hand, and
/// the login fails where none is.
pub proof fn mteam_succeeds_on_an_account_page(s: MteamLogin, event: FormEvent<LoginPageState>)
    requires
        s.well_formed(),
        form_event_fits(s.pending(), event),
    ensures
        ({
            let t = s.next(event);
            let page = event->Page_0;
            let asked = s.phase is Awaiting && !s.phase->Awaiting_otp_done && page is Some && (
            page->0).has_otp;
            &&& s.phase is Awaiting ==> (t.phase == MteamPhase::Done(MteamEnd::LoggedIn)
                <==> page is Some && (page->0).logged_in && !asked)
            &&& t.phase is SubmittingOtp <==> asked && s.has_code
            &&& t.phase is SubmittingOtp ==> t.phase->SubmittingOtp_step == s.phase->Awaiting_step
            &&& t.phase == MteamPhase::Done(MteamEnd::Failed(MteamFailure::SecretMissing)) && !(
            s.phase is FindFormPause) <==> asked && !s.has_code
            &&& t.phase == MteamPhase::Done(MteamEnd::Failed(MteamFailure::NotLoggedIn)) && !(
            s.phase is FindFormPause) <==> s.phase is Awaiting && s.phase->Awaiting_step == 119
                && !asked && (page is None || !(page->0).logged_in) || s.phase is SubmittingOtp
                && s.phase->SubmittingOtp_step == 119 && event
                == FormEvent::<LoginPageState>::Acted(true)
        }),
{
}

/// The text for what is missing names the very thing that is missing.
pub proof fn mteam_text_names_what_is_missing()
    ensures
        contains_text(mteam_failure_text(MteamFailure::UsernameMissing), "用户名"@),
        contains_text(mteam_failure_text(MteamFailure::PasswordMissing), "密码"@),
        contains_text(mteam_failure_text(MteamFailure::ButtonMissing), "登录按钮"@),
        contains_text(mteam_failure_text(MteamFailure::SecretMissing), "2FA 密钥"@),
        contains_text(mteam_failure_text(MteamFailure::OtpFailed), "验证码"@),
{
    reveal_strlit("未找到 M-Team 用户名输入框");
    reveal_strlit("用户名");
    assert("未找到 M-Team 用户名输入框"@.subrange(11, 14) =~= "用户名"@);
    assert(occurs_at("未找到 M-Team 用户名输入框"@, "用户名"@, 11));
    reveal_strlit("未找到 M-Team 密码输入框");
    reveal_strlit("密码");
    assert("未找到 M-Team 密码输入框"@.subrange(11, 13) =~= "密码"@);
    assert(occurs_at("未找到 M-Team 密码输入框"@, "密码"@, 11));
    reveal_strlit("未找到 M-Team 登录按钮");
    reveal_strlit("登录按钮");
    assert("未找到 M-Team 登录按钮"@.subrange(11, 15) =~= "登录按钮"@);
    assert(occurs_at("未找到 M-Team 登录按钮"@, "登录按钮"@, 11));
    reveal_strlit("M-Team 要求 2FA，但站点未配置 2FA 密钥");
    reveal_strlit("2FA 密钥");
    assert("M-Team 要求 2FA，但站点未配置 2FA 密钥"@.subrange(21, 27) =~= "2FA 密钥"@);
    assert(occurs_at("M-Team 要求 2FA，但站点未配置 2FA 密钥"@, "2FA 密钥"@, 21));
    reveal_strlit("检测到 M-Team 2FA 验证，但未能填写或提交验证码");
    reveal_strlit("验证码");
    assert("检测到 M-Team 2FA 验证，但未能填写或提交验证码"@.subrange(26, 29) =~= "验证码"@);
    assert(occurs_at("检测到 M-Team 2FA 验证，但未能填写或提交验证码"@, "验证码"@, 26));
}

} // verus!
