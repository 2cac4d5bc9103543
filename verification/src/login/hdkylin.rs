//! The login of HDKylin: the firewall in front of it, the form, and the two-factor
//! step.

use crate::login::common::{form_event_fits, FormAction, FormEvent, FormField, HdkLoginPageState};
use crate::text::{contains_text, occurs_at, str_eq};
use vstd::prelude::*;

verus! {

/// Why a login ended without success.
#[derive(Debug, Clone, Copy, PartialEq, Eq, Structural)]
pub enum HdkFailure {
    TabMissing,
    /// A step outside the flow failed with a text of its own.
    Outside,
    DebugBlocked,
    CaptchaRequired,
    FormTimeout,
    UsernameMissing,
    PasswordMissing,
    ButtonMissing,
    BlockedDuringLogin,
    CaptchaAfterLogin,
    SecretMissing,
    OtpFailed,
    StillOnLogin,
}

/// How a login ended.
#[derive(Debug, Clone, Copy, PartialEq, Eq, Structural)]
pub enum HdkEnd {
    LoggedIn,
    AlreadyLoggedIn,
    Failed(HdkFailure),
}

/// Where a login stands.
#[derive(Debug, Clone, Copy, PartialEq, Eq, Structural)]
pub enum HdkPhase {
    /// The form is looked for; `stable` pages in a row were past the login.
    FindForm { step: u32, stable: u32 },
    FindFormPause { step: u32, stable: u32 },
    TypingUsername,
    TypingPassword,
    Clicking,
    Awaiting { step: u32, stable: u32, otp_done: bool },
    MakingCode { step: u32 },
    SubmittingOtp { step: u32 },
    Done(HdkEnd),
}

/// A login of HDKylin in progress.
#[derive(Debug, Clone, Copy, PartialEq, Eq, Structural)]
pub struct HdkLogin {
    /// Whether a secret for one-time codes is configured.
    pub has_secret: bool,
    pub phase: HdkPhase,
}

/// The form is looked for at most this many times.
pub const HDK_FORM_STEPS: u32 = 240;

/// Pages past the login must show this many times in a row before the login.
pub const HDK_STABLE_BEFORE: u32 = 6;

/// The result of a login is looked for at most this many times.
pub const HDK_RESULT_STEPS: u32 = 60;

/// Pages past the login must show this many times in a row after the login.
pub const HDK_STABLE_AFTER: u32 = 4;

/// The phase of the next look at the page after the login.
pub open spec fn hdk_next_look(step: u32, stable: u32, otp_done: bool) -> HdkPhase {
    if step + 1 < HDK_RESULT_STEPS {
        HdkPhase::Awaiting { step: (step + 1) as u32, stable, otp_done }
    } else {
        HdkPhase::Done(HdkEnd::Failed(HdkFailure::StillOnLogin))
    }
}

fn next_look(step: u32, stable: u32, otp_done: bool) -> (r: HdkPhase)
    requires
        step < HDK_RESULT_STEPS,
    ensures
        r == hdk_next_look(step, stable, otp_done),
{
    if step + 1 < HDK_RESULT_STEPS {
        HdkPhase::Awaiting { step: step + 1, stable, otp_done }
    } else {
        HdkPhase::Done(HdkEnd::Failed(HdkFailure::StillOnLogin))
    }
}

impl HdkLogin {
    pub open spec fn at(self, phase: HdkPhase) -> HdkLogin {
        HdkLogin { phase, ..self }
    }

    pub open spec fn fail(self, f: HdkFailure) -> HdkLogin {
        self.at(HdkPhase::Done(HdkEnd::Failed(f)))
    }

    /// The counters stay within the limits of their loops.
    pub open spec fn well_formed(self) -> bool {
        match self.phase {
            HdkPhase::FindForm { step, stable } => step < HDK_FORM_STEPS && stable
                < HDK_STABLE_BEFORE,
            HdkPhase::FindFormPause { step, stable } => step < HDK_FORM_STEPS && stable
                < HDK_STABLE_BEFORE,
            HdkPhase::Awaiting { step, stable, .. } => step < HDK_RESULT_STEPS && stable
                < HDK_STABLE_AFTER,
            HdkPhase::MakingCode { step } => step < HDK_RESULT_STEPS,
            HdkPhase::SubmittingOtp { step } => step < HDK_RESULT_STEPS,
            _ => true,
        }
    }

    /// What a page shows while the form is looked for.
    pub open spec fn form_seen(
        self,
        step: u32,
        stable: u32,
        page: Option<HdkLoginPageState>,
    ) -> HdkLogin {
        match page {
            None => self.at(HdkPhase::FindFormPause { step, stable }),
            Some(p) => if p.blocked_debug {
                self.fail(HdkFailure::DebugBlocked)
            } else if p.has_captcha {
                self.fail(HdkFailure::CaptchaRequired)
            } else if p.has_login_form {
                self.at(HdkPhase::TypingUsername)
            } else if p.ready && !p.challenge && p.path@ != "/login.php"@ {
                if stable + 1 >= HDK_STABLE_BEFORE {
                    self.at(HdkPhase::Done(HdkEnd::AlreadyLoggedIn))
                } else {
                    self.at(HdkPhase::FindFormPause { step, stable: (stable + 1) as u32 })
                }
            } else {
                self.at(HdkPhase::FindFormPause { step, stable: 0 })
            },
        }
    }

    /// What a page shows after the login.
    pub open spec fn result_seen(
        self,
        step: u32,
        stable: u32,
        otp_done: bool,
        page: Option<HdkLoginPageState>,
    ) -> HdkLogin {
        match page {
            None => self.at(hdk_next_look(step, stable, otp_done)),
            Some(p) => if p.blocked_debug {
                self.fail(HdkFailure::BlockedDuringLogin)
            } else if p.has_captcha {
                self.fail(HdkFailure::CaptchaAfterLogin)
            } else if p.has_otp && !otp_done {
                if self.has_secret {
                    self.at(HdkPhase::MakingCode { step })
                } else {
                    self.fail(HdkFailure::SecretMissing)
                }
            } else if p.ready && !p.challenge && !p.has_login_form {
                if stable + 1 >= HDK_STABLE_AFTER {
                    self.at(HdkPhase::Done(HdkEnd::LoggedIn))
                } else {
                    self.at(hdk_next_look(step, (stable + 1) as u32, otp_done))
                }
            } else {
                self.at(hdk_next_look(step, 0, otp_done))
            },
        }
    }

    /// The state after an event. One that the pending action cannot cause changes
    /// nothing.
    pub open spec fn next(self, event: FormEvent<HdkLoginPageState>) -> HdkLogin {
        match (self.phase, event) {
            (HdkPhase::FindForm { step, stable }, FormEvent::Page(page)) => self.form_seen(
                step,
                stable,
                page,
            ),
            (HdkPhase::FindFormPause { step, stable }, FormEvent::Slept) => if step + 1
                < HDK_FORM_STEPS {
                self.at(HdkPhase::FindForm { step: (step + 1) as u32, stable })
            } else {
                self.fail(HdkFailure::FormTimeout)
            },
            (HdkPhase::TypingUsername, FormEvent::Acted(ok)) => if ok {
                self.at(HdkPhase::TypingPassword)
            } else {
                self.fail(HdkFailure::UsernameMissing)
            },
            (HdkPhase::TypingPassword, FormEvent::Acted(ok)) => if ok {
                self.at(HdkPhase::Clicking)
            } else {
                self.fail(HdkFailure::PasswordMissing)
            },
            (HdkPhase::Clicking, FormEvent::Acted(ok)) => if ok {
                self.at(HdkPhase::Awaiting { step: 0, stable: 0, otp_done: false })
            } else {
                self.fail(HdkFailure::ButtonMissing)
            },
            (HdkPhase::Awaiting { step, stable, otp_done }, FormEvent::Page(page)) =>
                self.result_seen(step, stable, otp_done, page),
            (HdkPhase::MakingCode { step }, FormEvent::Outside(ok)) => if ok {
                self.at(HdkPhase::SubmittingOtp { step })
            } else {
                self.fail(HdkFailure::Outside)
            },
            (HdkPhase::SubmittingOtp { step }, FormEvent::Acted(ok)) => if ok {
                self.at(hdk_next_look(step, 0, true))
            } else {
                self.fail(HdkFailure::OtpFailed)
            },
            _ => self,
        }
    }

    /// What has to be done in this state.
    pub open spec fn pending(self) -> FormAction {
        match self.phase {
            HdkPhase::FindForm { .. } => FormAction::ReadPage { after_millis: 0 },
            HdkPhase::FindFormPause { .. } => FormAction::Sleep { millis: 500 },
            HdkPhase::TypingUsername => FormAction::Type {
                field: FormField::Username,
                pause_min: 650,
                pause_max: 1400,
                key_min: 45,
                key_max: 120,
            },
            HdkPhase::TypingPassword => FormAction::Type {
                field: FormField::Password,
                pause_min: 500,
                pause_max: 1200,
                key_min: 55,
                key_max: 140,
            },
            HdkPhase::Clicking => FormAction::Click { pause_min: 750, pause_max: 1650 },
            HdkPhase::Awaiting { .. } => FormAction::ReadPage { after_millis: 250 },
            HdkPhase::MakingCode { .. } => FormAction::MakeCode,
            HdkPhase::SubmittingOtp { .. } => FormAction::SubmitOtp {
                pause_min: 550,
                pause_max: 1200,
            },
            HdkPhase::Done(_) => FormAction::Finish,
        }
    }

    /// A login that has not begun yet.
    pub fn begin(has_secret: bool) -> (r: HdkLogin)
        ensures
            r == (HdkLogin { has_secret, phase: HdkPhase::FindForm { step: 0, stable: 0 } }),
            r.well_formed(),
    {
        HdkLogin { has_secret, phase: HdkPhase::FindForm { step: 0, stable: 0 } }
    }

    /// What has to be done in this state.
    pub fn action(&self) -> (r: FormAction)
        ensures
            r == self.pending(),
    {
        match self.phase {
            HdkPhase::FindForm { .. } => FormAction::ReadPage { after_millis: 0 },
            HdkPhase::FindFormPause { .. } => FormAction::Sleep { millis: 500 },
            HdkPhase::TypingUsername => FormAction::Type {
                field: FormField::Username,
                pause_min: 650,
                pause_max: 1400,
                key_min: 45,
                key_max: 120,
            },
            HdkPhase::TypingPassword => FormAction::Type {
                field: FormField::Password,
                pause_min: 500,
                pause_max: 1200,
                key_min: 55,
                key_max: 140,
            },
            HdkPhase::Clicking => FormAction::Click { pause_min: 750, pause_max: 1650 },
            HdkPhase::Awaiting { .. } => FormAction::ReadPage { after_millis: 250 },
            HdkPhase::MakingCode { .. } => FormAction::MakeCode,
            HdkPhase::SubmittingOtp { .. } => FormAction::SubmitOtp {
                pause_min: 550,
                pause_max: 1200,
            },
            HdkPhase::Done(_) => FormAction::Finish,
        }
    }

    fn set_failed(&mut self, f: HdkFailure)
        ensures
            *final(self) == old(self).fail(f),
    {
        self.phase = HdkPhase::Done(HdkEnd::Failed(f));
    }

    fn see_form(&mut self, step: u32, stable: u32, page: &Option<HdkLoginPageState>)
        requires
            stable < HDK_STABLE_BEFORE,
        ensures
            *final(self) == old(self).form_seen(step, stable, *page),
    {
        match page {
            None => {
                self.phase = HdkPhase::FindFormPause { step, stable };
            },
            Some(p) => {
                if p.blocked_debug {
                    self.set_failed(HdkFailure::DebugBlocked);
                } else if p.has_captcha {
                    self.set_failed(HdkFailure::CaptchaRequired);
                } else if p.has_login_form {
                    self.phase = HdkPhase::TypingUsername;
                } else if p.ready && !p.challenge && !str_eq(p.path.as_str(), "/login.php") {
                    if stable + 1 >= HDK_STABLE_BEFORE {
                        self.phase = HdkPhase::Done(HdkEnd::AlreadyLoggedIn);
                    } else {
                        self.phase = HdkPhase::FindFormPause { step, stable: stable + 1 };
                    }
                } else {
                    self.phase = HdkPhase::FindFormPause { step, stable: 0 };
                }
            },
        }
    }

    fn see_result(
        &mut self,
        step: u32,
        stable: u32,
        otp_done: bool,
        page: &Option<HdkLoginPageState>,
    )
        requires
            step < HDK_RESULT_STEPS,
            stable < HDK_STABLE_AFTER,
        ensures
            *final(self) == old(self).result_seen(step, stable, otp_done, *page),
    {
        match page {
            None => {
                self.phase = next_look(step, stable, otp_done);
            },
            Some(p) => {
                if p.blocked_debug {
                    self.set_failed(HdkFailure::BlockedDuringLogin);
                } else if p.has_captcha {
                    self.set_failed(HdkFailure::CaptchaAfterLogin);
                } else if p.has_otp && !otp_done {
                    if self.has_secret {
                        self.phase = HdkPhase::MakingCode { step };
                    } else {
                        self.set_failed(HdkFailure::SecretMissing);
                    }
                } else if p.ready && !p.challenge && !p.has_login_form {
                    if stable + 1 >= HDK_STABLE_AFTER {
                        self.phase = HdkPhase::Done(HdkEnd::LoggedIn);
                    } else {
                        self.phase = next_look(step, stable + 1, otp_done);
                    }
                } else {
                    self.phase = next_look(step, 0, otp_done);
                }
            },
        }
    }

    /// Takes in what came of the pending action.
    pub fn advance(&mut self, event: &FormEvent<HdkLoginPageState>)
        requires
            old(self).well_formed(),
        ensures
            *final(self) == old(self).next(*event),
            final(self).well_formed(),
    {
        match (self.phase, event) {
            (HdkPhase::FindForm { step, stable }, FormEvent::Page(page)) => {
                self.see_form(step, stable, page);
            },
            (HdkPhase::FindFormPause { step, stable }, FormEvent::Slept) => {
                if step + 1 < HDK_FORM_STEPS {
                    self.phase = HdkPhase::FindForm { step: step + 1, stable };
                } else {
                    self.set_failed(HdkFailure::FormTimeout);
                }
            },
            (HdkPhase::TypingUsername, FormEvent::Acted(ok)) => {
                if *ok {
                    self.phase = HdkPhase::TypingPassword;
                } else {
                    self.set_failed(HdkFailure::UsernameMissing);
                }
            },
            (HdkPhase::TypingPassword, FormEvent::Acted(ok)) => {
                if *ok {
                    self.phase = HdkPhase::Clicking;
                } else {
                    self.set_failed(HdkFailure::PasswordMissing);
                }
            },
            (HdkPhase::Clicking, FormEvent::Acted(ok)) => {
                if *ok {
                    self.phase = HdkPhase::Awaiting { step: 0, stable: 0, otp_done: false };
                } else {
                    self.set_failed(HdkFailure::ButtonMissing);
                }
            },
            (HdkPhase::Awaiting { step, stable, otp_done }, FormEvent::Page(page)) => {
                self.see_result(step, stable, otp_done, page);
            },
            (HdkPhase::MakingCode { step }, FormEvent::Outside(ok)) => {
                if *ok {
                    self.phase = HdkPhase::SubmittingOtp { step };
                } else {
                    self.set_failed(HdkFailure::Outside);
                }
            },
            (HdkPhase::SubmittingOtp { step }, FormEvent::Acted(ok)) => {
                if *ok {
                    self.phase = next_look(step, 0, true);
                } else {
                    self.set_failed(HdkFailure::OtpFailed);
                }
            },
            _ => {},
        }
    }

    /// An upper bound on the number of actions until the login ends.
    pub open spec fn steps_left(self) -> int {
        match self.phase {
            HdkPhase::FindForm { step, .. } => 300 + 2 * (HDK_FORM_STEPS - step),
            HdkPhase::FindFormPause { step, .. } => 299 + 2 * (HDK_FORM_STEPS - step),
            HdkPhase::TypingUsername => 203,
            HdkPhase::TypingPassword => 202,
            HdkPhase::Clicking => 201,
            HdkPhase::Awaiting { step, .. } => 3 * (HDK_RESULT_STEPS - step),
            HdkPhase::MakingCode { step } => 3 * (HDK_RESULT_STEPS - step) - 1,
            HdkPhase::SubmittingOtp { step } => 3 * (HDK_RESULT_STEPS - step) - 2,
            HdkPhase::Done(_) => 0,
        }
    }
}

/// Every answered action brings a login closer to its end.
pub proof fn hdk_login_ends(s: HdkLogin, event: FormEvent<HdkLoginPageState>)
    requires
        s.well_formed(),
        form_event_fits(s.pending(), event),
    ensures
        s.next(event).well_formed(),
        0 <= s.next(event).steps_left() < s.steps_left(),
{
}

/// Credentials are only typed into a form that shows neither a captcha nor a block
/// by the firewall.
pub proof fn hdk_types_only_unguarded(s: HdkLogin, event: FormEvent<HdkLoginPageState>)
    requires
        !(s.phase is TypingUsername),
        s.next(event).phase is TypingUsername,
    ensures
        event matches FormEvent::Page(Some(p)) && p.has_login_form && !p.has_captcha
            && !p.blocked_debug,
{
}

/// Whether a one-time code was already submitted.
pub open spec fn hdk_otp_done(s: HdkLogin) -> bool {
    match s.phase {
        HdkPhase::Awaiting { otp_done, .. } => otp_done,
        HdkPhase::Done(_) => true,
        _ => false,
    }
}

/// A one-time code is submitted at most once: after it was, the flow never asks for
/// another one.
pub proof fn hdk_submits_one_code(s: HdkLogin, event: FormEvent<HdkLoginPageState>)
    requires
        hdk_otp_done(s),
    ensures
        hdk_otp_done(s.next(event)),
        !(s.next(event).pending() is SubmitOtp),
{
}

/// The text for a failure; `detail` is the text of a step outside the flow.
pub open spec fn hdk_failure_text(f: HdkFailure, detail: Seq<char>) -> Seq<char> {
    match f {
        HdkFailure::TabMissing => "无法连接 HDKylin 标签页"@,
        HdkFailure::Outside => detail,
        HdkFailure::DebugBlocked =>
            "雷池 WAF 检测到调试环境，需要在专用 Chrome 中人工完成验证"@,
        HdkFailure::CaptchaRequired => "HDKylin 登录页要求图形验证码，需要人工完成"@,
        HdkFailure::FormTimeout => "等待 HDKylin 安全检测放行超时（120 秒）"@,
        HdkFailure::UsernameMissing => "未找到 HDKylin 用户名输入框"@,
        HdkFailure::PasswordMissing => "未找到 HDKylin 密码输入框"@,
        HdkFailure::ButtonMissing => "未找到 HDKylin 登录按钮"@,
        HdkFailure::BlockedDuringLogin => "登录过程中被雷池 WAF 拦截，需要人工完成验证"@,
        HdkFailure::CaptchaAfterLogin => "HDKylin 要求图形验证码，需要人工完成"@,
        HdkFailure::SecretMissing => "HDKylin 要求 2FA，但站点未配置 2FA 密钥"@,
        HdkFailure::OtpFailed => "检测到 HDKylin 2FA，但未能填写或提交验证码"@,
        HdkFailure::StillOnLogin =>
            "HDKylin 登录后仍停留在登录页，请检查凭据或人工验证要求"@,
    }
}

/// The text for a failure; `detail` is the text of a step outside the flow.
pub fn hdk_failure_message(f: HdkFailure, detail: &str) -> (r: String)
    ensures
        r@ == hdk_failure_text(f, detail@),
{
    match f {
        HdkFailure::TabMissing => "无法连接 HDKylin 标签页".to_string(),
        HdkFailure::Outside => detail.to_string(),
        HdkFailure::DebugBlocked =>
            "雷池 WAF 检测到调试环境，需要在专用 Chrome 中人工完成验证".to_string(),
        HdkFailure::CaptchaRequired =>
            "HDKylin 登录页要求图形验证码，需要人工完成".to_string(),
        HdkFailure::FormTimeout => "等待 HDKylin 安全检测放行超时（120 秒）".to_string(),
        HdkFailure::UsernameMissing => "未找到 HDKylin 用户名输入框".to_string(),
        HdkFailure::PasswordMissing => "未找到 HDKylin 密码输入框".to_string(),
        HdkFailure::ButtonMissing => "未找到 HDKylin 登录按钮".to_string(),
        HdkFailure::BlockedDuringLogin =>
            "登录过程中被雷池 WAF 拦截，需要人工完成验证".to_string(),
        HdkFailure::CaptchaAfterLogin => "HDKylin 要求图形验证码，需要人工完成".to_string(),
        HdkFailure::SecretMissing => "HDKylin 要求 2FA，但站点未配置 2FA 密钥".to_string(),
        HdkFailure::OtpFailed => "检测到 HDKylin 2FA，但未能填写或提交验证码".to_string(),
        HdkFailure::StillOnLogin =>
            "HDKylin 登录后仍停留在登录页，请检查凭据或人工验证要求".to_string(),
    }
}

// ---------------------------------------------------------------- what a login does

/// A login fails over a field, a button or a code exactly where that very one was not there.
pub proof fn hdk_missing_control_is_the_one_used(s: HdkLogin, event: FormEvent<HdkLoginPageState>)
    requires
        !(s.phase is Done),
    ensures
        ({
            let end = s.next(event).phase;
            let doing = s.pending();
            let missed = event == FormEvent::<HdkLoginPageState>::Acted(false);
            let typing = doing is Type && missed;
            &&& end == HdkPhase::Done(HdkEnd::Failed(HdkFailure::UsernameMissing)) <==> typing
                && doing->field == FormField::Username
            &&& end == HdkPhase::Done(HdkEnd::Failed(HdkFailure::PasswordMissing)) <==> typing
                && doing->field == FormField::Password
            &&& end == HdkPhase::Done(HdkEnd::Failed(HdkFailure::ButtonMissing))
                <==> doing is Click && missed
            &&& end == HdkPhase::Done(HdkEnd::Failed(HdkFailure::OtpFailed))
                <==> doing is SubmitOtp && missed
            &&& end == HdkPhase::Done(HdkEnd::Failed(HdkFailure::Outside))
                <==> doing is MakeCode && event == FormEvent::<HdkLoginPageState>::Outside(false)
            &&& (doing is Type || doing is Click) && event
                == FormEvent::<HdkLoginPageState>::Acted(true) ==> !(end is Done)
        }),
{
}

/// The form is filled in and sent in order: the user name, the password, the button; the
/// result is looked at after the button was clicked, and after a code was submitted.
pub proof fn hdk_fills_in_order(s: HdkLogin, event: FormEvent<HdkLoginPageState>)
    requires
        s.well_formed(),
        form_event_fits(s.pending(), event),
    ensures
        ({
            let t = s.next(event);
            let done = event == FormEvent::<HdkLoginPageState>::Acted(true);
            &&& t.phase is TypingPassword <==> s.phase is TypingUsername && done
            &&& t.phase is Clicking <==> s.phase is TypingPassword && done
            &&& s.phase is Clicking && done ==> t.phase == (HdkPhase::Awaiting {
                step: 0,
                stable: 0,
                otp_done: false,
            })
            &&& s.phase is SubmittingOtp && done && s.phase->SubmittingOtp_step < 59 ==> t.phase
                == (HdkPhase::Awaiting {
                step: (s.phase->SubmittingOtp_step + 1) as u32,
                stable: 0,
                otp_done: true,
            })
            &&& t.phase is Awaiting ==> s.phase is Clicking || s.phase is SubmittingOtp
                || s.phase is Awaiting && t.phase->Awaiting_otp_done == s.phase->Awaiting_otp_done
                && t.phase->Awaiting_step == s.phase->Awaiting_step + 1
            &&& t.phase is SubmittingOtp <==> s.phase is MakingCode && event
                == FormEvent::<HdkLoginPageState>::Outside(true)
            &&& t.phase is SubmittingOtp ==> t.phase->SubmittingOtp_step
                == s.phase->MakingCode_step
            &&& t.has_secret == s.has_secret
        }),
{
}

/// While the form is looked for, a page that is blocked or asks for a captcha fails the login,
/// a form is filled in, and six pages in a row past the login mean that it was done before.
pub proof fn hdk_finds_its_form(s: HdkLogin, event: FormEvent<HdkLoginPageState>)
    requires
        s.well_formed(),
        form_event_fits(s.pending(), event),
    ensures
        ({
            let t = s.next(event);
            let page = event->Page_0;
            let looking = s.phase is FindForm && page is Some;
            let clear = looking && !(page->0).blocked_debug && !(page->0).has_captcha;
            let past = clear && !(page->0).has_login_form && (page->0).ready && !(
            page->0).challenge && (page->0).path@ != "/login.php"@;
            &&& t.phase == HdkPhase::Done(HdkEnd::Failed(HdkFailure::DebugBlocked)) <==> looking && (
            page->0).blocked_debug
            &&& t.phase == HdkPhase::Done(HdkEnd::Failed(HdkFailure::CaptchaRequired)) <==> looking
                && !(page->0).blocked_debug && (page->0).has_captcha
            &&& t.phase is TypingUsername <==> clear && (page->0).has_login_form
            &&& t.phase == HdkPhase::Done(HdkEnd::AlreadyLoggedIn) <==> past
                && s.phase->FindForm_stable + 1 == 6
            &&& t.phase is FindFormPause ==> s.phase is FindForm && t.phase->FindFormPause_step
                == s.phase->FindForm_step && t.phase->FindFormPause_stable == (if page is None {
                s.phase->FindForm_stable as int
            } else if past {
                s.phase->FindForm_stable + 1
            } else {
                0
            })
            &&& t.phase is FindForm ==> s.phase is FindFormPause && t.phase->FindForm_step
                == s.phase->FindFormPause_step + 1 && t.phase->FindForm_stable
                == s.phase->FindFormPause_stable
            &&& t.phase == HdkPhase::Done(HdkEnd::Failed(HdkFailure::FormTimeout))
                <==> s.phase is FindFormPause && s.phase->FindFormPause_step + 1 == 240
        }),
{
}

/// After the form was sent, a page that is blocked or asks for a captcha fails the login, a
/// code is made where one is asked for and a secret is at hand, and the login is done once
/// four pages in a row show no form.
pub proof fn hdk_reads_the_result(s: HdkLogin, event: FormEvent<HdkLoginPageState>)
    requires
        s.well_formed(),
        form_event_fits(s.pending(), event),
    ensures
        ({
            let t = s.next(event);
            let page = event->Page_0;
            let waiting = s.phase is Awaiting && page is Some;
            let clear = waiting && !(page->0).blocked_debug && !(page->0).has_captcha;
            let asked = clear && (page->0).has_otp && !s.phase->Awaiting_otp_done;
            let past = clear && !asked && (page->0).ready && !(page->0).challenge && !(
            page->0).has_login_form;
            let last = s.phase->Awaiting_step + 1 == 60;
            &&& t.phase == HdkPhase::Done(HdkEnd::Failed(HdkFailure::BlockedDuringLogin))
                <==> waiting && (page->0).blocked_debug
            &&& t.phase == HdkPhase::Done(HdkEnd::Failed(HdkFailure::CaptchaAfterLogin))
                <==> waiting && !(page->0).blocked_debug && (page->0).has_captcha
            &&& t.phase is MakingCode <==> asked && s.has_secret
            &&& t.phase is MakingCode ==> t.phase->MakingCode_step == s.phase->Awaiting_step
            &&& t.phase == HdkPhase::Done(HdkEnd::Failed(HdkFailure::SecretMissing)) <==> asked
                && !s.has_secret
            &&& t.phase == HdkPhase::Done(HdkEnd::LoggedIn) <==> past && s.phase->Awaiting_stable
                + 1 == 4
            &&& t.phase is Awaiting && s.phase is Awaiting ==> t.phase->Awaiting_stable == (
            if page is None {
                s.phase->Awaiting_stable as int
            } else if past {
                s.phase->Awaiting_stable + 1
            } else {
                0
            })
            &&& s.phase is Awaiting && !last && (page is None || clear && !asked && !past)
                ==> t.phase is Awaiting
            &&& t.phase == HdkPhase::Done(HdkEnd::Failed(HdkFailure::StillOnLogin))
                ==> s.phase is Awaiting && last || s.phase is SubmittingOtp
                && s.phase->SubmittingOtp_step + 1 == 60
            &&& t.phase != HdkPhase::Done(HdkEnd::Failed(HdkFailure::TabMissing))
        }),
{
}

/// The text for what is missing names the very thing that is missing.
pub proof fn hdk_text_names_what_is_missing(detail: Seq<char>)
    ensures
        contains_text(hdk_failure_text(HdkFailure::UsernameMissing, detail), "用户名"@),
        contains_text(hdk_failure_text(HdkFailure::PasswordMissing, detail), "密码"@),
        contains_text(hdk_failure_text(HdkFailure::ButtonMissing, detail), "登录按钮"@),
        contains_text(hdk_failure_text(HdkFailure::SecretMissing, detail), "2FA 密钥"@),
        contains_text(hdk_failure_text(HdkFailure::OtpFailed, detail), "验证码"@),
        contains_text(hdk_failure_text(HdkFailure::CaptchaRequired, detail), "图形验证码"@),
        contains_text(hdk_failure_text(HdkFailure::FormTimeout, detail), "超时"@),
{
    reveal_strlit("未找到 HDKylin 用户名输入框");
    reveal_strlit("用户名");
    assert("未找到 HDKylin 用户名输入框"@.subrange(12, 15) =~= "用户名"@);
    assert(occurs_at("未找到 HDKylin 用户名输入框"@, "用户名"@, 12));
    reveal_strlit("未找到 HDKylin 密码输入框");
    reveal_strlit("密码");
    assert("未找到 HDKylin 密码输入框"@.subrange(12, 14) =~= "密码"@);
    assert(occurs_at("未找到 HDKylin 密码输入框"@, "密码"@, 12));
    reveal_strlit("未找到 HDKylin 登录按钮");
    reveal_strlit("登录按钮");
    assert("未找到 HDKylin 登录按钮"@.subrange(12, 16) =~= "登录按钮"@);
    assert(occurs_at("未找到 HDKylin 登录按钮"@, "登录按钮"@, 12));
    reveal_strlit("HDKylin 要求 2FA，但站点未配置 2FA 密钥");
    reveal_strlit("2FA 密钥");
    assert("HDKylin 要求 2FA，但站点未配置 2FA 密钥"@.subrange(22, 28) =~= "2FA 密钥"@);
    assert(occurs_at("HDKylin 要求 2FA，但站点未配置 2FA 密钥"@, "2FA 密钥"@, 22));
    reveal_strlit("检测到 HDKylin 2FA，但未能填写或提交验证码");
    reveal_strlit("验证码");
    assert("检测到 HDKylin 2FA，但未能填写或提交验证码"@.subrange(24, 27) =~= "验证码"@);
    assert(occurs_at("检测到 HDKylin 2FA，但未能填写或提交验证码"@, "验证码"@, 24));
    reveal_strlit("HDKylin 登录页要求图形验证码，需要人工完成");
    reveal_strlit("图形验证码");
    assert("HDKylin 登录页要求图形验证码，需要人工完成"@.subrange(13, 18) =~= "图形验证码"@);
    assert(occurs_at("HDKylin 登录页要求图形验证码，需要人工完成"@, "图形验证码"@, 13));
    reveal_strlit("等待 HDKylin 安全检测放行超时（120 秒）");
    reveal_strlit("超时");
    assert("等待 HDKylin 安全检测放行超时（120 秒）"@.subrange(17, 19) =~= "超时"@);
    assert(occurs_at("等待 HDKylin 安全检测放行超时（120 秒）"@, "超时"@, 17));
}

} // verus!
