//! Recognising the captcha on the login page of a site and filling it in.

use crate::login::{adapter_for, login_result, LoginError, LoginOutcome, SiteAdapter};
use crate::login_test::{attempts_message, attempts_text, attempts_told, opt_site};
use crate::notes::{no_notes, note_views, one_note, push_note};
use crate::number::{decimal, decimal_of};
use crate::ocr::{step_result, RecognitionResult, RecognitionView};
use crate::scheduler::{has_credentials, is_blank, site_has_credentials, LogLevel};
use crate::store::{AppConfig, Site, SiteView};
use crate::text::{chars_of, contains_str, contains_text, text_result, trimmed};
use vstd::prelude::*;

verus! {

/// How far the recognition has come.
#[derive(Debug, Clone, Copy, PartialEq, Eq, Structural)]
pub enum CaptchaPhase {
    /// The recognition service is made ready.
    Preparing,
    FindingPort,
    FindingTab,
    /// After a failed captcha a new one is asked for.
    Renewing,
    /// The attempts that are left are read; `renewed` tells whether a new captcha was
    /// asked for.
    Counting { renewed: bool },
    /// The form is filled in again.
    Refilling,
    /// The image is read.
    Reading,
    Recognising,
    Filling,
    Done,
}

/// What is to be done next.
#[derive(Debug)]
pub enum CaptchaAction {
    Prepare,
    FindPort,
    FindTab,
    Renew,
    Count,
    /// Fill in the form again, without recognising its captcha.
    Refill,
    ReadImage,
    Recognise(String),
    Fill(String),
    Finish(Result<String, String>),
    /// Go on with the pending action.
    Keep,
}

/// What a `CaptchaAction` says.
pub enum CaptchaView {
    Prepare,
    FindPort,
    FindTab,
    Renew,
    Count,
    Refill,
    ReadImage,
    Recognise(Seq<char>),
    Fill(Seq<char>),
    Finish(Result<Seq<char>, Seq<char>>),
    Keep,
}

impl View for CaptchaAction {
    type V = CaptchaView;

    open spec fn view(&self) -> CaptchaView {
        match *self {
            CaptchaAction::Prepare => CaptchaView::Prepare,
            CaptchaAction::FindPort => CaptchaView::FindPort,
            CaptchaAction::FindTab => CaptchaView::FindTab,
            CaptchaAction::Renew => CaptchaView::Renew,
            CaptchaAction::Count => CaptchaView::Count,
            CaptchaAction::Refill => CaptchaView::Refill,
            CaptchaAction::ReadImage => CaptchaView::ReadImage,
            CaptchaAction::Recognise(t) => CaptchaView::Recognise(t@),
            CaptchaAction::Fill(t) => CaptchaView::Fill(t@),
            CaptchaAction::Finish(r) => CaptchaView::Finish(text_result(r)),
            CaptchaAction::Keep => CaptchaView::Keep,
        }
    }
}

/// What came of an action.
#[derive(Debug)]
pub enum CaptchaEvent {
    /// Whether a step succeeded.
    Step(Result<(), String>),
    /// Whether a browser or a tab was found.
    Found(bool),
    /// Whether a new captcha was asked for.
    Renewed(Result<bool, String>),
    /// The attempts that are left.
    Counted(Result<Option<u32>, String>),
    Refilled(Result<LoginOutcome, LoginError>),
    Image(Result<String, String>),
    Recognised(Result<RecognitionResult, String>),
    /// The recognition was broken off.
    Aborted(String),
}

/// What a `CaptchaEvent` says.
pub enum CaptchaEventView {
    Step(Result<(), Seq<char>>),
    Found(bool),
    Renewed(Result<bool, Seq<char>>),
    Counted(Result<Option<u32>, Seq<char>>),
    Refilled(Result<LoginOutcome, (Seq<char>, Option<u32>)>),
    Image(Result<Seq<char>, Seq<char>>),
    Recognised(Result<RecognitionView, Seq<char>>),
    Aborted(Seq<char>),
}

impl View for CaptchaEvent {
    type V = CaptchaEventView;

    open spec fn view(&self) -> CaptchaEventView {
        match *self {
            CaptchaEvent::Step(r) => CaptchaEventView::Step(step_result(r)),
            CaptchaEvent::Found(b) => CaptchaEventView::Found(b),
            CaptchaEvent::Renewed(r) => CaptchaEventView::Renewed(
                match r {
                    Ok(b) => Ok(b),
                    Err(e) => Err(e@),
                },
            ),
            CaptchaEvent::Counted(r) => CaptchaEventView::Counted(
                match r {
                    Ok(n) => Ok(n),
                    Err(e) => Err(e@),
                },
            ),
            CaptchaEvent::Refilled(r) => CaptchaEventView::Refilled(login_result(r)),
            CaptchaEvent::Image(r) => CaptchaEventView::Image(text_result(r)),
            CaptchaEvent::Recognised(r) => CaptchaEventView::Recognised(
                match r {
                    Ok(x) => Ok(x@),
                    Err(e) => Err(e@),
                },
            ),
            CaptchaEvent::Aborted(t) => CaptchaEventView::Aborted(t@),
        }
    }
}

/// The recognition of the captcha of a site.
#[derive(Debug)]
pub struct CaptchaRun {
    pub name: String,
    /// Whether the site has a user name and a password.
    pub credentials: bool,
    /// The number of attempts at which logins stop.
    pub min_remaining: u8,
    /// How many tries a recognition has.
    pub tries: u8,
    pub phase: CaptchaPhase,
}

/// What a `CaptchaRun` says.
pub struct CaptchaModel {
    pub name: Seq<char>,
    pub credentials: bool,
    pub min_remaining: u8,
    pub tries: u8,
    pub phase: CaptchaPhase,
}

impl View for CaptchaRun {
    type V = CaptchaModel;

    open spec fn view(&self) -> CaptchaModel {
        CaptchaModel {
            name: self.name@,
            credentials: self.credentials,
            min_remaining: self.min_remaining,
            tries: self.tries,
            phase: self.phase,
        }
    }
}

/// What to tell the user, which number of attempts to note for the site, and what to do
/// next.
#[derive(Debug)]
pub struct CaptchaTurn {
    pub notes: Vec<(LogLevel, String)>,
    pub remaining: Option<u32>,
    pub action: CaptchaAction,
}

/// A state with what to tell, to note and to do in it.
pub struct CaptchaStep {
    pub state: CaptchaModel,
    pub notes: Seq<(LogLevel, Seq<char>)>,
    pub remaining: Option<u32>,
    pub action: CaptchaView,
}

/// What a state and a turn amount to.
pub open spec fn captcha_step(state: CaptchaModel, turn: CaptchaTurn) -> CaptchaStep {
    CaptchaStep {
        state,
        notes: note_views(turn.notes@),
        remaining: turn.remaining,
        action: turn.action@,
    }
}

/// What is told where too few attempts are left.
pub open spec fn threshold_text(site: Seq<char>, remaining: u32, min_remaining: u8) -> Seq<char> {
    site + " 当前仅剩 "@ + decimal(remaining as nat)
        + " 次登录机会，已达到安全阈值 "@ + decimal(min_remaining as nat)
        + "，停止验证码识别与登录重试"@
}

fn threshold_message(site: &str, remaining: u32, min_remaining: u8) -> (r: String)
    ensures
        r@ == threshold_text(site@, remaining, min_remaining),
{
    site.to_string().concat(" 当前仅剩 ").concat(
        decimal_of(remaining as u64).as_str(),
    ).concat(" 次登录机会，已达到安全阈值 ").concat(
        decimal_of(min_remaining as u64).as_str(),
    ).concat("，停止验证码识别与登录重试")
}

/// Why filling in the form again did not help; nothing where only the captcha is missing.
pub open spec fn refill_problem(
    result: Result<LoginOutcome, (Seq<char>, Option<u32>)>,
) -> Option<Seq<char>> {
    match result {
        Ok(_) => Some("Audiences 当前不再需要图片验证码"@),
        Err((message, _)) => if contains_text(message, "登录信息已填写"@) {
            None
        } else {
            Some("重新填写 Audiences 登录信息失败："@ + message)
        },
    }
}

impl CaptchaModel {
    pub open spec fn step(
        self,
        phase: CaptchaPhase,
        notes: Seq<(LogLevel, Seq<char>)>,
        action: CaptchaView,
    ) -> CaptchaStep {
        CaptchaStep { state: CaptchaModel { phase, ..self }, notes, remaining: None, action }
    }

    pub open spec fn fail(
        self,
        notes: Seq<(LogLevel, Seq<char>)>,
        message: Seq<char>,
    ) -> CaptchaStep {
        self.step(CaptchaPhase::Done, notes, CaptchaView::Finish(Err(message)))
    }

    /// Going on with the attempts that are left: below the threshold nothing more is
    /// tried.
    pub open spec fn counted(self, renewed: bool, remaining: Option<u32>) -> CaptchaStep {
        let told = match remaining {
            Some(n) => seq![(LogLevel::Info, attempts_text(self.name, n, self.min_remaining))],
            None => Seq::empty(),
        };
        let step = if remaining matches Some(n) && n <= self.min_remaining {
            let message = threshold_text(self.name, remaining->0, self.min_remaining);
            self.fail(told.push((LogLevel::Error, message)), message)
        } else if renewed {
            let notes = told.push(
                (
                    LogLevel::Info,
                    self.name
                        + " 检测到上次验证码无效，已获取新验证码，准备再次尝试登录"@,
                ),
            );
            if self.credentials {
                self.step(CaptchaPhase::Refilling, notes, CaptchaView::Refill)
            } else {
                self.fail(
                    notes,
                    "已获取新的图片验证码，但站点用户名或密码未配置"@,
                )
            }
        } else {
            self.step(
                CaptchaPhase::Reading,
                told.push(
                    (
                        LogLevel::Info,
                        self.name
                            + " 未检测到验证码失败页，本次不执行登录重试，仅识别当前验证码"@,
                    ),
                ),
                CaptchaView::ReadImage,
            )
        };
        CaptchaStep { remaining, ..step }
    }

    /// Going on with the form that was filled in again.
    pub open spec fn refilled(
        self,
        result: Result<LoginOutcome, (Seq<char>, Option<u32>)>,
    ) -> CaptchaStep {
        let step = match refill_problem(result) {
            Some(e) => self.fail(Seq::empty(), e),
            None => self.step(CaptchaPhase::Reading, Seq::empty(), CaptchaView::ReadImage),
        };
        CaptchaStep { remaining: attempts_told(result), ..step }
    }

    /// What follows an event before the image is read.
    pub open spec fn next_early(self, event: CaptchaEventView) -> CaptchaStep {
        match (self.phase, event) {
            (CaptchaPhase::Preparing, CaptchaEventView::Step(r)) => match r {
                Ok(_) => self.step(
                    CaptchaPhase::FindingPort,
                    seq![(LogLevel::Success, "OCR 服务检查/初始化成功"@)],
                    CaptchaView::FindPort,
                ),
                Err(e) => self.fail(
                    seq![(LogLevel::Error, "OCR 服务检查/初始化失败："@ + e)],
                    "OCR 服务检查/初始化失败："@ + e,
                ),
            },
            (CaptchaPhase::FindingPort, CaptchaEventView::Found(yes)) => if yes {
                self.step(CaptchaPhase::FindingTab, Seq::empty(), CaptchaView::FindTab)
            } else {
                self.fail(
                    Seq::empty(),
                    "专用 Chrome 未连接，请先点击该站点的测试按钮"@,
                )
            },
            (CaptchaPhase::FindingTab, CaptchaEventView::Found(yes)) => if yes {
                self.step(CaptchaPhase::Renewing, Seq::empty(), CaptchaView::Renew)
            } else {
                self.fail(
                    Seq::empty(),
                    "未找到 "@ + self.name + " 登录页，请先点击测试按钮"@,
                )
            },
            (CaptchaPhase::Renewing, CaptchaEventView::Renewed(r)) => match r {
                Ok(renewed) => self.step(
                    CaptchaPhase::Counting { renewed },
                    Seq::empty(),
                    CaptchaView::Count,
                ),
                Err(e) => self.fail(Seq::empty(), e),
            },
            (CaptchaPhase::Counting { renewed }, CaptchaEventView::Counted(r)) => match r {
                Ok(remaining) => self.counted(renewed, remaining),
                Err(e) => self.fail(Seq::empty(), e),
            },
            (CaptchaPhase::Refilling, CaptchaEventView::Refilled(r)) => self.refilled(r),
            _ => CaptchaStep {
                state: self,
                notes: Seq::empty(),
                remaining: None,
                action: CaptchaView::Keep,
            },
        }
    }

    /// What follows an event once the image is read.
    pub open spec fn next_late(self, event: CaptchaEventView) -> CaptchaStep {
        match (self.phase, event) {
            (CaptchaPhase::Reading, CaptchaEventView::Image(r)) => match r {
                Ok(image) => self.step(
                    CaptchaPhase::Recognising,
                    seq![
                        (
                            LogLevel::Info,
                            self.name
                                + " 获取验证码图片成功，准备发送给 OCR 服务，Base64 为："@
                                + image,
                        ),
                    ],
                    CaptchaView::Recognise(image),
                ),
                Err(e) => self.fail(Seq::empty(), e),
            },
            (CaptchaPhase::Recognising, CaptchaEventView::Recognised(r)) => match r {
                Ok(found) => self.step(
                    CaptchaPhase::Filling,
                    seq![
                        (
                            LogLevel::Info,
                            self.name + " OCR 识别：第 "@ + decimal(found.attempts as nat)
                                + "/"@ + decimal(self.tries as nat)
                                + " 次成功，验证码："@ + found.text,
                        ),
                    ],
                    CaptchaView::Fill(found.text),
                ),
                Err(e) => self.fail(
                    seq![(LogLevel::Error, self.name + " OCR 识别失败："@ + e)],
                    self.name + " OCR 识别失败："@ + e,
                ),
            },
            (CaptchaPhase::Recognising, CaptchaEventView::Aborted(e)) => self.fail(
                Seq::empty(),
                e,
            ),
            (CaptchaPhase::Filling, CaptchaEventView::Step(r)) => match r {
                Ok(_) => {
                    let message = self.name
                        + " 验证码已识别并填入，请在浏览器中确认后点击登录"@;
                    self.step(
                        CaptchaPhase::Done,
                        seq![(LogLevel::Info, message)],
                        CaptchaView::Finish(Ok(message)),
                    )
                },
                Err(e) => self.fail(Seq::empty(), e),
            },
            _ => CaptchaStep {
                state: self,
                notes: Seq::empty(),
                remaining: None,
                action: CaptchaView::Keep,
            },
        }
    }

    /// Whether the image is not read yet.
    pub open spec fn is_early(self) -> bool {
        match self.phase {
            CaptchaPhase::Reading
            | CaptchaPhase::Recognising
            | CaptchaPhase::Filling
            | CaptchaPhase::Done => false,
            _ => true,
        }
    }

    /// What follows an event. An event that the pending action cannot cause changes
    /// nothing.
    pub open spec fn next(self, event: CaptchaEventView) -> CaptchaStep {
        if self.is_early() {
            self.next_early(event)
        } else {
            self.next_late(event)
        }
    }

    /// Whether `event` is of the kind that the pending action causes.
    pub open spec fn awaits(self, event: CaptchaEventView) -> bool {
        match self.phase {
            CaptchaPhase::Preparing | CaptchaPhase::Filling => event is Step,
            CaptchaPhase::FindingPort | CaptchaPhase::FindingTab => event is Found,
            CaptchaPhase::Renewing => event is Renewed,
            CaptchaPhase::Counting { .. } => event is Counted,
            CaptchaPhase::Refilling => event is Refilled,
            CaptchaPhase::Reading => event is Image,
            CaptchaPhase::Recognising => event is Recognised || event is Aborted,
            CaptchaPhase::Done => false,
        }
    }

    /// An upper bound on the number of actions that are left.
    pub open spec fn steps_left(self) -> int {
        match self.phase {
            CaptchaPhase::Preparing => 9,
            CaptchaPhase::FindingPort => 8,
            CaptchaPhase::FindingTab => 7,
            CaptchaPhase::Renewing => 6,
            CaptchaPhase::Counting { .. } => 5,
            CaptchaPhase::Refilling => 4,
            CaptchaPhase::Reading => 3,
            CaptchaPhase::Recognising => 2,
            CaptchaPhase::Filling => 1,
            CaptchaPhase::Done => 0,
        }
    }
}

/// Why the captcha of a site cannot be recognised.
pub open spec fn captcha_refusal(site: Option<SiteView>, ocr_server_url: Seq<char>) -> Option<
    Seq<char>,
> {
    match site {
        None => Some("未找到要识别验证码的站点"@),
        Some(s) => if adapter_for(s.url) != SiteAdapter::NexusPhp {
            Some("当前验证码识别仅支持 NexusPHP 架构的站点"@)
        } else if trimmed(ocr_server_url).len() == 0 {
            Some("请先在设置中配置 OCR 服务地址"@)
        } else {
            None
        },
    }
}

/// What the start of a recognition says.
pub open spec fn captcha_start(r: Result<(CaptchaRun, CaptchaTurn), String>) -> Result<
    CaptchaStep,
    Seq<char>,
> {
    match r {
        Ok(x) => Ok(captcha_step(x.0@, x.1)),
        Err(e) => Err(e@),
    }
}

impl CaptchaRun {
    /// The recognition of the captcha of a site and what to do first.
    pub fn begin(site: Option<&Site>, config: &AppConfig) -> (r: Result<
        (CaptchaRun, CaptchaTurn),
        String,
    >)
        ensures
            captcha_start(r) == match captcha_refusal(opt_site(site), config.ocr_server_url@) {
                Some(e) => Err(e),
                None => Ok(
                    (CaptchaModel {
                        name: opt_site(site)->0.name,
                        credentials: has_credentials(opt_site(site)->0),
                        min_remaining: config.min_login_attempts_remaining,
                        tries: config.ocr_retry_count,
                        phase: CaptchaPhase::Preparing,
                    }).step(
                        CaptchaPhase::Preparing,
                        seq![(LogLevel::Info, "正在检查并初始化 OCR 服务..."@)],
                        CaptchaView::Prepare,
                    ),
                ),
            },
    {
        let site: &Site = match site {
            Some(site) => site,
            None => return Err("未找到要识别验证码的站点".to_string()),
        };
        match SiteAdapter::from_url(site.url.as_str()) {
            SiteAdapter::NexusPhp => {},
            _ => return Err(
                "当前验证码识别仅支持 NexusPHP 架构的站点".to_string(),
            ),
        }
        if is_blank(config.ocr_server_url.as_str()) {
            return Err("请先在设置中配置 OCR 服务地址".to_string());
        }
        let run: CaptchaRun = CaptchaRun {
            name: site.name.clone(),
            credentials: site_has_credentials(site),
            min_remaining: config.min_login_attempts_remaining,
            tries: config.ocr_retry_count,
            phase: CaptchaPhase::Preparing,
        };
        let turn: CaptchaTurn = CaptchaTurn {
            notes: one_note(LogLevel::Info, "正在检查并初始化 OCR 服务...".to_string()),
            remaining: None,
            action: CaptchaAction::Prepare,
        };
        Ok((run, turn))
    }

    fn go(
        &mut self,
        phase: CaptchaPhase,
        notes: Vec<(LogLevel, String)>,
        action: CaptchaAction,
    ) -> (r: CaptchaTurn)
        ensures
            captcha_step(final(self)@, r) == old(self)@.step(phase, note_views(notes@), action@),
    {
        self.phase = phase;
        CaptchaTurn { notes, remaining: None, action }
    }

    fn fail(&mut self, notes: Vec<(LogLevel, String)>, message: String) -> (r: CaptchaTurn)
        ensures
            captcha_step(final(self)@, r) == old(self)@.fail(note_views(notes@), message@),
    {
        self.go(CaptchaPhase::Done, notes, CaptchaAction::Finish(Err(message)))
    }

    fn keep(&self) -> (r: CaptchaTurn)
        ensures
            captcha_step(self@, r) == (CaptchaStep {
                state: self@,
                notes: Seq::empty(),
                remaining: None,
                action: CaptchaView::Keep,
            }),
    {
        CaptchaTurn { notes: no_notes(), remaining: None, action: CaptchaAction::Keep }
    }

    fn counted(&mut self, renewed: bool, remaining: Option<u32>) -> (r: CaptchaTurn)
        ensures
            captcha_step(final(self)@, r) == old(self)@.counted(renewed, remaining),
    {
        let mut notes: Vec<(LogLevel, String)> = no_notes();
        let mut below: bool = false;
        if let Some(n) = remaining {
            push_note(
                &mut notes,
                LogLevel::Info,
                attempts_message(self.name.as_str(), n, self.min_remaining),
            );
            assert(note_views(notes@) =~= seq![
                (LogLevel::Info, attempts_text(self.name@, n, self.min_remaining)),
            ]);
            if n <= self.min_remaining as u32 {
                below = true;
            }
        }
        let turn: CaptchaTurn = if below {
            let n: u32 = match remaining {
                Some(n) => n,
                None => 0,
            };
            let message: String = threshold_message(self.name.as_str(), n, self.min_remaining);
            push_note(&mut notes, LogLevel::Error, message.clone());
            self.fail(notes, message)
        } else if renewed {
            push_note(
                &mut notes,
                LogLevel::Info,
                self.name.clone().concat(
                    " 检测到上次验证码无效，已获取新验证码，准备再次尝试登录",
                ),
            );
            if self.credentials {
                self.go(CaptchaPhase::Refilling, notes, CaptchaAction::Refill)
            } else {
                self.fail(
                    notes,
                    "已获取新的图片验证码，但站点用户名或密码未配置".to_string(),
                )
            }
        } else {
            push_note(
                &mut notes,
                LogLevel::Info,
                self.name.clone().concat(
                    " 未检测到验证码失败页，本次不执行登录重试，仅识别当前验证码",
                ),
            );
            self.go(CaptchaPhase::Reading, notes, CaptchaAction::ReadImage)
        };
        CaptchaTurn { notes: turn.notes, remaining, action: turn.action }
    }

    fn refilled(&mut self, result: &Result<LoginOutcome, LoginError>) -> (r: CaptchaTurn)
        ensures
            captcha_step(final(self)@, r) == old(self)@.refilled(login_result(*result)),
    {
        let (remaining, problem): (Option<u32>, Option<String>) = match result {
            Ok(o) => (
                o.remaining_attempts,
                Some("Audiences 当前不再需要图片验证码".to_string()),
            ),
            Err(e) => {
                let chars: Vec<char> = chars_of(e.message.as_str());
                if contains_str(chars.as_slice(), "登录信息已填写") {
                    (e.remaining_attempts, None)
                } else {
                    (
                        e.remaining_attempts,
                        Some(
                            "重新填写 Audiences 登录信息失败：".to_string().concat(
                                e.message.as_str(),
                            ),
                        ),
                    )
                }
            },
        };
        let turn: CaptchaTurn = match problem {
            Some(e) => self.fail(no_notes(), e),
            None => self.go(CaptchaPhase::Reading, no_notes(), CaptchaAction::ReadImage),
        };
        CaptchaTurn { notes: turn.notes, remaining, action: turn.action }
    }

    fn advance_early(&mut self, event: &CaptchaEvent) -> (r: CaptchaTurn)
        ensures
            captcha_step(final(self)@, r) == old(self)@.next_early(event@),
    {
        match (self.phase, event) {
            (CaptchaPhase::Preparing, CaptchaEvent::Step(r)) => match r {
                Ok(_) => self.go(
                    CaptchaPhase::FindingPort,
                    one_note(
                        LogLevel::Success,
                        "OCR 服务检查/初始化成功".to_string(),
                    ),
                    CaptchaAction::FindPort,
                ),
                Err(e) => {
                    let message: String = "OCR 服务检查/初始化失败：".to_string().concat(
                        e.as_str(),
                    );
                    self.fail(one_note(LogLevel::Error, message.clone()), message)
                },
            },
            (CaptchaPhase::FindingPort, CaptchaEvent::Found(yes)) => if *yes {
                self.go(CaptchaPhase::FindingTab, no_notes(), CaptchaAction::FindTab)
            } else {
                self.fail(
                    no_notes(),
                    "专用 Chrome 未连接，请先点击该站点的测试按钮".to_string(),
                )
            },
            (CaptchaPhase::FindingTab, CaptchaEvent::Found(yes)) => if *yes {
                self.go(CaptchaPhase::Renewing, no_notes(), CaptchaAction::Renew)
            } else {
                let message: String = "未找到 ".to_string().concat(
                    self.name.as_str(),
                ).concat(" 登录页，请先点击测试按钮");
                self.fail(no_notes(), message)
            },
            (CaptchaPhase::Renewing, CaptchaEvent::Renewed(r)) => match r {
                Ok(renewed) => self.go(
                    CaptchaPhase::Counting { renewed: *renewed },
                    no_notes(),
                    CaptchaAction::Count,
                ),
                Err(e) => self.fail(no_notes(), e.clone()),
            },
            (CaptchaPhase::Counting { renewed }, CaptchaEvent::Counted(r)) => match r {
                Ok(remaining) => self.counted(renewed, *remaining),
                Err(e) => self.fail(no_notes(), e.clone()),
            },
            (CaptchaPhase::Refilling, CaptchaEvent::Refilled(r)) => self.refilled(r),
            _ => self.keep(),
        }
    }

    fn advance_late(&mut self, event: &CaptchaEvent) -> (r: CaptchaTurn)
        ensures
            captcha_step(final(self)@, r) == old(self)@.next_late(event@),
    {
        match (self.phase, event) {
            (CaptchaPhase::Reading, CaptchaEvent::Image(r)) => match r {
                Ok(image) => {
                    let told: String = self.name.clone().concat(
                        " 获取验证码图片成功，准备发送给 OCR 服务，Base64 为：",
                    ).concat(image.as_str());
                    self.go(
                        CaptchaPhase::Recognising,
                        one_note(LogLevel::Info, told),
                        CaptchaAction::Recognise(image.clone()),
                    )
                },
                Err(e) => self.fail(no_notes(), e.clone()),
            },
            (CaptchaPhase::Recognising, CaptchaEvent::Recognised(r)) => match r {
                Ok(found) => {
                    let told: String = self.name.clone().concat(" OCR 识别：第 ").concat(
                        decimal_of(found.attempts as u64).as_str(),
                    ).concat("/").concat(decimal_of(self.tries as u64).as_str()).concat(
                        " 次成功，验证码：",
                    ).concat(found.text.as_str());
                    self.go(
                        CaptchaPhase::Filling,
                        one_note(LogLevel::Info, told),
                        CaptchaAction::Fill(found.text.clone()),
                    )
                },
                Err(e) => {
                    let message: String = self.name.clone().concat(
                        " OCR 识别失败：",
                    ).concat(e.as_str());
                    self.fail(one_note(LogLevel::Error, message.clone()), message)
                },
            },
            (CaptchaPhase::Recognising, CaptchaEvent::Aborted(e)) => self.fail(
                no_notes(),
                e.clone(),
            ),
            (CaptchaPhase::Filling, CaptchaEvent::Step(r)) => match r {
                Ok(_) => {
                    let message: String = self.name.clone().concat(
                        " 验证码已识别并填入，请在浏览器中确认后点击登录",
                    );
                    self.go(
                        CaptchaPhase::Done,
                        one_note(LogLevel::Info, message.clone()),
                        CaptchaAction::Finish(Ok(message)),
                    )
                },
                Err(e) => self.fail(no_notes(), e.clone()),
            },
            _ => self.keep(),
        }
    }

    /// Takes in what came of the pending action and tells what to do next.
    pub fn advance(&mut self, event: &CaptchaEvent) -> (r: CaptchaTurn)
        ensures
            captcha_step(final(self)@, r) == old(self)@.next(event@),
    {
        let late: bool = match self.phase {
            CaptchaPhase::Reading
            | CaptchaPhase::Recognising
            | CaptchaPhase::Filling
            | CaptchaPhase::Done => true,
            _ => false,
        };
        if late {
            self.advance_late(event)
        } else {
            self.advance_early(event)
        }
    }
}

/// Every answered action brings the recognition closer to its end.
pub proof fn captcha_run_ends(s: CaptchaModel, event: CaptchaEventView)
    requires
        s.awaits(event),
    ensures
        0 <= s.next(event).state.steps_left() < s.steps_left(),
{
}

/// At or below the threshold neither the form is filled in again nor the image read.
pub proof fn threshold_stops_recognition(s: CaptchaModel, renewed: bool, remaining: u32)
    requires
        s.phase == (CaptchaPhase::Counting { renewed }),
        remaining <= s.min_remaining,
    ensures
        s.next(CaptchaEventView::Counted(Ok(Some(remaining)))).action is Finish,
        s.next(CaptchaEventView::Counted(Ok(Some(remaining)))).state.phase == CaptchaPhase::Done,
{
}

/// A login is tried again only after a captcha had failed and a new one was asked for.
pub proof fn refill_needs_a_new_captcha(s: CaptchaModel, event: CaptchaEventView)
    requires
        s.next(event).action is Refill,
    ensures
        s.phase == (CaptchaPhase::Counting { renewed: true }),
        s.credentials,
{
}

/// A run goes its way: the service is made ready, the browser and the tab are found, a new
/// captcha is asked for, the attempts left are counted, the form is filled in again where the
/// captcha is new, the image is read and recognised, and what was recognised is filled in.
pub proof fn captcha_run_goes_its_way(s: CaptchaModel, event: CaptchaEventView)
    requires
        s.awaits(event),
    ensures
        ({
            let action = s.next(event).action;
            let safe = event matches CaptchaEventView::Counted(Ok(n)) && (n matches Some(k) ==> k
                > s.min_remaining);
            &&& action is FindPort <==> s.phase == CaptchaPhase::Preparing && (
            event matches CaptchaEventView::Step(r) && r is Ok)
            &&& action is FindTab <==> s.phase == CaptchaPhase::FindingPort && event
                == CaptchaEventView::Found(true)
            &&& action is Renew <==> s.phase == CaptchaPhase::FindingTab && event
                == CaptchaEventView::Found(true)
            &&& action is Count <==> (event matches CaptchaEventView::Renewed(r) && r is Ok)
            &&& action is Refill <==> s.phase == (CaptchaPhase::Counting { renewed: true }) && safe
                && s.credentials
            &&& action is ReadImage <==> s.phase == (CaptchaPhase::Counting { renewed: false })
                && safe || (event matches CaptchaEventView::Refilled(r) && (r matches Err(e)
                && contains_text(e.0, "登录信息已填写"@)))
            &&& action is Recognise <==> (event matches CaptchaEventView::Image(r) && r is Ok)
            &&& action is Fill <==> (event matches CaptchaEventView::Recognised(r) && r is Ok)
            &&& (action matches CaptchaView::Finish(r) && r is Ok) <==> s.phase
                == CaptchaPhase::Filling && (event matches CaptchaEventView::Step(r) && r is Ok)
            &&& !(action is Prepare) && !(action is Keep)
        }),
{
}

/// What goes into a step is what came out of the one before: whether the captcha is new, the
/// image, the text that was recognised in it; and the attempts left are handed on.
pub proof fn captcha_run_hands_on_what_came(s: CaptchaModel, event: CaptchaEventView)
    requires
        s.awaits(event),
    ensures
        ({
            let after = s.next(event);
            &&& event matches CaptchaEventView::Renewed(Ok(renewed)) ==> after.state.phase == (
            CaptchaPhase::Counting { renewed })
            &&& event matches CaptchaEventView::Image(Ok(image)) ==> after.action
                == CaptchaView::Recognise(image)
            &&& event matches CaptchaEventView::Recognised(Ok(found)) ==> after.action
                == CaptchaView::Fill(found.text)
            &&& after.remaining == (match event {
                CaptchaEventView::Counted(Ok(n)) => n,
                CaptchaEventView::Refilled(Ok(o)) => o.remaining_attempts,
                CaptchaEventView::Refilled(Err(e)) => e.1,
                _ => None,
            })
            &&& after.state.name == s.name && after.state.credentials == s.credentials
                && after.state.min_remaining == s.min_remaining && after.state.tries == s.tries
            &&& after.action is Finish <==> after.state.phase == CaptchaPhase::Done
        }),
{
}

/// A step that fails ends the run with an error that tells of it.
pub proof fn captcha_run_tells_what_failed(s: CaptchaModel, e: Seq<char>)
    ensures
        s.phase == CaptchaPhase::Renewing ==> s.next(CaptchaEventView::Renewed(Err(e))).action
            == CaptchaView::Finish(Err(e)),
        s.phase is Counting ==> s.next(CaptchaEventView::Counted(Err(e))).action
            == CaptchaView::Finish(Err(e)),
        s.phase == CaptchaPhase::Reading ==> s.next(CaptchaEventView::Image(Err(e))).action
            == CaptchaView::Finish(Err(e)),
        s.phase == CaptchaPhase::Filling ==> s.next(CaptchaEventView::Step(Err(e))).action
            == CaptchaView::Finish(Err(e)),
        s.phase == CaptchaPhase::Recognising ==> s.next(CaptchaEventView::Aborted(e)).action
            == CaptchaView::Finish(Err(e)),
        s.phase == CaptchaPhase::Recognising ==> s.next(
            CaptchaEventView::Recognised(Err(e)),
        ).action == CaptchaView::Finish(Err(s.name + " OCR 识别失败："@ + e)),
        s.phase == CaptchaPhase::Preparing ==> s.next(CaptchaEventView::Step(Err(e))).action
            == CaptchaView::Finish(Err("OCR 服务检查/初始化失败："@ + e)),
{
}

/// A captcha is only recognised for a site of the kind that has one, with a service to ask.
pub proof fn captcha_run_needs_site_and_service(site: Option<SiteView>, address: Seq<char>)
    ensures
        captcha_refusal(site, address) is None <==> site is Some && adapter_for((site->0).url)
            == SiteAdapter::NexusPhp && trimmed(address).len() > 0,
{
}

/// A run begins by making the service ready, with what is configured for the site.
pub proof fn captcha_run_begins_with_the_service(
    site: Option<&Site>,
    config: &AppConfig,
    r: Result<(CaptchaRun, CaptchaTurn), String>,
)
    requires
        call_ensures(CaptchaRun::begin, (site, config), r),
    ensures
        r is Ok <==> site is Some && adapter_for((site->0)@.url) == SiteAdapter::NexusPhp
            && trimmed(config.ocr_server_url@).len() > 0,
        r matches Ok(x) ==> x.1.action@ == CaptchaView::Prepare && x.0@.phase
            == CaptchaPhase::Preparing && x.0@.name == (site->0)@.name && x.0@.min_remaining
            == config.min_login_attempts_remaining && x.0@.tries == config.ocr_retry_count
            && x.0@.credentials == (trimmed((site->0)@.username).len() > 0 && (
        site->0)@.password.len() > 0),
{
    let x = captcha_start(r);
    if r is Ok {
        assert(x is Ok);
    }
}

} // verus!
