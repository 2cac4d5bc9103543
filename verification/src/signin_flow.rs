//! Signing in by the pages of a site, as a state machine: find the sign-in page,
//! click what has to be clicked, and tell the result from what the pages say.

use crate::signin::{
    bare_address_keeps_the_host, bare_url, names_host, on_same_site, page_result,
    result_from_state, same_site, signin_adapter_for, signin_failure, signin_host, signin_label,
    signin_page, signin_page_is_on_the_site, PageState, SigninAdapter, SigninResult, SigninStatus,
    SigninView,
};
use crate::text::{opt_text, str_eq};
use vstd::prelude::*;

verus! {

/// Where a sign-in stands.
#[derive(Debug, Clone, Copy, PartialEq, Eq, Structural)]
pub enum SigninPhase {
    Inspecting,
    Opening,
    Looking { step: u32 },
    Clicking { step: u32 },
    Done,
}

/// Why a sign-in was broken off without a result.
#[derive(Debug, Clone, Copy, PartialEq, Eq, Structural)]
pub enum SigninStop {
    Cancelled,
    /// A step outside this machine failed with a text of its own.
    Outside,
}

/// What has to be done next.
#[derive(Debug)]
pub enum SigninAction {
    /// Look at the page as it is.
    Inspect,
    /// Go to an address.
    Open(String),
    /// Look at the page after a pause.
    Look { after_millis: u64 },
    /// Click the control that was found.
    Click,
    Finish(SigninResult),
    Stop(SigninStop),
    /// Nothing new: the action before is still to be answered.
    Keep,
}

/// What a `SigninAction` says.
pub enum SigninActionView {
    Inspect,
    Open(Seq<char>),
    Look { after_millis: u64 },
    Click,
    Finish(SigninView),
    Stop(SigninStop),
    Keep,
}

impl View for SigninAction {
    type V = SigninActionView;

    open spec fn view(&self) -> SigninActionView {
        match *self {
            SigninAction::Inspect => SigninActionView::Inspect,
            SigninAction::Open(url) => SigninActionView::Open(url@),
            SigninAction::Look { after_millis } => SigninActionView::Look { after_millis },
            SigninAction::Click => SigninActionView::Click,
            SigninAction::Finish(r) => SigninActionView::Finish(r@),
            SigninAction::Stop(s) => SigninActionView::Stop(s),
            SigninAction::Keep => SigninActionView::Keep,
        }
    }
}

/// What to tell the user and what to do next.
#[derive(Debug)]
pub struct SigninTurn {
    pub note: Option<String>,
    pub action: SigninAction,
}

/// What a `SigninTurn` says.
pub struct SigninTurnView {
    pub note: Option<Seq<char>>,
    pub action: SigninActionView,
}

impl View for SigninTurn {
    type V = SigninTurnView;

    open spec fn view(&self) -> SigninTurnView {
        SigninTurnView { note: opt_text(self.note), action: self.action@ }
    }
}

/// What came of an action.
#[derive(Debug)]
pub enum SigninEvent {
    /// A page was read, or could not be.
    Page(Option<PageState>),
    /// A step outside this machine succeeded or failed.
    Outside(bool),
    /// The control was found and clicked, or not.
    Clicked(bool),
}

/// The control that is about to be clicked, and the page that it is on.
#[derive(Debug)]
pub struct ClickTarget {
    pub key: String,
    pub label: String,
    pub url: String,
    pub guarded: bool,
}

/// What a `ClickTarget` says.
pub struct ClickTargetView {
    pub key: Seq<char>,
    pub label: Seq<char>,
    pub url: Seq<char>,
    pub guarded: bool,
}

impl View for ClickTarget {
    type V = ClickTargetView;

    open spec fn view(&self) -> ClickTargetView {
        ClickTargetView {
            key: self.key@,
            label: self.label@,
            url: self.url@,
            guarded: self.guarded,
        }
    }
}

/// A sign-in by the pages of a site in progress.
#[derive(Debug)]
pub struct SigninRun {
    pub adapter: SigninAdapter,
    pub site_name: String,
    pub site_url: String,
    /// Whether the first page showed that the day was signed in already.
    pub was_signed: bool,
    /// Whether the user was told of a human verification.
    pub told: bool,
    /// The control that was clicked last.
    pub clicked: String,
    /// How many loaded pages were seen since the last click.
    pub ready: u32,
    pub target: ClickTarget,
    pub phase: SigninPhase,
}

/// The state of a sign-in.
pub struct SigninModel {
    pub adapter: SigninAdapter,
    pub site_name: Seq<char>,
    pub site_url: Seq<char>,
    pub was_signed: bool,
    pub told: bool,
    pub clicked: Seq<char>,
    pub ready: u32,
    pub target: ClickTargetView,
    pub phase: SigninPhase,
}

impl View for SigninRun {
    type V = SigninModel;

    open spec fn view(&self) -> SigninModel {
        SigninModel {
            adapter: self.adapter,
            site_name: self.site_name@,
            site_url: self.site_url@,
            was_signed: self.was_signed,
            told: self.told,
            clicked: self.clicked@,
            ready: self.ready,
            target: self.target@,
            phase: self.phase,
        }
    }
}

/// The sign-in page is looked at at most this many times.
pub const SIGNIN_WAIT_STEPS: u32 = 120;

/// A control is clicked once this many loaded pages were seen.
pub const CLICK_AFTER: u32 = 3;

/// A page is given up once this many loaded pages were seen.
pub const GIVE_UP_AFTER: u32 = 16;

/// What is told when a sign-in page is opened.
pub open spec fn started_note(site: Seq<char>, a: SigninAdapter, url: Seq<char>) -> Seq<char> {
    site + " 开始自动签到（"@ + signin_label(a) + "）："@ + url
}

/// What is told of a human verification.
pub open spec fn challenge_note(site: Seq<char>) -> Seq<char> {
    site + " 签到页需要人机验证，正在等待浏览器正常完成"@
}

/// What is told of a click.
pub open spec fn clicked_note(site: Seq<char>, label: Seq<char>) -> Seq<char> {
    site + " 已点击签到操作："@ + label
}

/// What is reported of a page that says nothing.
pub open spec fn unrecognised_text(url: Seq<char>) -> Seq<char> {
    "未识别到签到结果（当前页面："@ + url + "），需要添加站点专用适配"@
}

impl SigninModel {
    pub open spec fn at(self, phase: SigninPhase) -> SigninModel {
        SigninModel { phase, ..self }
    }

    pub open spec fn finish(self, v: SigninView) -> (SigninModel, SigninTurnView) {
        (
            self.at(SigninPhase::Done),
            SigninTurnView { note: None, action: SigninActionView::Finish(v) },
        )
    }

    pub open spec fn stop(self, s: SigninStop) -> (SigninModel, SigninTurnView) {
        (
            self.at(SigninPhase::Done),
            SigninTurnView { note: None, action: SigninActionView::Stop(s) },
        )
    }

    /// The next look at the sign-in page, after `step` looks.
    pub open spec fn look(
        self,
        step: int,
        note: Option<Seq<char>>,
        cancelled: bool,
    ) -> (SigninModel, SigninTurnView) {
        if step >= SIGNIN_WAIT_STEPS {
            (
                self.at(SigninPhase::Done),
                SigninTurnView {
                    note,
                    action: SigninActionView::Finish(
                        signin_failure(
                            if self.told {
                                "等待人机验证或签到结果超时"@
                            } else {
                                "等待签到结果超时"@
                            },
                        ),
                    ),
                },
            )
        } else if cancelled {
            (
                self.at(SigninPhase::Done),
                SigninTurnView { note, action: SigninActionView::Stop(SigninStop::Cancelled) },
            )
        } else {
            (
                self.at(SigninPhase::Looking { step: step as u32 }),
                SigninTurnView { note, action: SigninActionView::Look { after_millis: 500 } },
            )
        }
    }

    /// The state before anything was done.
    pub open spec fn initial(site_name: Seq<char>, site_url: Seq<char>) -> SigninModel {
        SigninModel {
            adapter: signin_adapter_for(site_url),
            site_name,
            site_url,
            was_signed: false,
            told: false,
            clicked: Seq::empty(),
            ready: 0,
            target: ClickTargetView {
                key: Seq::empty(),
                label: Seq::empty(),
                url: Seq::empty(),
                guarded: false,
            },
            phase: SigninPhase::Inspecting,
        }
    }

    /// How a sign-in begins.
    pub open spec fn begun(self, tab_found: bool, cancelled: bool) -> (
        SigninModel,
        SigninTurnView,
    ) {
        if cancelled {
            self.stop(SigninStop::Cancelled)
        } else if !tab_found {
            self.finish(signin_failure("未找到站点标签页"@))
        } else {
            (self, SigninTurnView { note: None, action: SigninActionView::Inspect })
        }
    }

    /// The sign-in page that the first page leads to.
    pub open spec fn entry(self, p: PageState) -> Option<Seq<char>> {
        match opt_text(p.entry_url) {
            Some(url) if on_same_site(url, self.site_url) => Some(url),
            _ => if p.nexusphp_like || self.adapter == SigninAdapter::Rousi {
                Some(signin_page(self.adapter, self.site_url))
            } else {
                None
            },
        }
    }

    /// What the first page calls for.
    pub open spec fn first_seen(self, page: Option<PageState>) -> (SigninModel, SigninTurnView) {
        match page {
            None => self.stop(SigninStop::Outside),
            Some(p) => if p.success {
                self.finish(page_result(SigninStatus::Success, p))
            } else if p.already_signed && self.adapter != SigninAdapter::Rousi {
                self.finish(page_result(SigninStatus::AlreadySigned, p))
            } else {
                match self.entry(p) {
                    None => self.finish(
                        signin_failure(
                            "页面中未找到站内签到入口，且当前站点不是通用 NexusPHP 签到结构，需要添加站点专用适配"@,
                        ),
                    ),
                    Some(url) => (
                        SigninModel { was_signed: p.home_already_signed, ..self }.at(
                            SigninPhase::Opening,
                        ),
                        SigninTurnView {
                            note: Some(started_note(self.site_name, self.adapter, url)),
                            action: SigninActionView::Open(url),
                        },
                    ),
                }
            },
        }
    }

    /// What a page calls for that neither reports a result nor can be clicked.
    pub open spec fn waited(
        self,
        step: u32,
        guarded: bool,
        url: Seq<char>,
        cancelled: bool,
    ) -> (SigninModel, SigninTurnView) {
        if self.ready >= GIVE_UP_AFTER && !guarded {
            self.finish(signin_failure(unrecognised_text(url)))
        } else {
            self.look(step + 1, None, cancelled)
        }
    }

    /// What a loaded sign-in page calls for.
    pub open spec fn loaded_seen(self, step: u32, p: PageState, cancelled: bool) -> (
        SigninModel,
        SigninTurnView,
    ) {
        if p.success {
            self.finish(
                page_result(
                    if self.was_signed {
                        SigninStatus::AlreadySigned
                    } else {
                        SigninStatus::Success
                    },
                    p,
                ),
            )
        } else if p.already_signed || p.home_already_signed {
            self.finish(page_result(SigninStatus::AlreadySigned, p))
        } else if p.has_login_form {
            self.finish(signin_failure("登录状态已失效，签到页跳转到了登录页面"@))
        } else if p.explicit_failure {
            self.finish(
                signin_failure(
                    if p.message@.len() == 0 {
                        "站点返回签到失败"@
                    } else {
                        p.message@
                    },
                ),
            )
        } else if p.has_challenge && !p.challenge_ready {
            SigninModel { told: true, ..self }.look(
                step + 1,
                if self.told {
                    None
                } else {
                    Some(challenge_note(self.site_name))
                },
                cancelled,
            )
        } else if p.has_interactive_question {
            self.finish(signin_failure("签到页包含答题或选项，需要添加站点专用适配"@))
        } else if self.ready >= CLICK_AFTER && p.has_action && p.action_key@ != self.clicked {
            (
                SigninModel {
                    target: ClickTargetView {
                        key: p.action_key@,
                        label: p.action_label@,
                        url: p.current_url@,
                        guarded: p.has_challenge,
                    },
                    ..self
                }.at(SigninPhase::Clicking { step }),
                SigninTurnView { note: None, action: SigninActionView::Click },
            )
        } else {
            self.waited(step, p.has_challenge, p.current_url@, cancelled)
        }
    }

    /// What a look at the sign-in page calls for.
    pub open spec fn page_seen(self, step: u32, page: Option<PageState>, cancelled: bool) -> (
        SigninModel,
        SigninTurnView,
    ) {
        match page {
            Some(p) if p.ready => SigninModel { ready: (self.ready + 1) as u32, ..self }.loaded_seen(
                step,
                p,
                cancelled,
            ),
            _ => self.look(step + 1, None, cancelled),
        }
    }

    /// What a click calls for.
    pub open spec fn click_seen(self, step: u32, ok: bool, cancelled: bool) -> (
        SigninModel,
        SigninTurnView,
    ) {
        if ok {
            SigninModel { clicked: self.target.key, ready: 0, ..self }.look(
                step + 1,
                Some(clicked_note(self.site_name, self.target.label)),
                cancelled,
            )
        } else {
            self.waited(step, self.target.guarded, self.target.url, cancelled)
        }
    }

    /// The state after an event and what to do then; `cancelled` tells whether the
    /// user has asked to stop by now. An event that the pending action cannot cause
    /// changes nothing.
    pub open spec fn next(self, event: SigninEvent, cancelled: bool) -> (
        SigninModel,
        SigninTurnView,
    ) {
        match (self.phase, event) {
            (SigninPhase::Inspecting, SigninEvent::Page(page)) => self.first_seen(page),
            (SigninPhase::Opening, SigninEvent::Outside(ok)) => if ok {
                self.look(0, None, cancelled)
            } else {
                self.stop(SigninStop::Outside)
            },
            (SigninPhase::Looking { step }, SigninEvent::Page(page)) => self.page_seen(
                step,
                page,
                cancelled,
            ),
            (SigninPhase::Clicking { step }, SigninEvent::Clicked(ok)) => self.click_seen(
                step,
                ok,
                cancelled,
            ),
            _ => (self, SigninTurnView { note: None, action: SigninActionView::Keep }),
        }
    }

    /// The counters stay within the limits of the loop.
    pub open spec fn well_formed(self) -> bool {
        match self.phase {
            SigninPhase::Looking { step } => step < SIGNIN_WAIT_STEPS && self.ready <= step,
            SigninPhase::Clicking { step } => step < SIGNIN_WAIT_STEPS && self.ready <= step + 1,
            SigninPhase::Opening => self.ready == 0,
            SigninPhase::Inspecting => self.ready == 0,
            SigninPhase::Done => true,
        }
    }

    /// Whether `event` is of the kind that the pending action causes.
    pub open spec fn awaits(self, event: SigninEvent) -> bool {
        match self.phase {
            SigninPhase::Inspecting => event is Page,
            SigninPhase::Opening => event is Outside,
            SigninPhase::Looking { .. } => event is Page,
            SigninPhase::Clicking { .. } => event is Clicked,
            SigninPhase::Done => false,
        }
    }

    /// An upper bound on the number of actions until the sign-in ends.
    pub open spec fn steps_left(self) -> int {
        match self.phase {
            SigninPhase::Inspecting => 302,
            SigninPhase::Opening => 301,
            SigninPhase::Looking { step } => 2 * (SIGNIN_WAIT_STEPS - step),
            SigninPhase::Clicking { step } => 2 * (SIGNIN_WAIT_STEPS - step) - 1,
            SigninPhase::Done => 0,
        }
    }
}

impl SigninRun {
    fn finish(&mut self, result: SigninResult) -> (r: SigninTurn)
        ensures
            (final(self)@, r@) == old(self)@.finish(result@),
    {
        self.phase = SigninPhase::Done;
        SigninTurn { note: None, action: SigninAction::Finish(result) }
    }

    fn finish_failed(&mut self, message: &str) -> (r: SigninTurn)
        ensures
            (final(self)@, r@) == old(self)@.finish(signin_failure(message@)),
    {
        self.finish(SigninResult::failure(message))
    }

    fn stop(&mut self, s: SigninStop) -> (r: SigninTurn)
        ensures
            (final(self)@, r@) == old(self)@.stop(s),
    {
        self.phase = SigninPhase::Done;
        SigninTurn { note: None, action: SigninAction::Stop(s) }
    }

    fn look(&mut self, step: u32, note: Option<String>, cancelled: bool) -> (r: SigninTurn)
        ensures
            (final(self)@, r@) == old(self)@.look(step as int, opt_text(note), cancelled),
    {
        if step >= SIGNIN_WAIT_STEPS {
            self.phase = SigninPhase::Done;
            let result: SigninResult = if self.told {
                SigninResult::failure("等待人机验证或签到结果超时")
            } else {
                SigninResult::failure("等待签到结果超时")
            };
            SigninTurn { note, action: SigninAction::Finish(result) }
        } else if cancelled {
            self.phase = SigninPhase::Done;
            SigninTurn { note, action: SigninAction::Stop(SigninStop::Cancelled) }
        } else {
            self.phase = SigninPhase::Looking { step };
            SigninTurn { note, action: SigninAction::Look { after_millis: 500 } }
        }
    }

    /// A sign-in and what to do first.
    pub fn begin(site_name: &str, site_url: &str, tab_found: bool, cancelled: bool) -> (r: (
        SigninRun,
        SigninTurn,
    ))
        ensures
            (r.0@, r.1@) == SigninModel::initial(site_name@, site_url@).begun(tab_found, cancelled),
            r.0@.well_formed(),
    {
        let mut run: SigninRun = SigninRun {
            adapter: SigninAdapter::from_url(site_url),
            site_name: site_name.to_string(),
            site_url: site_url.to_string(),
            was_signed: false,
            told: false,
            clicked: String::new(),
            ready: 0,
            target: ClickTarget {
                key: String::new(),
                label: String::new(),
                url: String::new(),
                guarded: false,
            },
            phase: SigninPhase::Inspecting,
        };
        assert(run@ == SigninModel::initial(site_name@, site_url@));
        let turn: SigninTurn = if cancelled {
            run.stop(SigninStop::Cancelled)
        } else if !tab_found {
            run.finish_failed("未找到站点标签页")
        } else {
            SigninTurn { note: None, action: SigninAction::Inspect }
        };
        (run, turn)
    }

    fn entry_on(&self, p: &PageState) -> (r: Option<String>)
        ensures
            opt_text(r) == self@.entry(*p),
    {
        let linked: Option<String> = match &p.entry_url {
            Some(url) => if same_site(url.as_str(), self.site_url.as_str()) {
                Some(url.clone())
            } else {
                None
            },
            None => None,
        };
        match linked {
            Some(url) => Some(url),
            None => if p.nexusphp_like || self.adapter == SigninAdapter::Rousi {
                Some(self.adapter.fallback_url(self.site_url.as_str()))
            } else {
                None
            },
        }
    }

    fn see_first(&mut self, page: &Option<PageState>) -> (r: SigninTurn)
        ensures
            (final(self)@, r@) == old(self)@.first_seen(*page),
    {
        match page {
            None => self.stop(SigninStop::Outside),
            Some(p) => {
                if p.success {
                    self.finish(result_from_state(SigninStatus::Success, p))
                } else if p.already_signed && self.adapter != SigninAdapter::Rousi {
                    self.finish(result_from_state(SigninStatus::AlreadySigned, p))
                } else {
                    match self.entry_on(p) {
                        None => self.finish_failed(
                            "页面中未找到站内签到入口，且当前站点不是通用 NexusPHP 签到结构，需要添加站点专用适配",
                        ),
                        Some(url) => {
                            let note: String = self.site_name.clone().concat(
                                " 开始自动签到（",
                            ).concat(self.adapter.label()).concat("）：").concat(url.as_str());
                            self.was_signed = p.home_already_signed;
                            self.phase = SigninPhase::Opening;
                            SigninTurn { note: Some(note), action: SigninAction::Open(url) }
                        },
                    }
                }
            },
        }
    }

    fn wait_on(&mut self, step: u32, guarded: bool, url: &str, cancelled: bool) -> (r: SigninTurn)
        requires
            step < SIGNIN_WAIT_STEPS,
        ensures
            (final(self)@, r@) == old(self)@.waited(step, guarded, url@, cancelled),
    {
        if self.ready >= GIVE_UP_AFTER && !guarded {
            let text: String = "未识别到签到结果（当前页面：".to_string().concat(url).concat(
                "），需要添加站点专用适配",
            );
            self.finish_failed(text.as_str())
        } else {
            self.look(step + 1, None, cancelled)
        }
    }

    fn see_loaded(&mut self, step: u32, p: &PageState, cancelled: bool) -> (r: SigninTurn)
        requires
            step < SIGNIN_WAIT_STEPS,
        ensures
            (final(self)@, r@) == old(self)@.loaded_seen(step, *p, cancelled),
    {
        if p.success {
            let status: SigninStatus = if self.was_signed {
                SigninStatus::AlreadySigned
            } else {
                SigninStatus::Success
            };
            self.finish(result_from_state(status, p))
        } else if p.already_signed || p.home_already_signed {
            self.finish(result_from_state(SigninStatus::AlreadySigned, p))
        } else if p.has_login_form {
            self.finish_failed("登录状态已失效，签到页跳转到了登录页面")
        } else if p.explicit_failure {
            if p.message.as_str().is_empty() {
                self.finish_failed("站点返回签到失败")
            } else {
                self.finish_failed(p.message.as_str())
            }
        } else if p.has_challenge && !p.challenge_ready {
            let note: Option<String> = if self.told {
                None
            } else {
                Some(
                    self.site_name.clone().concat(
                        " 签到页需要人机验证，正在等待浏览器正常完成",
                    ),
                )
            };
            self.told = true;
            self.look(step + 1, note, cancelled)
        } else if p.has_interactive_question {
            self.finish_failed("签到页包含答题或选项，需要添加站点专用适配")
        } else if self.ready >= CLICK_AFTER && p.has_action && !str_eq(
            p.action_key.as_str(),
            self.clicked.as_str(),
        ) {
            self.target = ClickTarget {
                key: p.action_key.clone(),
                label: p.action_label.clone(),
                url: p.current_url.clone(),
                guarded: p.has_challenge,
            };
            self.phase = SigninPhase::Clicking { step };
            SigninTurn { note: None, action: SigninAction::Click }
        } else {
            self.wait_on(step, p.has_challenge, p.current_url.as_str(), cancelled)
        }
    }

    fn see_page(&mut self, step: u32, page: &Option<PageState>, cancelled: bool) -> (r: SigninTurn)
        requires
            step < SIGNIN_WAIT_STEPS,
            old(self).ready <= step,
        ensures
            (final(self)@, r@) == old(self)@.page_seen(step, *page, cancelled),
    {
        match page {
            Some(p) => {
                if p.ready {
                    self.ready = self.ready + 1;
                    self.see_loaded(step, p, cancelled)
                } else {
                    self.look(step + 1, None, cancelled)
                }
            },
            None => self.look(step + 1, None, cancelled),
        }
    }

    fn see_click(&mut self, step: u32, ok: bool, cancelled: bool) -> (r: SigninTurn)
        requires
            step < SIGNIN_WAIT_STEPS,
        ensures
            (final(self)@, r@) == old(self)@.click_seen(step, ok, cancelled),
    {
        if ok {
            self.clicked = self.target.key.clone();
            self.ready = 0;
            let note: String = self.site_name.clone().concat(" 已点击签到操作：").concat(
                self.target.label.as_str(),
            );
            self.look(step + 1, Some(note), cancelled)
        } else {
            let url: String = self.target.url.clone();
            self.wait_on(step, self.target.guarded, url.as_str(), cancelled)
        }
    }

    /// Takes in what came of the pending action and tells what to do next.
    pub fn advance(&mut self, event: &SigninEvent, cancelled: bool) -> (r: SigninTurn)
        requires
            old(self)@.well_formed(),
        ensures
            (final(self)@, r@) == old(self)@.next(*event, cancelled),
            final(self)@.well_formed(),
    {
        match (self.phase, event) {
            (SigninPhase::Inspecting, SigninEvent::Page(page)) => self.see_first(page),
            (SigninPhase::Opening, SigninEvent::Outside(ok)) => {
                if *ok {
                    self.look(0, None, cancelled)
                } else {
                    self.stop(SigninStop::Outside)
                }
            },
            (SigninPhase::Looking { step }, SigninEvent::Page(page)) => self.see_page(
                step,
                page,
                cancelled,
            ),
            (SigninPhase::Clicking { step }, SigninEvent::Clicked(ok)) => self.see_click(
                step,
                *ok,
                cancelled,
            ),
            _ => SigninTurn { note: None, action: SigninAction::Keep },
        }
    }
}

/// Every answered action brings a sign-in closer to its end.
pub proof fn signin_ends(s: SigninModel, event: SigninEvent, cancelled: bool)
    requires
        s.well_formed(),
        s.awaits(event),
    ensures
        s.next(event, cancelled).0.well_formed(),
        0 <= s.next(event, cancelled).0.steps_left() < s.steps_left(),
{
}

/// Every page that is opened is on the site: one that the site links to on its own host, or
/// the sign-in page under the address of the site.
pub proof fn signin_opens_pages_of_the_site(s: SigninModel, event: SigninEvent, cancelled: bool)
    requires
        s.next(event, cancelled).1.action is Open,
        signin_host(bare_url(s.site_url)) is Some,
    ensures
        ({
            let url = s.next(event, cancelled).1.action->Open_0;
            &&& on_same_site(url, s.site_url) || on_same_site(url, bare_url(s.site_url))
            &&& names_host(s.site_url) ==> on_same_site(url, s.site_url)
        }),
{
    signin_page_is_on_the_site(s.adapter, s.site_url);
    if names_host(s.site_url) {
        bare_address_keeps_the_host(s.site_url);
    }
}

/// A sign-in is only reported as done where a page said so.
pub proof fn signin_success_is_shown(s: SigninModel, event: SigninEvent, cancelled: bool)
    ensures
        s.next(event, cancelled).1.action matches SigninActionView::Finish(v) ==> (
        v.is_successful() ==> (event matches SigninEvent::Page(Some(p)) && (p.success
            || p.already_signed || p.home_already_signed) && (v.status == SigninStatus::Success
            ==> p.success))),
{
}

/// The control that was clicked last is never clicked again.
pub proof fn signin_clicks_new_controls(s: SigninModel, event: SigninEvent, cancelled: bool)
    ensures
        s.next(event, cancelled).1.action is Click ==> s.next(event, cancelled).0.target.key
            != s.clicked && s.next(event, cancelled).0.clicked == s.clicked,
{
}

/// After the user asked to stop, the sign-in page is not looked at again.
pub proof fn signin_cancel_stops_looking(s: SigninModel, event: SigninEvent)
    requires
        s.awaits(event),
    ensures
        !(s.next(event, true).1.action is Look),
{
}

/// The user is told of a human verification at most once.
pub proof fn signin_tells_challenge_once(s: SigninModel, event: SigninEvent, cancelled: bool)
    requires
        s.told,
        s.phase is Looking,
    ensures
        s.next(event, cancelled).0.told,
        s.next(event, cancelled).1.note is None,
{
}

// ---------------------------------------------------------------- what a sign-in does

/// A page leaves the sign-in open: it shows no result, no login form, no failure and no
/// question, and no verification that is still to be passed.
pub open spec fn leaves_open(p: PageState) -> bool {
    &&& !p.success
    &&& !p.already_signed
    &&& !p.home_already_signed
    &&& !p.has_login_form
    &&& !p.explicit_failure
    &&& !p.has_interactive_question
    &&& p.has_challenge ==> p.challenge_ready
}

/// A control is clicked exactly where the third or a later loaded page since the last click
/// shows one that was not the last clicked, and leaves the sign-in open; what is clicked is
/// the control of that page.
pub proof fn signin_clicks_an_open_page(s: SigninModel, event: SigninEvent, cancelled: bool)
    requires
        s.well_formed(),
    ensures
        ({
            let (t, turn) = s.next(event, cancelled);
            &&& turn.action is Click <==> s.phase is Looking && (event matches SigninEvent::Page(
                Some(p),
            ) && p.ready && leaves_open(p) && p.has_action && p.action_key@ != s.clicked && s.ready
                + 1 >= 3)
            &&& turn.action is Click ==> {
                let p = event->Page_0->0;
                &&& t.target.key == p.action_key@
                &&& t.target.label == p.action_label@
                &&& t.target.url == p.current_url@
                &&& t.target.guarded == p.has_challenge
                &&& t.phase == (SigninPhase::Clicking { step: s.phase->Looking_step })
            }
        }),
{
}

/// A loaded page ends the sign-in as soon as it shows a result, a login form, a failure or,
/// with no verification in the way, a question; a result comes before everything else.
pub proof fn signin_ends_on_a_telling_page(s: SigninModel, p: PageState, cancelled: bool)
    requires
        s.well_formed(),
        s.phase is Looking,
        p.ready,
    ensures
        ({
            let action = s.next(SigninEvent::Page(Some(p)), cancelled).1.action;
            let v = action->Finish_0;
            &&& p.success || p.already_signed || p.home_already_signed ==> action is Finish
                && v.reward == opt_text(p.reward) && v.total_days == p.total_days
                && v.consecutive_days == p.consecutive_days && (p.message@.len() > 0 ==> v.message
                == p.message@)
            &&& p.success ==> (v.status == SigninStatus::AlreadySigned <==> s.was_signed) && (
            v.status == SigninStatus::Success <==> !s.was_signed)
            &&& !p.success && (p.already_signed || p.home_already_signed) ==> v.status
                == SigninStatus::AlreadySigned
            &&& !(p.success || p.already_signed || p.home_already_signed) && action is Finish
                ==> v.status == SigninStatus::Failed && v.reward is None && v.total_days is None
                && v.consecutive_days is None
            &&& !(p.success || p.already_signed || p.home_already_signed) && (p.has_login_form
                || p.explicit_failure || p.has_interactive_question && (p.has_challenge
                ==> p.challenge_ready)) ==> action is Finish
            &&& !(p.success || p.already_signed || p.home_already_signed) && !p.has_login_form
                && p.explicit_failure && p.message@.len() > 0 ==> v.message == p.message@
        }),
{
}

/// A verification that is still to be passed is waited for: the page is looked at again, and
/// the user is told unless that was done before.
pub proof fn signin_waits_for_verification(s: SigninModel, p: PageState)
    requires
        s.well_formed(),
        s.phase is Looking,
        s.phase->Looking_step < 119,
        p.ready,
        p.has_challenge,
        !p.challenge_ready,
        !p.success,
        !p.already_signed,
        !p.home_already_signed,
        !p.has_login_form,
        !p.explicit_failure,
    ensures
        ({
            let (t, turn) = s.next(SigninEvent::Page(Some(p)), false);
            &&& turn.action is Look
            &&& t.told
            &&& turn.note is Some <==> !s.told
            &&& t.phase == (SigninPhase::Looking { step: (s.phase->Looking_step + 1) as u32 })
        }),
{
}

/// A page that leaves the sign-in open and shows nothing new to click is looked at again,
/// until sixteen loaded pages were seen; with a verification on it, until the time is up.
pub proof fn signin_looks_again_until_it_gives_up(s: SigninModel, p: PageState)
    requires
        s.well_formed(),
        s.phase is Looking,
        s.phase->Looking_step < 119,
        p.ready,
        leaves_open(p),
        !p.has_action || p.action_key@ == s.clicked || s.ready < 2,
    ensures
        ({
            let (t, turn) = s.next(SigninEvent::Page(Some(p)), false);
            &&& turn.action is Look <==> s.ready < 15 || p.has_challenge
            &&& turn.action is Finish <==> s.ready >= 15 && !p.has_challenge
            &&& turn.action is Look ==> t.ready == s.ready + 1 && t.phase == (SigninPhase::Looking {
                step: (s.phase->Looking_step + 1) as u32,
            })
        }),
{
}

/// A page that cannot be read or is not loaded is looked at again and counts for nothing but
/// the time; a click that was done is told, starts the count of loaded pages anew and is
/// remembered, one that was not done changes none of these.
pub proof fn signin_counts_loaded_pages(s: SigninModel, event: SigninEvent)
    requires
        s.well_formed(),
        s.awaits(event),
        s.phase matches SigninPhase::Looking { step } ==> step < 119,
        s.phase matches SigninPhase::Clicking { step } ==> step < 119,
    ensures
        ({
            let (t, turn) = s.next(event, false);
            &&& s.phase is Looking && (event matches SigninEvent::Page(page) && (page is None
                || !(page->0).ready)) ==> turn.action is Look && t.ready == s.ready && t.clicked
                == s.clicked && t.told == s.told
            &&& event == SigninEvent::Clicked(true) ==> turn.action is Look && t.ready == 0
                && t.clicked == s.target.key && turn.note is Some
            &&& event == SigninEvent::Clicked(false) ==> t.ready == s.ready && t.clicked == s.clicked
                && turn.note is None && (turn.action is Look <==> s.ready < 16 || s.target.guarded)
            &&& t.phase is Looking && !(s.phase is Opening) ==> t.phase->Looking_step == (
            if s.phase is Looking {
                s.phase->Looking_step + 1
            } else {
                s.phase->Clicking_step + 1
            })
        }),
{
}

/// The time is up after the hundred and twentieth look: the sign-in then ends as failed where
/// it would have looked again.
pub proof fn signin_time_is_limited(s: SigninModel, event: SigninEvent, cancelled: bool)
    requires
        s.well_formed(),
        s.awaits(event),
    ensures
        ({
            let action = s.next(event, cancelled).1.action;
            &&& s.phase == (SigninPhase::Looking { step: 119 }) ==> !(action is Look)
            &&& s.phase == (SigninPhase::Clicking { step: 119 }) ==> !(action is Look)
            &&& action is Stop ==> action->Stop_0 == (if s.phase is Inspecting || event
                == SigninEvent::Outside(false) {
                SigninStop::Outside
            } else {
                SigninStop::Cancelled
            })
            &&& action == SigninActionView::Stop(SigninStop::Cancelled) ==> cancelled
            &&& s.phase is Opening && event == SigninEvent::Outside(true) && !cancelled
                ==> action is Look
            &&& s.phase is Opening && event == SigninEvent::Outside(false) ==> action is Stop
        }),
{
}

/// The first page ends the sign-in where it shows a result, though not one from the start
/// page of the site that asks for its own; otherwise the sign-in page is opened, the one that
/// the page links to on its own site before the usual one.
pub proof fn signin_begins_with_the_first_page(s: SigninModel, p: PageState, cancelled: bool)
    requires
        s.phase is Inspecting,
    ensures
        ({
            let (t, turn) = s.next(SigninEvent::Page(Some(p)), cancelled);
            let over = p.success || p.already_signed && s.adapter != SigninAdapter::Rousi;
            let linked = p.entry_url is Some && on_same_site((p.entry_url->0)@, s.site_url);
            let usual = p.nexusphp_like || s.adapter == SigninAdapter::Rousi;
            let action = turn.action;
            &&& action is Open <==> !over && (linked || usual)
            &&& action is Finish <==> over || !linked && !usual
            &&& action is Open && linked ==> action->Open_0 == (p.entry_url->0)@
            &&& action is Open && !linked ==> action->Open_0 == signin_page(s.adapter, s.site_url)
            &&& action is Open ==> t.was_signed == p.home_already_signed && t.phase
                == SigninPhase::Opening
            &&& over ==> (action->Finish_0.status == SigninStatus::Success <==> p.success) && (
            action->Finish_0.status == SigninStatus::AlreadySigned <==> !p.success)
            &&& !over && action is Finish ==> action->Finish_0.status == SigninStatus::Failed
        }),
{
}

/// What a sign-in was given does not change, and it remembers what it saw first.
pub proof fn signin_keeps_what_it_was_given(s: SigninModel, event: SigninEvent, cancelled: bool)
    ensures
        ({
            let t = s.next(event, cancelled).0;
            &&& t.adapter == s.adapter
            &&& t.site_name == s.site_name
            &&& t.site_url == s.site_url
            &&& !(s.phase is Inspecting) ==> t.was_signed == s.was_signed
            &&& s.told ==> t.told
        }),
{
}

} // verus!
