//! Trying out the login of a site.

use crate::login::{adapter_for, login_result, LoginError, LoginOutcome, LoginState, SiteAdapter};
use crate::notes::{no_notes, note_views, one_note, push_note};
use crate::number::{decimal, decimal_of};
use crate::ocr::step_result;
use crate::scheduler::{has_credentials, site_has_credentials, LogLevel};
use crate::store::{AppConfig, Site, SiteView};
use crate::text::text_result;
use vstd::prelude::*;

verus! {

/// How far the trial has come.
#[derive(Debug, Clone, Copy, PartialEq, Eq, Structural)]
pub enum TestPhase {
    FindingPort,
    Launching,
    FindingTab,
    OpeningTab,
    /// The recognition service is made ready.
    Preparing,
    LoggingIn,
    Done,
}

/// What is to be done next.
#[derive(Debug)]
pub enum TestAction {
    /// Look for a browser that answers.
    FindPort,
    /// Start a browser with the page of the site.
    Launch,
    /// Look for a tab that shows the site.
    FindTab,
    OpenTab,
    /// Make the recognition service ready.
    Prepare,
    Login,
    /// The trial is over; `remaining` is the number of attempts to be noted for the site.
    Finish { remaining: Option<u32>, result: Result<String, String> },
    /// Go on with the pending action.
    Keep,
}

/// What a `TestAction` says.
pub enum TestView {
    FindPort,
    Launch,
    FindTab,
    OpenTab,
    Prepare,
    Login,
    Finish { remaining: Option<u32>, result: Result<Seq<char>, Seq<char>> },
    Keep,
}

impl View for TestAction {
    type V = TestView;

    open spec fn view(&self) -> TestView {
        match *self {
            TestAction::FindPort => TestView::FindPort,
            TestAction::Launch => TestView::Launch,
            TestAction::FindTab => TestView::FindTab,
            TestAction::OpenTab => TestView::OpenTab,
            TestAction::Prepare => TestView::Prepare,
            TestAction::Login => TestView::Login,
            TestAction::Finish { remaining, result } => TestView::Finish {
                remaining,
                result: text_result(result),
            },
            TestAction::Keep => TestView::Keep,
        }
    }
}

/// What came of an action.
#[derive(Debug)]
pub enum TestEvent {
    /// Whether a browser or a tab was found.
    Found(bool),
    /// Whether a step succeeded.
    Step(Result<(), String>),
    Login(Result<LoginOutcome, LoginError>),
}

/// What a `TestEvent` says.
pub enum TestEventView {
    Found(bool),
    Step(Result<(), Seq<char>>),
    Login(Result<LoginOutcome, (Seq<char>, Option<u32>)>),
}

impl View for TestEvent {
    type V = TestEventView;

    open spec fn view(&self) -> TestEventView {
        match *self {
            TestEvent::Found(b) => TestEventView::Found(b),
            TestEvent::Step(r) => TestEventView::Step(step_result(r)),
            TestEvent::Login(r) => TestEventView::Login(login_result(r)),
        }
    }
}

/// The trial of the login of a site.
#[derive(Debug)]
pub struct LoginTest {
    pub name: String,
    /// Whether the login may need a captcha and counts its attempts.
    pub nexus: bool,
    /// Whether a recognition service is configured.
    pub has_ocr: bool,
    /// The number of attempts at which logins stop.
    pub min_remaining: u8,
    pub phase: TestPhase,
}

/// What a `LoginTest` says.
pub struct TestModel {
    pub name: Seq<char>,
    pub nexus: bool,
    pub has_ocr: bool,
    pub min_remaining: u8,
    pub phase: TestPhase,
}

impl View for LoginTest {
    type V = TestModel;

    open spec fn view(&self) -> TestModel {
        TestModel {
            name: self.name@,
            nexus: self.nexus,
            has_ocr: self.has_ocr,
            min_remaining: self.min_remaining,
            phase: self.phase,
        }
    }
}

/// What to tell the user and what to do next.
#[derive(Debug)]
pub struct TestTurn {
    pub notes: Vec<(LogLevel, String)>,
    pub action: TestAction,
}

/// A state with what to tell and to do in it.
pub struct TestStep {
    pub state: TestModel,
    pub notes: Seq<(LogLevel, Seq<char>)>,
    pub action: TestView,
}

/// What a state and a turn amount to.
pub open spec fn test_step(state: TestModel, turn: TestTurn) -> TestStep {
    TestStep { state, notes: note_views(turn.notes@), action: turn.action@ }
}

/// What is told of the attempts that a site has left.
pub open spec fn attempts_text(site: Seq<char>, remaining: u32, min_remaining: u8) -> Seq<char> {
    site + " 当前剩余登录尝试次数："@ + decimal(remaining as nat)
        + "（安全阈值："@ + decimal(min_remaining as nat) + "）"@
}

/// What is told of the attempts that a site has left.
pub fn attempts_message(site: &str, remaining: u32, min_remaining: u8) -> (r: String)
    ensures
        r@ == attempts_text(site@, remaining, min_remaining),
{
    site.to_string().concat(" 当前剩余登录尝试次数：").concat(
        decimal_of(remaining as u64).as_str(),
    ).concat("（安全阈值：").concat(decimal_of(min_remaining as u64).as_str()).concat("）")
}

/// What a login came to, in words.
pub open spec fn test_verdict(
    site: Seq<char>,
    result: Result<LoginOutcome, (Seq<char>, Option<u32>)>,
) -> Result<Seq<char>, Seq<char>> {
    match result {
        Ok(o) => match o.state {
            LoginState::LoggedIn => Ok(site + " 自动登录测试成功"@),
            LoginState::AlreadyLoggedIn => Ok(site + " 当前已处于登录状态"@),
        },
        Err((message, _)) => Err(site + " 登录测试失败："@ + message),
    }
}

/// The attempts that a login has told of.
pub open spec fn attempts_told(
    result: Result<LoginOutcome, (Seq<char>, Option<u32>)>,
) -> Option<u32> {
    match result {
        Ok(o) => o.remaining_attempts,
        Err((_, remaining)) => remaining,
    }
}

impl TestModel {
    pub open spec fn step(
        self,
        phase: TestPhase,
        notes: Seq<(LogLevel, Seq<char>)>,
        action: TestView,
    ) -> TestStep {
        TestStep { state: TestModel { phase, ..self }, notes, action }
    }

    pub open spec fn fail(
        self,
        notes: Seq<(LogLevel, Seq<char>)>,
        message: Seq<char>,
    ) -> TestStep {
        self.step(
            TestPhase::Done,
            notes,
            TestView::Finish { remaining: None, result: Err(message) },
        )
    }

    /// Going on once a tab of the site is there.
    pub open spec fn with_tab(self) -> TestStep {
        if self.nexus && self.has_ocr {
            self.step(
                TestPhase::Preparing,
                seq![(LogLevel::Info, "正在检查并初始化 OCR 服务..."@)],
                TestView::Prepare,
            )
        } else {
            self.step(TestPhase::LoggingIn, Seq::empty(), TestView::Login)
        }
    }

    /// The end of the trial.
    pub open spec fn judged(
        self,
        result: Result<LoginOutcome, (Seq<char>, Option<u32>)>,
    ) -> TestStep {
        let remaining = if self.nexus {
            attempts_told(result)
        } else {
            None
        };
        let verdict = test_verdict(self.name, result);
        let told = match remaining {
            Some(n) => seq![(LogLevel::Info, attempts_text(self.name, n, self.min_remaining))],
            None => Seq::empty(),
        };
        self.step(
            TestPhase::Done,
            told.push(
                match verdict {
                    Ok(message) => (LogLevel::Success, message),
                    Err(message) => (LogLevel::Error, message),
                },
            ),
            TestView::Finish { remaining, result: verdict },
        )
    }

    /// What follows an event. An event that the pending action cannot cause changes
    /// nothing.
    pub open spec fn next(self, event: TestEventView) -> TestStep {
        match (self.phase, event) {
            (TestPhase::FindingPort, TestEventView::Found(yes)) => if yes {
                self.step(TestPhase::FindingTab, Seq::empty(), TestView::FindTab)
            } else {
                self.step(TestPhase::Launching, Seq::empty(), TestView::Launch)
            },
            (TestPhase::Launching, TestEventView::Step(r)) => match r {
                Ok(_) => self.step(TestPhase::FindingTab, Seq::empty(), TestView::FindTab),
                Err(e) => self.fail(Seq::empty(), e),
            },
            (TestPhase::FindingTab, TestEventView::Found(yes)) => if yes {
                self.with_tab()
            } else {
                self.step(TestPhase::OpeningTab, Seq::empty(), TestView::OpenTab)
            },
            (TestPhase::OpeningTab, TestEventView::Step(r)) => match r {
                Ok(_) => self.with_tab(),
                Err(e) => self.fail(Seq::empty(), e),
            },
            (TestPhase::Preparing, TestEventView::Step(r)) => match r {
                Ok(_) => self.step(
                    TestPhase::LoggingIn,
                    seq![(LogLevel::Success, "OCR 服务检查/初始化成功"@)],
                    TestView::Login,
                ),
                Err(e) => self.fail(
                    seq![(LogLevel::Error, "OCR 服务检查/初始化失败："@ + e)],
                    "OCR 服务检查/初始化失败："@ + e,
                ),
            },
            (TestPhase::LoggingIn, TestEventView::Login(r)) => self.judged(r),
            _ => TestStep { state: self, notes: Seq::empty(), action: TestView::Keep },
        }
    }

    /// Whether `event` is of the kind that the pending action causes.
    pub open spec fn awaits(self, event: TestEventView) -> bool {
        match self.phase {
            TestPhase::FindingPort | TestPhase::FindingTab => event is Found,
            TestPhase::Launching | TestPhase::OpeningTab | TestPhase::Preparing => event is Step,
            TestPhase::LoggingIn => event is Login,
            TestPhase::Done => false,
        }
    }

    /// An upper bound on the number of actions that are left.
    pub open spec fn steps_left(self) -> int {
        match self.phase {
            TestPhase::FindingPort => 6,
            TestPhase::Launching => 5,
            TestPhase::FindingTab => 4,
            TestPhase::OpeningTab => 3,
            TestPhase::Preparing => 2,
            TestPhase::LoggingIn => 1,
            TestPhase::Done => 0,
        }
    }
}

/// Why the login of a site cannot be tried out.
pub open spec fn test_refusal(site: Option<SiteView>) -> Option<Seq<char>> {
    match site {
        None => Some("未找到要测试的站点"@),
        Some(s) => if has_credentials(s) {
            None
        } else {
            Some("请先配置登录用户名和密码"@)
        },
    }
}

/// What an optional site says.
pub open spec fn opt_site(site: Option<&Site>) -> Option<SiteView> {
    match site {
        Some(s) => Some(s@),
        None => None,
    }
}

/// What the start of a trial says.
pub open spec fn test_start(r: Result<(LoginTest, TestTurn), String>) -> Result<
    TestStep,
    Seq<char>,
> {
    match r {
        Ok(x) => Ok(test_step(x.0@, x.1)),
        Err(e) => Err(e@),
    }
}

fn nexus_site(site: &Site) -> (r: bool)
    ensures
        r == (adapter_for(site@.url) == SiteAdapter::NexusPhp),
{
    match SiteAdapter::from_url(site.url.as_str()) {
        SiteAdapter::NexusPhp => true,
        _ => false,
    }
}

impl LoginTest {
    /// The trial of the login of a site and what to do first.
    pub fn begin(site: Option<&Site>, config: &AppConfig) -> (r: Result<
        (LoginTest, TestTurn),
        String,
    >)
        ensures
            test_start(r) == match test_refusal(opt_site(site)) {
                Some(e) => Err(e),
                None => Ok(
                    (TestModel {
                        name: opt_site(site)->0.name,
                        nexus: adapter_for(opt_site(site)->0.url) == SiteAdapter::NexusPhp,
                        has_ocr: config.ocr_server_url@.len() > 0,
                        min_remaining: config.min_login_attempts_remaining,
                        phase: TestPhase::FindingPort,
                    }).step(TestPhase::FindingPort, Seq::empty(), TestView::FindPort),
                ),
            },
    {
        let site: &Site = match site {
            Some(site) => site,
            None => return Err("未找到要测试的站点".to_string()),
        };
        if !site_has_credentials(site) {
            return Err("请先配置登录用户名和密码".to_string());
        }
        let t: LoginTest = LoginTest {
            name: site.name.clone(),
            nexus: nexus_site(site),
            has_ocr: !config.ocr_server_url.as_str().is_empty(),
            min_remaining: config.min_login_attempts_remaining,
            phase: TestPhase::FindingPort,
        };
        Ok((t, TestTurn { notes: no_notes(), action: TestAction::FindPort }))
    }

    fn go(&mut self, phase: TestPhase, notes: Vec<(LogLevel, String)>, action: TestAction) -> (r:
        TestTurn)
        ensures
            test_step(final(self)@, r) == old(self)@.step(phase, note_views(notes@), action@),
    {
        self.phase = phase;
        TestTurn { notes, action }
    }

    fn fail(&mut self, notes: Vec<(LogLevel, String)>, message: String) -> (r: TestTurn)
        ensures
            test_step(final(self)@, r) == old(self)@.fail(note_views(notes@), message@),
    {
        self.go(
            TestPhase::Done,
            notes,
            TestAction::Finish { remaining: None, result: Err(message) },
        )
    }

    fn with_tab(&mut self) -> (r: TestTurn)
        ensures
            test_step(final(self)@, r) == old(self)@.with_tab(),
    {
        if self.nexus && self.has_ocr {
            self.go(
                TestPhase::Preparing,
                one_note(LogLevel::Info, "正在检查并初始化 OCR 服务...".to_string()),
                TestAction::Prepare,
            )
        } else {
            self.go(TestPhase::LoggingIn, no_notes(), TestAction::Login)
        }
    }

    fn judge(&mut self, result: &Result<LoginOutcome, LoginError>) -> (r: TestTurn)
        ensures
            test_step(final(self)@, r) == old(self)@.judged(login_result(*result)),
    {
        let told: Option<u32> = match result {
            Ok(o) => o.remaining_attempts,
            Err(e) => e.remaining_attempts,
        };
        let remaining: Option<u32> = if self.nexus {
            told
        } else {
            None
        };
        let mut notes: Vec<(LogLevel, String)> = no_notes();
        if let Some(n) = remaining {
            push_note(
                &mut notes,
                LogLevel::Info,
                attempts_message(self.name.as_str(), n, self.min_remaining),
            );
            assert(note_views(notes@) =~= seq![
                (LogLevel::Info, attempts_text(self.name@, n, self.min_remaining)),
            ]);
        }
        let verdict: Result<String, String> = match result {
            Ok(o) => match o.state {
                LoginState::LoggedIn => Ok(
                    self.name.clone().concat(" 自动登录测试成功"),
                ),
                LoginState::AlreadyLoggedIn => Ok(
                    self.name.clone().concat(" 当前已处于登录状态"),
                ),
            },
            Err(e) => Err(
                self.name.clone().concat(" 登录测试失败：").concat(e.message.as_str()),
            ),
        };
        match &verdict {
            Ok(message) => push_note(&mut notes, LogLevel::Success, message.clone()),
            Err(message) => push_note(&mut notes, LogLevel::Error, message.clone()),
        }
        self.go(TestPhase::Done, notes, TestAction::Finish { remaining, result: verdict })
    }

    /// Takes in what came of the pending action and tells what to do next.
    pub fn advance(&mut self, event: &TestEvent) -> (r: TestTurn)
        ensures
            test_step(final(self)@, r) == old(self)@.next(event@),
    {
        match (self.phase, event) {
            (TestPhase::FindingPort, TestEvent::Found(yes)) => if *yes {
                self.go(TestPhase::FindingTab, no_notes(), TestAction::FindTab)
            } else {
                self.go(TestPhase::Launching, no_notes(), TestAction::Launch)
            },
            (TestPhase::Launching, TestEvent::Step(r)) => match r {
                Ok(_) => self.go(TestPhase::FindingTab, no_notes(), TestAction::FindTab),
                Err(e) => self.fail(no_notes(), e.clone()),
            },
            (TestPhase::FindingTab, TestEvent::Found(yes)) => if *yes {
                self.with_tab()
            } else {
                self.go(TestPhase::OpeningTab, no_notes(), TestAction::OpenTab)
            },
            (TestPhase::OpeningTab, TestEvent::Step(r)) => match r {
                Ok(_) => self.with_tab(),
                Err(e) => self.fail(no_notes(), e.clone()),
            },
            (TestPhase::Preparing, TestEvent::Step(r)) => match r {
                Ok(_) => self.go(
                    TestPhase::LoggingIn,
                    one_note(
                        LogLevel::Success,
                        "OCR 服务检查/初始化成功".to_string(),
                    ),
                    TestAction::Login,
                ),
                Err(e) => {
                    let message: String = "OCR 服务检查/初始化失败：".to_string().concat(
                        e.as_str(),
                    );
                    self.fail(one_note(LogLevel::Error, message.clone()), message)
                },
            },
            (TestPhase::LoggingIn, TestEvent::Login(r)) => self.judge(r),
            _ => TestTurn { notes: no_notes(), action: TestAction::Keep },
        }
    }
}

/// Every answered action brings the trial closer to its end.
pub proof fn login_test_ends(s: TestModel, event: TestEventView)
    requires
        s.awaits(event),
    ensures
        0 <= s.next(event).state.steps_left() < s.steps_left(),
{
}

/// A trial succeeds only where a login did.
pub proof fn tested_login_succeeded(s: TestModel, event: TestEventView)
    requires
        s.next(event).action matches TestView::Finish { result, .. } && result is Ok,
    ensures
        event matches TestEventView::Login(r) && r is Ok,
{
}

/// Only sites that count attempts have them noted.
pub proof fn attempts_are_of_nexus_sites(s: TestModel, event: TestEventView)
    requires
        s.next(event).action matches TestView::Finish { remaining, .. } && remaining is Some,
    ensures
        s.nexus,
{
}

/// A trial goes its way: a browser that answers is used and else one is started, a tab that
/// shows the site is used and else one is opened, the recognition is made ready where the
/// login may need it, and then the login is tried; nothing of this is done out of turn.
pub proof fn login_test_goes_its_way(s: TestModel, event: TestEventView)
    requires
        s.awaits(event),
    ensures
        ({
            let action = s.next(event).action;
            let found = event == TestEventView::Found(true);
            let done = event matches TestEventView::Step(r) && r is Ok;
            let tab = s.phase == TestPhase::FindingTab && found || s.phase == TestPhase::OpeningTab
                && done;
            &&& action == TestView::Launch <==> s.phase == TestPhase::FindingPort && !found
            &&& action == TestView::FindTab <==> s.phase == TestPhase::FindingPort && found
                || s.phase == TestPhase::Launching && done
            &&& action == TestView::OpenTab <==> s.phase == TestPhase::FindingTab && !found
            &&& action == TestView::Prepare <==> tab && s.nexus && s.has_ocr
            &&& action == TestView::Login <==> tab && !(s.nexus && s.has_ocr) || s.phase
                == TestPhase::Preparing && done
            &&& action is Finish <==> event is Login || (event matches TestEventView::Step(r)
                && r is Err)
            &&& action != TestView::FindPort
        }),
{
}

/// The state of a trial is that of its pending action.
pub proof fn login_test_waits_for_what_it_asked(s: TestModel, event: TestEventView)
    requires
        s.awaits(event),
    ensures
        ({
            let after = s.next(event);
            &&& after.action == TestView::Launch <==> after.state.phase == TestPhase::Launching
            &&& after.action == TestView::FindTab <==> after.state.phase == TestPhase::FindingTab
            &&& after.action == TestView::OpenTab <==> after.state.phase == TestPhase::OpeningTab
            &&& after.action == TestView::Prepare <==> after.state.phase == TestPhase::Preparing
            &&& after.action == TestView::Login <==> after.state.phase == TestPhase::LoggingIn
            &&& after.action is Finish <==> after.state.phase == TestPhase::Done
            &&& after.state.name == s.name && after.state.nexus == s.nexus && after.state.has_ocr
                == s.has_ocr && after.state.min_remaining == s.min_remaining
        }),
{
}

/// The verdict of a trial is that of its login: it succeeds exactly where the login did, is
/// told with that level, and hands on the attempts left that the login reported.
pub proof fn login_test_tells_the_login(
    s: TestModel,
    result: Result<LoginOutcome, (Seq<char>, Option<u32>)>,
)
    requires
        s.phase == TestPhase::LoggingIn,
    ensures
        ({
            let after = s.next(TestEventView::Login(result));
            let told = match result {
                Ok(o) => o.remaining_attempts,
                Err(e) => e.1,
            };
            &&& after.action is Finish
            &&& after.action->Finish_result is Ok <==> result is Ok
            &&& s.nexus ==> after.action->Finish_remaining == told
            &&& !s.nexus ==> after.action->Finish_remaining is None
            &&& result is Ok ==> after.notes.last() == (
                LogLevel::Success,
                after.action->Finish_result->Ok_0,
            )
            &&& result is Err ==> after.notes.last() == (
                LogLevel::Error,
                after.action->Finish_result->Err_0,
            )
            &&& after.notes.len() == (if s.nexus && told is Some {
                2int
            } else {
                1
            })
        }),
{
}

/// A step that fails ends the trial with its own error, noting no attempts.
pub proof fn login_test_tells_what_failed(s: TestModel, e: Seq<char>)
    requires
        s.awaits(TestEventView::Step(Err(e))),
    ensures
        s.next(TestEventView::Step(Err(e))).action == (TestView::Finish {
            remaining: None,
            result: Err(
                if s.phase == TestPhase::Preparing {
                    "OCR 服务检查/初始化失败："@ + e
                } else {
                    e
                },
            ),
        }),
{
}

/// A trial begins exactly where there is a site with a user name and a password, by looking
/// for a browser; it counts attempts for the sites that have them.
pub proof fn login_test_begins_with_credentials(
    site: Option<&Site>,
    config: &AppConfig,
    r: Result<(LoginTest, TestTurn), String>,
)
    requires
        call_ensures(LoginTest::begin, (site, config), r),
    ensures
        r is Ok <==> site is Some && crate::text::trimmed((site->0)@.username).len() > 0 && (
        site->0)@.password.len() > 0,
        r matches Ok(x) ==> x.1.action@ == TestView::FindPort && x.0@.phase
            == TestPhase::FindingPort && x.0@.name == (site->0)@.name && x.0@.min_remaining
            == config.min_login_attempts_remaining && x.0@.nexus == (adapter_for((site->0)@.url)
            == SiteAdapter::NexusPhp) && x.0@.has_ocr == (config.ocr_server_url@.len() > 0),
{
    let x = test_start(r);
    if r is Ok {
        assert(x is Ok);
    }
}

} // verus!
