use pt_manager::attend::{Attend, AttendAction, AttendEvent, Outcome};
use pt_manager::captcha::{CaptchaAction, CaptchaEvent, CaptchaRun, CaptchaTurn};
use pt_manager::keepalive::{
    KeepAction, KeepAlive, KeepEvent, KeepNote, KeepTurn, SleepStage, CDP_CANCELLED,
};
use pt_manager::login::{LoginError, LoginOutcome, LoginState};
use pt_manager::login_test::{attempts_message, LoginTest, TestAction, TestEvent, TestTurn};
use pt_manager::notes::{no_notes, one_note, push_note};
use pt_manager::ocr::RecognitionResult;
use pt_manager::scheduler::{
    interrupt_text, keep_note_text, login_note_text, site_of_note, LogLevel, LoginNote,
};
use pt_manager::signin::{SigninResult, SigninStatus};
use pt_manager::store::{AppConfig, Site};
use pt_manager::traffic::SiteTraffic;

fn site(url: &str) -> Site {
    Site {
        id: "1".to_string(),
        name: "站".to_string(),
        url: url.to_string(),
        username: "u".to_string(),
        password: "p".to_string(),
        totp_secret: String::new(),
        auto_login: true,
        login_attempts_remaining: None,
        auto_keepalive: true,
    }
}

fn config(ocr: &str) -> AppConfig {
    let mut config = AppConfig::default();
    config.ocr_server_url = ocr.to_string();
    config.ocr_retry_count = 2;
    config.min_login_attempts_remaining = 5;
    config
}

fn step(run: &mut KeepAlive, event: KeepEvent) -> KeepTurn {
    run.advance(&event, false)
}

fn slept() -> KeepEvent {
    KeepEvent::Slept { interrupted: false }
}

#[test]
fn rounds_without_sites_end() {
    let (_, turn) = KeepAlive::begin(vec![], 9222, true, true, 30, 30);
    assert_eq!(turn.notes, vec![KeepNote::NoSites]);
    assert_eq!(turn.action, KeepAction::Finish { cancelled: false });
}

#[test]
fn scheduled_rounds_visit_sites_in_turn() {
    let (mut run, turn) = KeepAlive::begin(vec![true], 9222, true, false, 1, 30);
    assert_eq!(turn.action, KeepAction::FindPort);
    let turn = step(&mut run, KeepEvent::Port(Some(9333)));
    assert_eq!(
        turn.notes,
        vec![KeepNote::ReusedPort { port: 9333 }, KeepNote::Started { count: 1 }]
    );
    assert_eq!(turn.action, KeepAction::Draw { low: 0, high: 60 });
    let turn = step(&mut run, KeepEvent::Drawn(42));
    assert_eq!(turn.notes, vec![KeepNote::Delayed { seconds: 42 }]);
    assert_eq!(turn.action, KeepAction::Sleep { seconds: 42, stage: SleepStage::Delay });
    let turn = step(&mut run, slept());
    assert_eq!(turn.action, KeepAction::Open { site: 0, reuse: false });
    let turn = step(&mut run, KeepEvent::Tab(true));
    assert_eq!(turn.action, KeepAction::Login { site: 0 });
    let turn = step(&mut run, KeepEvent::LoginsDone);
    assert_eq!(turn.action, KeepAction::Draw { low: 0, high: 9 });
    let turn = step(&mut run, KeepEvent::Drawn(9));
    assert_eq!(
        turn.action,
        KeepAction::Sleep { seconds: 39, stage: SleepStage::Stay { site: 0 } }
    );
    let turn = step(&mut run, slept());
    assert_eq!(turn.action, KeepAction::Close { site: 0 });
    let turn = step(&mut run, KeepEvent::Closed(false));
    assert_eq!(turn.notes, vec![KeepNote::CloseFailed, KeepNote::Kept { site: 0 }]);
    assert_eq!(turn.action, KeepAction::Draw { low: 5, high: 14 });
    let turn = step(&mut run, KeepEvent::Drawn(5));
    assert_eq!(turn.action, KeepAction::Sleep { seconds: 5, stage: SleepStage::Interval });
    let turn = step(&mut run, slept());
    assert_eq!(turn.notes, vec![KeepNote::AllDone]);
    assert_eq!(turn.action, KeepAction::Finish { cancelled: false });
}

#[test]
fn failed_visits_do_not_end_a_round() {
    let (mut run, _) = KeepAlive::begin(vec![false, false], 9222, true, false, -5, 30);
    let turn = step(&mut run, KeepEvent::Port(Some(9222)));
    assert_eq!(turn.action, KeepAction::Open { site: 0, reuse: false });
    let turn = step(&mut run, KeepEvent::Tab(false));
    assert_eq!(turn.notes, vec![KeepNote::VisitFailed { site: 0 }]);
    step(&mut run, KeepEvent::Drawn(7));
    let turn = step(&mut run, slept());
    assert_eq!(turn.action, KeepAction::Open { site: 1, reuse: false });
}

#[test]
fn rounds_by_hand_open_all_sites_at_once() {
    let (mut run, _) = KeepAlive::begin(vec![true, false], 9222, false, false, 30, 30);
    let turn = step(&mut run, KeepEvent::Port(None));
    assert_eq!(turn.action, KeepAction::Launch { with_sites: true });
    let turn = step(&mut run, KeepEvent::Launched { port: 5, opened: 2 });
    assert_eq!(turn.action, KeepAction::Open { site: 0, reuse: true });
    let turn = step(&mut run, KeepEvent::Tab(true));
    assert_eq!(turn.action, KeepAction::StartLogin { site: 0 });
    let turn = step(&mut run, KeepEvent::LoginsDone);
    assert_eq!(turn.action, KeepAction::Open { site: 1, reuse: true });
    let turn = step(&mut run, KeepEvent::Tab(true));
    assert_eq!(turn.action, KeepAction::JoinLogins);
    let turn = step(&mut run, KeepEvent::LoginsDone);
    assert_eq!(turn.notes, vec![KeepNote::StayingOnAll { count: 2, seconds: 30 }]);
    assert_eq!(turn.action, KeepAction::Sleep { seconds: 30, stage: SleepStage::StayOnAll });
    let turn = step(&mut run, slept());
    assert_eq!(turn.action, KeepAction::Close { site: 0 });
    let turn = step(&mut run, KeepEvent::Closed(false));
    assert_eq!(turn.notes, vec![KeepNote::SiteCloseFailed { site: 0 }]);
    let turn = step(&mut run, KeepEvent::Closed(true));
    assert_eq!(turn.notes, vec![KeepNote::Kept { site: 1 }, KeepNote::AllDone]);
    assert_eq!(turn.action, KeepAction::Finish { cancelled: false });
}

#[test]
fn rounds_by_hand_need_an_open_site() {
    let (mut run, _) = KeepAlive::begin(vec![true], 9222, false, false, 30, 30);
    step(&mut run, KeepEvent::Port(Some(9222)));
    step(&mut run, KeepEvent::Tab(false));
    let turn = step(&mut run, KeepEvent::LoginsDone);
    assert_eq!(turn.notes, vec![KeepNote::NothingOpened]);
    assert_eq!(turn.action, KeepAction::Finish { cancelled: false });
}

#[test]
fn stopped_rounds_close_their_tabs() {
    let (mut run, _) = KeepAlive::begin(vec![false], 9222, false, false, 30, 30);
    step(&mut run, KeepEvent::Port(Some(9222)));
    step(&mut run, KeepEvent::Tab(true));
    step(&mut run, KeepEvent::LoginsDone);
    let turn = step(&mut run, KeepEvent::Slept { interrupted: true });
    assert_eq!(turn.action, KeepAction::Close { site: 0 });
    let turn = step(&mut run, KeepEvent::Closed(false));
    assert_eq!(turn.notes, vec![KeepNote::SiteStopCloseFailed { site: 0 }]);
    assert_eq!(turn.action, KeepAction::Finish { cancelled: true });
    let (mut run, _) = KeepAlive::begin(vec![false], 9222, true, false, 0, 30);
    let turn = run.advance(&KeepEvent::Port(Some(9222)), true);
    assert_eq!(turn.action, KeepAction::Finish { cancelled: true });
}

#[test]
fn failed_syncs_do_not_end_a_round_unless_stopped() {
    let (mut run, turn) = KeepAlive::begin(vec![false], 9222, true, true, 0, 30);
    assert_eq!(turn.notes, vec![KeepNote::SyncStarted]);
    assert_eq!(turn.action, KeepAction::Sync);
    let turn = step(&mut run, KeepEvent::SyncFailed { message: "e".to_string() });
    assert_eq!(turn.notes, vec![KeepNote::SyncFailed]);
    assert_eq!(turn.action, KeepAction::FindPort);
    let (mut run, _) = KeepAlive::begin(vec![false], 9222, true, true, 0, 30);
    let turn = step(&mut run, KeepEvent::SyncFailed { message: CDP_CANCELLED.to_string() });
    assert_eq!(turn.action, KeepAction::Finish { cancelled: true });
    let (mut run, _) = KeepAlive::begin(vec![false], 9222, true, false, 0, 30);
    step(&mut run, KeepEvent::Port(None));
    let turn = step(&mut run, KeepEvent::LaunchFailed { message: "e".to_string() });
    assert_eq!(turn.notes, vec![KeepNote::LaunchFailed]);
    assert_eq!(turn.action, KeepAction::Finish { cancelled: false });
}

#[test]
fn rounds_are_told() {
    let text = |note: KeepNote| keep_note_text(note, "站", "U", "E");
    assert_eq!(
        text(KeepNote::SyncDone { imported: 1, parsed: 2 }),
        (
            LogLevel::Success,
            "保活前 CookieCloud 自动同步完成：1 条登录数据已写入（共解析 2 条）".to_string()
        )
    );
    assert_eq!(
        text(KeepNote::SyncFailed),
        (LogLevel::Error, "保活前 CookieCloud 自动同步失败：E，继续执行保活".to_string())
    );
    assert_eq!(
        text(KeepNote::Staying { site: 0, seconds: 31 }),
        (LogLevel::Info, "站 停留 31 秒，保持登录态".to_string())
    );
    assert_eq!(text(KeepNote::Visiting { site: 0 }).1, "正在访问: 站 (U)");
    assert_eq!(text(KeepNote::VisitFailed { site: 0 }).1, "站 访问失败: E");
    assert_eq!(text(KeepNote::StopCloseFailed).1, "终止时关闭标签页失败: E");
    assert_eq!(
        text(KeepNote::StayingOnAll { count: 2, seconds: 30 }).1,
        "已打开 2 个站点，停留 30 秒"
    );
    assert_eq!(site_of_note(KeepNote::Opened { site: 3 }), Some(3));
    assert_eq!(site_of_note(KeepNote::AllDone), None);
    assert_eq!(
        interrupt_text(SleepStage::Stay { site: 0 }, "站"),
        "收到终止请求，正在中断站 的停留等待"
    );
    assert_eq!(interrupt_text(SleepStage::Delay, ""), "收到终止请求，正在中断随机延迟");
}

#[test]
fn logins_of_a_round_are_told() {
    assert_eq!(
        login_note_text("站", &LoginNote::LoggedIn),
        (LogLevel::Success, "站 自动登录成功".to_string())
    );
    assert_eq!(
        login_note_text("站", &LoginNote::AlreadyLoggedIn),
        (LogLevel::Info, "站 已处于登录状态".to_string())
    );
    assert_eq!(
        login_note_text("站", &LoginNote::Failed("e".to_string())),
        (LogLevel::Error, "站 自动登录失败：e".to_string())
    );
    assert_eq!(
        login_note_text("站", &LoginNote::MissingCredentials),
        (LogLevel::Error, "站 已开启自动登录，但用户名或密码未配置".to_string())
    );
}

#[test]
fn notes_are_kept_in_order() {
    assert!(no_notes().is_empty());
    let mut notes = one_note(LogLevel::Info, "a".to_string());
    push_note(&mut notes, LogLevel::Error, "b".to_string());
    assert_eq!(
        notes,
        vec![(LogLevel::Info, "a".to_string()), (LogLevel::Error, "b".to_string())]
    );
}

fn outcome(state: LoginState, remaining: Option<u32>) -> TestEvent {
    TestEvent::Login(Ok(LoginOutcome { state, remaining_attempts: remaining }))
}

fn finished(turn: TestTurn) -> (Option<u32>, Result<String, String>) {
    match turn.action {
        TestAction::Finish { remaining, result } => (remaining, result),
        other => panic!("{:?}", other),
    }
}

fn tested(url: &str, ocr: &str) -> LoginTest {
    let one = site(url);
    let (mut test, turn) = LoginTest::begin(Some(&one), &config(ocr)).unwrap();
    assert!(matches!(turn.action, TestAction::FindPort));
    assert!(matches!(test.advance(&TestEvent::Found(true)).action, TestAction::FindTab));
    test
}

#[test]
fn tested_sites_must_be_known_and_complete() {
    assert_eq!(
        LoginTest::begin(None, &config("")).err(),
        Some("未找到要测试的站点".to_string())
    );
    let mut one = site("https://a.b");
    one.username = "  ".to_string();
    assert_eq!(
        LoginTest::begin(Some(&one), &config("")).err(),
        Some("请先配置登录用户名和密码".to_string())
    );
}

#[test]
fn tested_logins_are_reported() {
    let mut test = tested("https://a.b", "http://o");
    let turn = test.advance(&TestEvent::Found(false));
    assert!(matches!(turn.action, TestAction::OpenTab));
    let turn = test.advance(&TestEvent::Step(Ok(())));
    assert!(matches!(turn.action, TestAction::Prepare));
    assert_eq!(turn.notes[0].1, "正在检查并初始化 OCR 服务...");
    let turn = test.advance(&TestEvent::Step(Ok(())));
    assert!(matches!(turn.action, TestAction::Login));
    assert_eq!(turn.notes[0], (LogLevel::Success, "OCR 服务检查/初始化成功".to_string()));
    let turn = test.advance(&outcome(LoginState::LoggedIn, Some(9)));
    assert_eq!(
        turn.notes,
        vec![
            (LogLevel::Info, attempts_message("站", 9, 5)),
            (LogLevel::Success, "站 自动登录测试成功".to_string()),
        ]
    );
    assert_eq!(finished(turn), (Some(9), Ok("站 自动登录测试成功".to_string())));
    assert_eq!(attempts_message("站", 9, 5), "站 当前剩余登录尝试次数：9（安全阈值：5）");
}

#[test]
fn attempts_are_counted_on_nexus_sites_only() {
    let mut test = tested("https://kp.m-team.cc", "http://o");
    let turn = test.advance(&TestEvent::Found(true));
    assert!(matches!(turn.action, TestAction::Login));
    let turn = test.advance(&outcome(LoginState::AlreadyLoggedIn, Some(9)));
    assert_eq!(finished(turn), (None, Ok("站 当前已处于登录状态".to_string())));
}

#[test]
fn failed_tests_are_told() {
    let mut test = tested("https://a.b", "");
    let turn = test.advance(&TestEvent::Found(true));
    assert!(matches!(turn.action, TestAction::Login));
    let turn = test.advance(&TestEvent::Login(Err(LoginError {
        message: "e".to_string(),
        remaining_attempts: None,
    })));
    assert_eq!(turn.notes, vec![(LogLevel::Error, "站 登录测试失败：e".to_string())]);
    assert_eq!(finished(turn), (None, Err("站 登录测试失败：e".to_string())));
    let one = site("https://a.b");
    let (mut test, _) = LoginTest::begin(Some(&one), &config("")).unwrap();
    assert!(matches!(test.advance(&TestEvent::Found(false)).action, TestAction::Launch));
    let turn = test.advance(&TestEvent::Step(Err("e".to_string())));
    assert_eq!(finished(turn), (None, Err("e".to_string())));
}

fn ended(turn: CaptchaTurn) -> Result<String, String> {
    match turn.action {
        CaptchaAction::Finish(result) => result,
        other => panic!("{:?}", other),
    }
}

fn renewing() -> CaptchaRun {
    let one = site("https://a.b");
    let (mut run, turn) = CaptchaRun::begin(Some(&one), &config("http://o")).unwrap();
    assert!(matches!(turn.action, CaptchaAction::Prepare));
    run.advance(&CaptchaEvent::Step(Ok(())));
    run.advance(&CaptchaEvent::Found(true));
    let turn = run.advance(&CaptchaEvent::Found(true));
    assert!(matches!(turn.action, CaptchaAction::Renew));
    run
}

#[test]
fn captchas_are_read_on_nexus_sites_only() {
    let error = |site: Option<&Site>, ocr: &str| {
        CaptchaRun::begin(site, &config(ocr)).err().unwrap()
    };
    assert_eq!(error(None, "http://o"), "未找到要识别验证码的站点");
    assert_eq!(
        error(Some(&site("https://hdkyl.in")), "http://o"),
        "当前验证码识别仅支持 NexusPHP 架构的站点"
    );
    assert_eq!(error(Some(&site("https://a.b")), " "), "请先在设置中配置 OCR 服务地址");
}

#[test]
fn captchas_are_recognised_and_filled_in() {
    let mut run = renewing();
    let turn = run.advance(&CaptchaEvent::Renewed(Ok(false)));
    assert!(matches!(turn.action, CaptchaAction::Count));
    let turn = run.advance(&CaptchaEvent::Counted(Ok(Some(9))));
    assert_eq!(turn.remaining, Some(9));
    assert!(matches!(turn.action, CaptchaAction::ReadImage));
    let turn = run.advance(&CaptchaEvent::Image(Ok("x".to_string())));
    assert!(matches!(turn.action, CaptchaAction::Recognise(i) if i == "x"));
    let found = RecognitionResult { text: "abc123".to_string(), attempts: 2 };
    let turn = run.advance(&CaptchaEvent::Recognised(Ok(found)));
    assert_eq!(turn.notes[0].1, "站 OCR 识别：第 2/2 次成功，验证码：abc123");
    assert!(matches!(turn.action, CaptchaAction::Fill(t) if t == "abc123"));
    let turn = run.advance(&CaptchaEvent::Step(Ok(())));
    assert_eq!(
        ended(turn),
        Ok("站 验证码已识别并填入，请在浏览器中确认后点击登录".to_string())
    );
}

#[test]
fn recognition_stops_at_the_threshold() {
    let mut run = renewing();
    run.advance(&CaptchaEvent::Renewed(Ok(true)));
    let turn = run.advance(&CaptchaEvent::Counted(Ok(Some(5))));
    assert_eq!(turn.remaining, Some(5));
    assert_eq!(turn.notes.len(), 2);
    assert_eq!(
        ended(turn),
        Err("站 当前仅剩 5 次登录机会，已达到安全阈值 5，停止验证码识别与登录重试".to_string())
    );
}

#[test]
fn new_captchas_have_the_form_filled_in_again() {
    let mut run = renewing();
    run.advance(&CaptchaEvent::Renewed(Ok(true)));
    let turn = run.advance(&CaptchaEvent::Counted(Ok(None)));
    assert!(matches!(turn.action, CaptchaAction::Refill));
    let turn = run.advance(&CaptchaEvent::Refilled(Err(LoginError {
        message: "站 登录信息已填写，请人工输入图片验证码并点击登录".to_string(),
        remaining_attempts: Some(8),
    })));
    assert_eq!(turn.remaining, Some(8));
    assert!(matches!(turn.action, CaptchaAction::ReadImage));
    let mut run = renewing();
    run.advance(&CaptchaEvent::Renewed(Ok(true)));
    run.advance(&CaptchaEvent::Counted(Ok(None)));
    let turn = run.advance(&CaptchaEvent::Refilled(Ok(LoginOutcome {
        state: LoginState::LoggedIn,
        remaining_attempts: None,
    })));
    assert_eq!(ended(turn), Err("Audiences 当前不再需要图片验证码".to_string()));
}

#[test]
fn failed_recognitions_are_told() {
    let mut run = renewing();
    assert_eq!(
        ended(run.advance(&CaptchaEvent::Renewed(Err("e".to_string())))),
        Err("e".to_string())
    );
    let mut run = renewing();
    run.advance(&CaptchaEvent::Renewed(Ok(false)));
    run.advance(&CaptchaEvent::Counted(Ok(None)));
    run.advance(&CaptchaEvent::Image(Ok("x".to_string())));
    let turn = run.advance(&CaptchaEvent::Recognised(Err("e".to_string())));
    assert_eq!(turn.notes, vec![(LogLevel::Error, "站 OCR 识别失败：e".to_string())]);
    assert_eq!(ended(turn), Err("站 OCR 识别失败：e".to_string()));
}

fn signed() -> SigninResult {
    SigninResult {
        status: SigninStatus::Success,
        message: "签到成功".to_string(),
        reward: None,
        total_days: None,
        consecutive_days: Some(2),
    }
}

fn shown(upload: Option<&str>) -> SiteTraffic {
    SiteTraffic { upload: upload.map(|s| s.to_string()), download: None, ratio: None }
}

#[test]
fn an_attendance_logs_in_signs_in_and_reads_traffic() {
    let (mut run, turn) = Attend::begin(&site("https://a.b"));
    assert!(matches!(turn.action, AttendAction::LogIn) && turn.notes.is_empty());
    let turn = run.advance(AttendEvent::Traffic(None));
    assert!(matches!(turn.action, AttendAction::Keep));
    let turn = run.advance(AttendEvent::Login(Ok(LoginState::AlreadyLoggedIn)));
    assert!(matches!(turn.action, AttendAction::SignIn));
    assert_eq!(turn.notes, vec![(LogLevel::Info, "站 已处于登录状态".to_string())]);
    let turn = run.advance(AttendEvent::Signin(Ok(signed())));
    assert!(matches!(turn.action, AttendAction::ReadTraffic));
    assert_eq!(turn.notes, vec![(LogLevel::Info, "站 签到成功，连续签到 2 天".to_string())]);
    let turn = run.advance(AttendEvent::Traffic(Some(shown(Some("1 TB")))));
    assert!(matches!(turn.action, AttendAction::Finish));
    assert_eq!(
        turn.notes,
        vec![(LogLevel::Info, "站 上传 1 TB，下载 未识别，分享率 未识别".to_string())]
    );
    let mut all = Outcome::nothing();
    all.take(run.outcome);
    assert_eq!(all.successful, vec!["站".to_string()]);
    assert!(all.failed.is_empty());
    assert_eq!((all.signins.len(), all.traffic.len()), (1, 1));
    assert_eq!(all.signins[0].1.consecutive_days, Some(2));
}

#[test]
fn a_failed_login_ends_an_attendance() {
    let (mut run, _) = Attend::begin(&site("https://a.b"));
    let turn = run.advance(AttendEvent::Login(Err("原因".to_string())));
    assert!(matches!(turn.action, AttendAction::Finish));
    assert_eq!(turn.notes, vec![(LogLevel::Error, "站 自动登录失败：原因".to_string())]);
    assert_eq!(run.outcome.failed, vec![("站".to_string(), "原因".to_string())]);
    assert!(run.outcome.successful.is_empty() && run.outcome.signins.is_empty());
}

#[test]
fn an_attendance_may_have_nothing_to_do() {
    let mut quiet = site("https://a.b");
    quiet.auto_login = false;
    let (_, turn) = Attend::begin(&quiet);
    assert!(matches!(turn.action, AttendAction::Finish) && turn.notes.is_empty());
    let mut blank = site("https://a.b");
    blank.username = " ".to_string();
    let (_, turn) = Attend::begin(&blank);
    assert!(matches!(turn.action, AttendAction::Finish));
    assert_eq!(turn.notes[0].0, LogLevel::Error);
}

#[test]
fn a_failed_sign_in_is_reported_and_bare_traffic_is_not() {
    let (mut run, _) = Attend::begin(&site("https://a.b"));
    run.advance(AttendEvent::Login(Ok(LoginState::LoggedIn)));
    let turn = run.advance(AttendEvent::Signin(Err("超时".to_string())));
    assert!(matches!(turn.action, AttendAction::ReadTraffic) && turn.notes.is_empty());
    let turn = run.advance(AttendEvent::Traffic(Some(shown(None))));
    assert!(matches!(turn.action, AttendAction::Finish) && turn.notes.is_empty());
    assert_eq!(run.outcome.signins[0].1.status, SigninStatus::Failed);
    assert_eq!(run.outcome.signins[0].1.message, "超时");
    assert!(run.outcome.traffic.is_empty());
}
