use pt_manager::host::{
    host_from_url, hosts_match, listed_host, match_host, normalize_host, origin_from_url,
    site_host_from_url, unique_origins,
};
use pt_manager::signin::{
    api_path, result_from_api, result_from_state, result_of_api, result_of_both, same_site,
    ApiSigninKind, ApiSigninState, PageState, SigninAdapter, SigninResult, SigninRoute,
    SigninStatus,
};
use pt_manager::signin_flow::{
    SigninAction, SigninEvent, SigninRun, SigninStop, SigninTurn, SIGNIN_WAIT_STEPS,
};

fn page() -> PageState {
    PageState {
        ready: true,
        current_url: "https://a.b/attendance.php".to_string(),
        entry_url: None,
        nexusphp_like: true,
        home_already_signed: false,
        success: false,
        already_signed: false,
        has_login_form: false,
        has_challenge: false,
        challenge_ready: false,
        has_interactive_question: false,
        has_action: false,
        action_label: String::new(),
        action_key: String::new(),
        explicit_failure: false,
        message: String::new(),
        reward: None,
        total_days: None,
        consecutive_days: None,
    }
}

fn with_action() -> PageState {
    let mut state = page();
    state.has_action = true;
    state.action_key = "k".to_string();
    state.action_label = "签到".to_string();
    state
}

fn with_challenge() -> PageState {
    let mut state = page();
    state.has_challenge = true;
    state
}

fn api() -> ApiSigninState {
    ApiSigninState {
        success: false,
        already_signed: false,
        message: String::new(),
        reward: None,
        total_days: None,
        consecutive_days: None,
    }
}

fn finish(turn: SigninTurn) -> SigninResult {
    match turn.action {
        SigninAction::Finish(result) => result,
        other => panic!("{:?}", other),
    }
}

fn see(run: &mut SigninRun, state: PageState) -> SigninTurn {
    run.advance(&SigninEvent::Page(Some(state)), false)
}

fn looking() -> SigninRun {
    let (mut run, turn) = SigninRun::begin("站", "https://a.b", true, false);
    assert!(matches!(turn.action, SigninAction::Inspect));
    let turn = see(&mut run, page());
    assert_eq!(
        turn.note,
        Some("站 开始自动签到（通用规则）：https://a.b/attendance.php".to_string())
    );
    match turn.action {
        SigninAction::Open(url) => assert_eq!(url, "https://a.b/attendance.php"),
        other => panic!("{:?}", other),
    }
    let turn = run.advance(&SigninEvent::Outside(true), false);
    assert!(matches!(turn.action, SigninAction::Look { after_millis: 500 }));
    run
}

#[test]
fn sites_have_their_adapters() {
    let cases = [
        ("https://Audiences.me/", SigninAdapter::Audiences, "观众站点适配"),
        ("https://hdfans.org", SigninAdapter::Hdfans, "红豆饭站点适配"),
        ("https://pterclub.com", SigninAdapter::PterClub, "PTerClub 站点适配"),
        ("https://www.yemapt.org", SigninAdapter::Yema, "野马站点适配"),
        ("https://club.hares.top", SigninAdapter::Hares, "白兔站点适配"),
        ("https://rousi.pro", SigninAdapter::Rousi, "Rousi 站点适配"),
        ("https://pting.club", SigninAdapter::Pting, "PTing 论坛适配"),
        ("https://other.org", SigninAdapter::Generic, "通用规则"),
    ];
    for (url, adapter, label) in cases {
        assert_eq!(SigninAdapter::from_url(url), adapter);
        assert_eq!(adapter.label(), label);
    }
}

#[test]
fn addresses_of_attendance_pages_are_derived() {
    let generic = SigninAdapter::Generic;
    assert_eq!(
        generic.fallback_url(" https://a.b/Attendance.PHP?x=1 "),
        "https://a.b/Attendance.PHP"
    );
    assert_eq!(generic.fallback_url("https://a.b/sub/#top"), "https://a.b/sub/attendance.php");
    assert_eq!(generic.fallback_url("a.b/index.php"), "a.b/attendance.php");
    assert_eq!(generic.fallback_url("https://a.b"), "https://a.b/attendance.php");
    assert_eq!(
        SigninAdapter::Rousi.fallback_url("https://rousi.pro/x/y"),
        "https://rousi.pro/account/economy"
    );
}

#[test]
fn interfaces_are_known_by_path_and_name() {
    assert_eq!(api_path(ApiSigninKind::PterClub), ("/attendance-ajax.php", "pterclub"));
    assert_eq!(api_path(ApiSigninKind::Yema), ("/api/consumer/checkIn", "yema"));
    assert_eq!(api_path(ApiSigninKind::Hares), ("/attendance.php?action=sign", "hares"));
    assert_eq!(api_path(ApiSigninKind::Rousi), ("/api/points/attendance", "rousi"));
    assert_eq!(api_path(ApiSigninKind::Pting), ("/api/check-in", "pting"));
    assert!(matches!(SigninAdapter::Pting.route(), SigninRoute::Api(ApiSigninKind::Pting)));
    assert!(matches!(SigninAdapter::Yema.route(), SigninRoute::Page));
}

#[test]
fn failed_pages_fall_back_to_the_interface() {
    let failed = SigninResult::failure("p");
    assert!(matches!(
        SigninAdapter::Yema.fallback_after_page(&failed),
        Some(ApiSigninKind::Yema)
    ));
    assert!(SigninAdapter::Rousi.fallback_after_page(&failed).is_none());
    assert!(SigninAdapter::Generic.fallback_after_page(&failed).is_none());
    let fine = result_from_state(SigninStatus::AlreadySigned, &page());
    assert!(SigninAdapter::Yema.fallback_after_page(&fine).is_none());
}

#[test]
fn both_ways_are_told_when_both_fail() {
    let failed = SigninResult::failure("p");
    assert_eq!(
        result_of_both(&failed, Err("e".to_string())).message,
        "p；接口兜底失败：e"
    );
    let again = result_of_both(&failed, Ok(SigninResult::failure("q")));
    assert_eq!(again.message, "p；接口兜底失败：q");
    assert_eq!(again.status, SigninStatus::Failed);
    let mut state = api();
    state.success = true;
    let fine = result_of_both(&failed, Ok(result_from_api(&state)));
    assert_eq!(fine.message, "接口签到成功");
    assert!(fine.successful());
    assert_eq!(result_of_api(Err("e".to_string())).message, "e");
}

#[test]
fn empty_messages_are_replaced() {
    assert_eq!(result_from_state(SigninStatus::Success, &page()).message, "签到成功");
    assert_eq!(result_from_state(SigninStatus::AlreadySigned, &page()).message, "今日已签到");
    assert_eq!(result_from_state(SigninStatus::Failed, &page()).message, "签到失败");
    let mut state = api();
    assert_eq!(result_from_api(&state).message, "签到接口返回失败");
    state.already_signed = true;
    assert_eq!(result_from_api(&state).message, "今日已签到");
    assert_eq!(result_from_api(&state).status, SigninStatus::AlreadySigned);
    state.message = "m".to_string();
    assert_eq!(result_from_api(&state).message, "m");
}

#[test]
fn sign_ins_are_summed_up() {
    let mut result = SigninResult::failure("m");
    assert_eq!(result.summary(), "m");
    result.consecutive_days = Some(3);
    result.total_days = Some(40);
    result.reward = Some("10 魔力".to_string());
    assert_eq!(result.summary(), "m，连续签到 3 天，累计签到 40 次，本次奖励 10 魔力");
    result.reward = Some(String::new());
    assert_eq!(result.summary(), "m，连续签到 3 天，累计签到 40 次");
}

#[test]
fn hosts_are_taken_from_addresses() {
    assert_eq!(host_from_url("https://A.b:8080/x?y#z"), Some("a.b".to_string()));
    assert_eq!(host_from_url("a.b/x"), None);
    assert!(same_site("https://A.b/x", "http://a.b:1"));
    assert!(!same_site("https://c.b", "https://a.b"));
    assert!(!same_site("a.b", "a.b"));
    assert_eq!(origin_from_url("https://a.b:1/x/y"), Some("https://a.b:1".to_string()));
    assert_eq!(origin_from_url("a.b/x"), None);
    assert_eq!(site_host_from_url("https://www.a.b/x"), site_host_from_url("https://www.a.b"));
}

#[test]
fn origins_are_kept_once() {
    let urls: Vec<String> = ["https://a.b/x", "https://a.b/y", "x", "http://c.d"]
        .iter()
        .map(|s| s.to_string())
        .collect();
    assert_eq!(unique_origins(&urls), vec!["https://a.b".to_string(), "http://c.d".to_string()]);
}

#[test]
fn hosts_match_with_their_subdomains() {
    assert!(hosts_match("a.b", "a.b"));
    assert!(hosts_match("www.a.b", "a.b"));
    assert!(!hosts_match("xa.b", "a.b"));
    assert!(!hosts_match("a.b", "c.d"));
    assert_eq!(match_host("https://A.b/x"), "a.b");
    assert_eq!(normalize_host(".A.b"), Some("a.b".to_string()));
    assert_eq!(listed_host("https://A.b/x"), "a.b");
}

#[test]
fn signed_pages_end_at_once() {
    let (mut run, _) = SigninRun::begin("站", "https://a.b", true, false);
    let mut state = page();
    state.success = true;
    assert_eq!(finish(see(&mut run, state)).status, SigninStatus::Success);
    let (mut run, _) = SigninRun::begin("站", "https://a.b", true, false);
    let mut state = page();
    state.already_signed = true;
    assert_eq!(finish(see(&mut run, state)).status, SigninStatus::AlreadySigned);
}

#[test]
fn sign_in_needs_a_tab_and_an_entry() {
    let (_, turn) = SigninRun::begin("站", "https://a.b", false, false);
    assert_eq!(finish(turn).message, "未找到站点标签页");
    let (_, turn) = SigninRun::begin("站", "https://a.b", true, true);
    assert!(matches!(turn.action, SigninAction::Stop(SigninStop::Cancelled)));
    let (mut run, _) = SigninRun::begin("站", "https://a.b", true, false);
    let mut state = page();
    state.nexusphp_like = false;
    state.entry_url = Some("https://other.b/x".to_string());
    assert_eq!(
        finish(see(&mut run, state)).message,
        "页面中未找到站内签到入口，且当前站点不是通用 NexusPHP 签到结构，需要添加站点专用适配"
    );
    let (mut run, _) = SigninRun::begin("站", "https://a.b", true, false);
    let turn = run.advance(&SigninEvent::Page(None), false);
    assert!(matches!(turn.action, SigninAction::Stop(SigninStop::Outside)));
}

#[test]
fn entries_of_the_site_are_opened() {
    let (mut run, _) = SigninRun::begin("站", "https://a.b", true, false);
    let mut state = page();
    state.entry_url = Some("https://a.b/sign".to_string());
    match see(&mut run, state).action {
        SigninAction::Open(url) => assert_eq!(url, "https://a.b/sign"),
        other => panic!("{:?}", other),
    }
}

#[test]
fn attendance_pages_are_judged() {
    let mut state = page();
    state.success = true;
    assert_eq!(finish(see(&mut looking(), state)).status, SigninStatus::Success);
    let mut state = page();
    state.home_already_signed = true;
    assert_eq!(finish(see(&mut looking(), state)).status, SigninStatus::AlreadySigned);
    let mut state = page();
    state.has_login_form = true;
    assert_eq!(
        finish(see(&mut looking(), state)).message,
        "登录状态已失效，签到页跳转到了登录页面"
    );
    let mut state = page();
    state.explicit_failure = true;
    assert_eq!(finish(see(&mut looking(), state)).message, "站点返回签到失败");
    let mut state = page();
    state.has_interactive_question = true;
    assert_eq!(
        finish(see(&mut looking(), state)).message,
        "签到页包含答题或选项，需要添加站点专用适配"
    );
}

#[test]
fn actions_are_clicked_once_each() {
    let mut run = looking();
    assert!(matches!(see(&mut run, with_action()).action, SigninAction::Look { .. }));
    assert!(matches!(see(&mut run, with_action()).action, SigninAction::Look { .. }));
    assert!(matches!(see(&mut run, with_action()).action, SigninAction::Click));
    let turn = run.advance(&SigninEvent::Clicked(true), false);
    assert_eq!(turn.note, Some("站 已点击签到操作：签到".to_string()));
    for _ in 0..15 {
        assert!(matches!(see(&mut run, with_action()).action, SigninAction::Look { .. }));
    }
    assert_eq!(
        finish(see(&mut run, with_action())).message,
        "未识别到签到结果（当前页面：https://a.b/attendance.php），需要添加站点专用适配"
    );
}

#[test]
fn challenges_are_told_once_and_waited_for() {
    let mut run = looking();
    let turn = see(&mut run, with_challenge());
    assert_eq!(
        turn.note,
        Some("站 签到页需要人机验证，正在等待浏览器正常完成".to_string())
    );
    let mut turn = see(&mut run, with_challenge());
    assert_eq!(turn.note, None);
    let mut looks: u32 = 2;
    while !matches!(turn.action, SigninAction::Finish(_)) {
        turn = see(&mut run, with_challenge());
        looks += 1;
        assert!(looks <= SIGNIN_WAIT_STEPS);
    }
    assert_eq!(looks, SIGNIN_WAIT_STEPS);
    assert_eq!(finish(turn).message, "等待人机验证或签到结果超时");
}

#[test]
fn unreadable_pages_time_out() {
    let mut run = looking();
    let mut looks: u32 = 0;
    loop {
        let turn = run.advance(&SigninEvent::Page(None), false);
        looks += 1;
        if let SigninAction::Finish(result) = turn.action {
            assert_eq!(result.message, "等待签到结果超时");
            break;
        }
    }
    assert_eq!(looks, SIGNIN_WAIT_STEPS);
    let mut run = looking();
    let turn = run.advance(&SigninEvent::Page(None), true);
    assert!(matches!(turn.action, SigninAction::Stop(SigninStop::Cancelled)));
}

#[test]
fn the_page_of_a_sign_in_page_is_that_page() {
    for adapter in [SigninAdapter::Generic, SigninAdapter::Rousi] {
        for url in ["https://a.b/x/y.php?q#f", " a.b ", "https://", "", "a:///b", "https://a.b/ATTENDANCE.php/"] {
            let page = adapter.fallback_url(url);
            assert_eq!(adapter.fallback_url(&page), page);
        }
        assert!(same_site(&adapter.fallback_url("https://a.b:81/x?y"), "https://a.b:81/x?y"));
    }
}
