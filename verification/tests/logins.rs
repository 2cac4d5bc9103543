use pt_manager::json::{parse_json, Json};
use pt_manager::login::common::{
    captcha_image, captcha_renewal, challenge_probe, click_runtime_element, fill_runtime_input,
    hdk_login_page_state, keystrokes, login_page_state, nexus_captcha_page_state,
    nexus_login_page_state, nexusphp_remaining_attempts, renewal_step, runtime_bool, runtime_object_bool, ChallengeProbe,
    FormAction, FormEvent, FormField, HdkLoginPageState, LoginPageState, NexusCaptchaPageState,
    NexusLoginPageState, RenewalStep, RENEWAL_STEPS,
};
use pt_manager::login::hdkylin::{hdk_failure_message, HdkEnd, HdkFailure, HdkLogin, HdkPhase};
use pt_manager::login::mteam::{
    mteam_failure_message, MteamEnd, MteamFailure, MteamLogin, MteamPhase,
};
use pt_manager::login::nexusphp::{
    nexus_failure_message, NexusAction, NexusEnd, NexusEvent, NexusFailure, NexusField, NexusLogin,
};
use pt_manager::login::pting::{
    pting_failure_message, PtingEnd, PtingFailure, PtingLogin, PtingLoginState, PtingPhase,
};
use pt_manager::login::sixcloud::{
    sixcloud_failure_message, SixCloudEnd, SixCloudFailure, SixCloudLogin, SixCloudLoginState,
    SixCloudPhase,
};
use pt_manager::login::{
    outcome_of_nexus, outcome_of_plain, refill_result, LoginError, LoginOutcome, LoginState,
};

fn reply(value: &str) -> Json {
    parse_json(&format!(r#"{{"result":{{"result":{{"value":{value}}}}}}}"#)).unwrap()
}

fn nexus_page() -> NexusLoginPageState {
    NexusLoginPageState {
        path: "/login.php".to_string(),
        ready: true,
        has_login_form: false,
        has_captcha: false,
        has_two_factor: false,
        challenge: false,
        logged_in: false,
        is_failure_page: false,
        remaining_attempts: None,
    }
}

fn nexus_form(remaining: Option<u32>) -> NexusLoginPageState {
    let mut page = nexus_page();
    page.has_login_form = true;
    page.remaining_attempts = remaining;
    page
}

fn show(login: &mut NexusLogin, page: NexusLoginPageState) {
    login.advance(&NexusEvent::Page(Some(page)), false);
}

fn acted(login: &mut NexusLogin) {
    login.advance(&NexusEvent::Acted(true), false);
}

fn end_of(login: &NexusLogin) -> NexusEnd {
    match login.action() {
        NexusAction::Finish(end) => end,
        other => panic!("{:?}", other),
    }
}

/// A login whose form is filled in.
fn filled(ocr_attempts: Option<u8>) -> NexusLogin {
    let mut login = NexusLogin::begin(5, ocr_attempts, false, false);
    assert_eq!(login.action(), NexusAction::Connect);
    login.advance(&NexusEvent::Outside(true), false);
    assert!(matches!(login.action(), NexusAction::ReadPage { .. }));
    show(&mut login, nexus_form(Some(9)));
    assert!(matches!(
        login.action(),
        NexusAction::Type { field: NexusField::Username, key_min: 45, key_max: 120, .. }
    ));
    acted(&mut login);
    assert!(matches!(login.action(), NexusAction::Type { field: NexusField::Password, .. }));
    acted(&mut login);
    assert!(matches!(login.action(), NexusAction::ReadPage { .. }));
    login
}

/// A login that was submitted.
fn submitted(ocr_attempts: Option<u8>) -> NexusLogin {
    let mut login = filled(ocr_attempts);
    show(&mut login, nexus_form(None));
    assert_eq!(login.action(), NexusAction::Probe);
    login.advance(
        &NexusEvent::Probe(Some(ChallengeProbe { has_challenge: false, solved: true })),
        false,
    );
    let pauses = if ocr_attempts.is_some() { (1200, 2500) } else { (750, 1550) };
    assert_eq!(
        login.action(),
        NexusAction::Submit { pause_min: pauses.0, pause_max: pauses.1 }
    );
    acted(&mut login);
    login
}

#[test]
fn nexus_logins_succeed() {
    let mut login = submitted(None);
    let mut page = nexus_page();
    page.logged_in = true;
    page.remaining_attempts = Some(7);
    show(&mut login, page);
    assert_eq!(end_of(&login), NexusEnd::LoggedIn);
    assert_eq!(login.remaining, Some(7));
}

#[test]
fn nexus_sites_may_be_logged_in_already() {
    let mut login = NexusLogin::begin(5, None, false, false);
    login.advance(&NexusEvent::Outside(true), false);
    for _ in 0..2 {
        let mut page = nexus_page();
        page.logged_in = true;
        show(&mut login, page);
        assert_eq!(login.action(), NexusAction::Sleep { millis: 500, announce: false });
        login.advance(&NexusEvent::Slept, false);
    }
    let mut page = nexus_page();
    page.logged_in = true;
    show(&mut login, page);
    assert_eq!(end_of(&login), NexusEnd::AlreadyLoggedIn);
}

#[test]
fn logins_stop_at_the_threshold() {
    let mut login = NexusLogin::begin(5, None, false, false);
    login.advance(&NexusEvent::Outside(true), false);
    show(&mut login, nexus_form(Some(5)));
    let failure = NexusFailure::AtThreshold { left: 5 };
    assert_eq!(end_of(&login), NexusEnd::Failed(failure));
    assert_eq!(
        nexus_failure_message(failure, "站", 5, ""),
        "站 当前仅剩 5 次登录机会，已达到安全阈值 5，停止自动登录与重试"
    );
}

#[test]
fn captchas_without_recognition_are_left_to_people() {
    let mut login = filled(None);
    let mut page = nexus_form(Some(8));
    page.has_captcha = true;
    show(&mut login, page);
    let failure = NexusFailure::CaptchaByHand { remaining: Some(8) };
    assert_eq!(end_of(&login), NexusEnd::Failed(failure));
    let result = outcome_of_nexus(NexusEnd::Failed(failure), login.remaining, "站", 5, "");
    assert_eq!(
        result.as_ref().err().map(|e| e.message.as_str()),
        Some("站 登录信息已填写，当前剩余 8 次尝试，请人工输入图片验证码并点击登录")
    );
    assert_eq!(refill_result(&result), Ok(Some(8)));
}

#[test]
fn rejected_captchas_are_tried_again() {
    let mut login = submitted(Some(2));
    let mut page = nexus_page();
    page.is_failure_page = true;
    show(&mut login, page);
    assert_eq!(login.action(), NexusAction::RequestNewCaptcha { attempt: 2, total: 2 });
    login.advance(&NexusEvent::Outside(true), false);
    assert!(matches!(login.action(), NexusAction::Sleep { millis: 1500, .. }));
    login.advance(&NexusEvent::Slept, false);
    assert_eq!(login.action(), NexusAction::Connect);
    let mut login = submitted(Some(1));
    let mut page = nexus_page();
    page.is_failure_page = true;
    show(&mut login, page);
    let failure = NexusFailure::CaptchaRejected { total: 1 };
    assert_eq!(end_of(&login), NexusEnd::Failed(failure));
    assert_eq!(
        nexus_failure_message(failure, "站", 5, ""),
        "站 自动登录失败：图片验证码错误，已达到最大重试次数 1 次"
    );
}

#[test]
fn captchas_are_read_and_typed() {
    let mut login = filled(Some(3));
    let mut page = nexus_form(None);
    page.has_captcha = true;
    show(&mut login, page);
    assert_eq!(login.action(), NexusAction::ReadCaptcha);
    login.advance(&NexusEvent::Outside(true), false);
    assert!(matches!(
        login.action(),
        NexusAction::Type { field: NexusField::Captcha, key_min: 70, key_max: 145, .. }
    ));
    acted(&mut login);
    assert_eq!(login.action(), NexusAction::Probe);
}

#[test]
fn codes_are_typed_where_they_are_asked_for() {
    let mut login = NexusLogin::begin(5, None, true, false);
    login.advance(&NexusEvent::Outside(true), false);
    let mut page = nexus_form(None);
    page.has_two_factor = true;
    show(&mut login, page);
    acted(&mut login);
    acted(&mut login);
    assert_eq!(login.action(), NexusAction::MakeCode);
    login.advance(&NexusEvent::Outside(true), false);
    assert!(matches!(login.action(), NexusAction::Type { field: NexusField::Code, .. }));
}

#[test]
fn verifications_are_announced_and_must_last() {
    let mut login = filled(None);
    show(&mut login, nexus_form(None));
    let open = ChallengeProbe { has_challenge: true, solved: false };
    let solved = ChallengeProbe { has_challenge: true, solved: true };
    login.advance(&NexusEvent::Probe(Some(open)), false);
    assert_eq!(login.action(), NexusAction::Sleep { millis: 500, announce: true });
    login.advance(&NexusEvent::Slept, false);
    login.advance(&NexusEvent::Probe(Some(solved)), false);
    assert_eq!(login.action(), NexusAction::Sleep { millis: 500, announce: false });
    login.advance(&NexusEvent::Slept, false);
    login.advance(&NexusEvent::Probe(Some(solved)), false);
    assert!(matches!(login.action(), NexusAction::Submit { .. }));
}

#[test]
fn verifications_time_out() {
    let mut login = filled(None);
    show(&mut login, nexus_form(None));
    let mut looks: u32 = 0;
    while login.action() == NexusAction::Probe {
        looks += 1;
        login.advance(&NexusEvent::Probe(None), false);
        login.advance(&NexusEvent::Slept, false);
    }
    assert_eq!(looks, 120);
    assert_eq!(end_of(&login), NexusEnd::Failed(NexusFailure::VerificationTimeout));
    assert_eq!(
        nexus_failure_message(NexusFailure::VerificationTimeout, "站", 5, ""),
        "等待 站 人机验证通过超时"
    );
}

#[test]
fn buttons_are_looked_for_in_three_ways() {
    let mut login = filled(None);
    show(&mut login, nexus_form(None));
    login.advance(
        &NexusEvent::Probe(Some(ChallengeProbe { has_challenge: false, solved: false })),
        false,
    );
    login.advance(&NexusEvent::Acted(false), false);
    assert_eq!(login.action(), NexusAction::ClickPreferred);
    login.advance(&NexusEvent::Acted(false), false);
    assert_eq!(login.action(), NexusAction::ClickAny);
    login.advance(&NexusEvent::Acted(false), false);
    assert_eq!(end_of(&login), NexusEnd::Failed(NexusFailure::ButtonMissing));
}

#[test]
fn results_that_never_come_are_judged_by_the_last_page() {
    for (form, failure) in [
        (false, NexusFailure::UnexpectedPage),
        (true, NexusFailure::StillOnLogin),
    ] {
        let mut login = submitted(None);
        let mut looks: u32 = 0;
        while !matches!(login.action(), NexusAction::Finish(_)) {
            let mut page = nexus_page();
            page.has_login_form = form;
            show(&mut login, page);
            looks += 1;
        }
        assert_eq!(looks, 41);
        assert_eq!(end_of(&login), NexusEnd::Failed(failure));
    }
}

#[test]
fn nexus_logins_can_be_stopped() {
    assert_eq!(
        end_of(&NexusLogin::begin(5, None, false, true)),
        NexusEnd::Failed(NexusFailure::Cancelled)
    );
    assert_eq!(
        end_of(&NexusLogin::begin(5, Some(0), false, false)),
        NexusEnd::Failed(NexusFailure::NoAttempt { total: 0 })
    );
    assert_eq!(nexus_failure_message(NexusFailure::Cancelled, "站", 5, ""), "CDP 操作已终止");
    assert_eq!(nexus_failure_message(NexusFailure::Outside, "站", 5, "why"), "why");
    assert_eq!(nexus_failure_message(NexusFailure::TabMissing, "站", 5, ""), "无法连接 站 标签页");
    assert_eq!(
        nexus_failure_message(NexusFailure::ChallengeTimeout, "站", 5, ""),
        "等待 站 Cloudflare 验证放行超时（120 秒）"
    );
    assert_eq!(
        nexus_failure_message(NexusFailure::NoAttempt { total: 0 }, "站", 5, ""),
        "站 自动登录失败：已尝试 0 次均未成功"
    );
}

fn mteam_page(host: &str, form: bool, logged_in: bool) -> LoginPageState {
    LoginPageState {
        host: host.to_string(),
        path: "/login".to_string(),
        ready: true,
        has_login_form: form,
        has_otp: false,
        logged_in,
    }
}

fn mteam_at_result(has_code: bool) -> MteamLogin {
    let mut login = MteamLogin::begin(has_code);
    login.advance(&FormEvent::Page(Some(mteam_page("kp.m-team.cc", true, false))));
    assert_eq!(
        login.action(),
        FormAction::Type {
            field: FormField::Username,
            pause_min: 550,
            pause_max: 1250,
            key_min: 45,
            key_max: 115
        }
    );
    login.advance(&FormEvent::Acted(true));
    login.advance(&FormEvent::Acted(true));
    assert_eq!(login.action(), FormAction::Click { pause_min: 700, pause_max: 1550 });
    login.advance(&FormEvent::Acted(true));
    login
}

#[test]
fn mteam_logins_succeed() {
    let mut login = mteam_at_result(false);
    assert_eq!(login.action(), FormAction::ReadPage { after_millis: 250 });
    login.advance(&FormEvent::Page(Some(mteam_page("kp.m-team.cc", false, true))));
    assert_eq!(login.phase, MteamPhase::Done(MteamEnd::LoggedIn));
    assert_eq!(login.action(), FormAction::Finish);
}

#[test]
fn mteam_codes_are_needed_where_asked_for() {
    let asking = || {
        let mut page = mteam_page("kp.m-team.cc", false, false);
        page.has_otp = true;
        FormEvent::Page(Some(page))
    };
    let mut login = mteam_at_result(false);
    login.advance(&asking());
    assert_eq!(login.phase, MteamPhase::Done(MteamEnd::Failed(MteamFailure::SecretMissing)));
    let mut login = mteam_at_result(true);
    login.advance(&asking());
    assert!(matches!(login.action(), FormAction::SubmitOtp { .. }));
    login.advance(&FormEvent::Acted(true));
    login.advance(&asking());
    assert!(matches!(login.action(), FormAction::ReadPage { .. }));
    assert_eq!(
        mteam_failure_message(MteamFailure::SecretMissing),
        "M-Team 要求 2FA，但站点未配置 2FA 密钥"
    );
}

#[test]
fn mteam_pages_are_judged_at_last() {
    let run = |page: fn() -> Option<LoginPageState>| {
        let mut login = MteamLogin::begin(false);
        let mut looks: u32 = 0;
        while login.action() != FormAction::Finish {
            looks += 1;
            login.advance(&FormEvent::Page(page()));
            login.advance(&FormEvent::Slept);
        }
        assert_eq!(looks, 120);
        login.phase
    };
    assert_eq!(run(|| None), MteamPhase::Done(MteamEnd::Failed(MteamFailure::Unreadable)));
    assert_eq!(
        run(|| Some(mteam_page("other", true, false))),
        MteamPhase::Done(MteamEnd::Failed(MteamFailure::WrongHost))
    );
    assert_eq!(
        run(|| Some(mteam_page("kp.m-team.cc", false, false))),
        MteamPhase::Done(MteamEnd::Failed(MteamFailure::FormNotLoaded))
    );
    assert_eq!(
        mteam_failure_message(MteamFailure::NothingFound),
        "M-Team 登录状态检测超时：未发现账户信息或登录表单"
    );
    let mut login = MteamLogin::begin(false);
    login.advance(&FormEvent::Page(Some(mteam_page("kp.m-team.cc", false, true))));
    assert_eq!(login.phase, MteamPhase::Done(MteamEnd::AlreadyLoggedIn));
}

fn hdk_page() -> HdkLoginPageState {
    HdkLoginPageState {
        path: "/index.php".to_string(),
        ready: true,
        has_login_form: false,
        has_otp: false,
        has_captcha: false,
        challenge: false,
        blocked_debug: false,
    }
}

fn hdk_form() -> HdkLoginPageState {
    let mut page = hdk_page();
    page.has_login_form = true;
    page
}

#[test]
fn hdkylin_logins_succeed() {
    let mut login = HdkLogin::begin(true);
    login.advance(&FormEvent::Page(Some(hdk_form())));
    for _ in 0..3 {
        login.advance(&FormEvent::Acted(true));
    }
    let mut asking = hdk_page();
    asking.has_otp = true;
    login.advance(&FormEvent::Page(Some(asking)));
    assert_eq!(login.action(), FormAction::MakeCode);
    login.advance(&FormEvent::Outside(true));
    assert_eq!(login.action(), FormAction::SubmitOtp { pause_min: 550, pause_max: 1200 });
    login.advance(&FormEvent::Acted(true));
    for _ in 0..4 {
        assert_eq!(login.action(), FormAction::ReadPage { after_millis: 250 });
        login.advance(&FormEvent::Page(Some(hdk_page())));
    }
    assert_eq!(login.phase, HdkPhase::Done(HdkEnd::LoggedIn));
}

#[test]
fn hdkylin_may_be_logged_in_or_closed() {
    let mut login = HdkLogin::begin(false);
    for _ in 0..6 {
        login.advance(&FormEvent::Page(Some(hdk_page())));
        login.advance(&FormEvent::Slept);
    }
    assert_eq!(login.phase, HdkPhase::Done(HdkEnd::AlreadyLoggedIn));
    let mut login = HdkLogin::begin(false);
    let mut page = hdk_form();
    page.blocked_debug = true;
    login.advance(&FormEvent::Page(Some(page)));
    assert_eq!(login.phase, HdkPhase::Done(HdkEnd::Failed(HdkFailure::DebugBlocked)));
    let mut login = HdkLogin::begin(false);
    let mut page = hdk_form();
    page.has_captcha = true;
    login.advance(&FormEvent::Page(Some(page)));
    assert_eq!(login.phase, HdkPhase::Done(HdkEnd::Failed(HdkFailure::CaptchaRequired)));
    assert_eq!(
        hdk_failure_message(HdkFailure::FormTimeout, ""),
        "等待 HDKylin 安全检测放行超时（120 秒）"
    );
    assert_eq!(hdk_failure_message(HdkFailure::Outside, "why"), "why");
}

fn pting_page(path: &str) -> PtingLoginState {
    PtingLoginState {
        ready: true,
        path: path.to_string(),
        logged_in: false,
        has_login_form: false,
        has_otp: false,
        has_verification: false,
        error_message: String::new(),
    }
}

fn pting_form() -> PtingLoginState {
    let mut page = pting_page("/login");
    page.has_login_form = true;
    page
}

fn pting_filled() -> PtingLogin {
    let mut login = PtingLogin::begin(false, false);
    login.advance(&FormEvent::Page(Some(pting_page("/"))), false);
    assert_eq!(login.action(), FormAction::OpenLogin);
    login.advance(&FormEvent::Outside(true), false);
    login.advance(&FormEvent::Page(Some(pting_form())), false);
    for _ in 0..3 {
        login.advance(&FormEvent::Acted(true), false);
    }
    login
}

#[test]
fn pting_logins_succeed() {
    let mut login = pting_filled();
    let mut page = pting_page("/");
    page.logged_in = true;
    login.advance(&FormEvent::Page(Some(page)), false);
    assert_eq!(login.phase, PtingPhase::Done(PtingEnd::LoggedIn));
}

#[test]
fn pting_errors_must_last() {
    let mut login = pting_filled();
    for _ in 0..3 {
        assert!(matches!(login.action(), FormAction::ReadPage { after_millis: 250 }));
        let mut page = pting_form();
        page.error_message = "密码错误".to_string();
        login.advance(&FormEvent::Page(Some(page)), false);
    }
    assert_eq!(login.phase, PtingPhase::Done(PtingEnd::Failed(PtingFailure::Reported)));
    assert_eq!(
        pting_failure_message(PtingFailure::Reported, "", &login.error),
        "PTing 登录失败：密码错误"
    );
    let mut login = PtingLogin::begin(false, false);
    login.advance(&FormEvent::Page(None), true);
    login.advance(&FormEvent::Slept, true);
    assert_eq!(login.phase, PtingPhase::Done(PtingEnd::Failed(PtingFailure::Cancelled)));
}

fn cloud_page() -> SixCloudLoginState {
    SixCloudLoginState {
        ready: true,
        host: "www.666clouds.com".to_string(),
        logged_in: false,
        has_login_form: false,
        has_verification: false,
        error_message: String::new(),
    }
}

#[test]
fn sixcloud_logins_return_to_the_page() {
    let mut login = SixCloudLogin::begin(false);
    let mut page = cloud_page();
    page.has_login_form = true;
    login.advance(&FormEvent::Page(Some(page)), false);
    for _ in 0..3 {
        login.advance(&FormEvent::Acted(true), false);
    }
    let mut page = cloud_page();
    page.logged_in = true;
    login.advance(&FormEvent::Page(Some(page)), false);
    assert_eq!(login.action(), FormAction::OpenTarget);
    login.advance(&FormEvent::Outside(true), false);
    let mut page = cloud_page();
    page.logged_in = true;
    login.advance(&FormEvent::Page(Some(page)), false);
    assert_eq!(login.phase, SixCloudPhase::Done(SixCloudEnd::LoggedIn));
}

#[test]
fn sixcloud_pages_of_other_hosts_are_refused() {
    let mut login = SixCloudLogin::begin(false);
    let mut page = cloud_page();
    page.host = "x".to_string();
    page.logged_in = true;
    login.advance(&FormEvent::Page(Some(page)), false);
    let failure = SixCloudFailure::WrongHost;
    assert_eq!(login.phase, SixCloudPhase::Done(SixCloudEnd::Failed(failure)));
    assert_eq!(
        sixcloud_failure_message(failure, "", ""),
        "六六云页面加载失败：当前标签页域名不匹配"
    );
    let mut login = SixCloudLogin::begin(false);
    let mut page = cloud_page();
    page.has_login_form = true;
    page.has_verification = true;
    login.advance(&FormEvent::Page(Some(page)), false);
    assert_eq!(
        login.phase,
        SixCloudPhase::Done(SixCloudEnd::Failed(SixCloudFailure::VerificationBefore))
    );
    assert_eq!(
        sixcloud_failure_message(SixCloudFailure::ReturnTimeout, "", ""),
        "六六云登录成功，但返回产品详情页超时"
    );
}

#[test]
fn outcomes_are_alike_for_all_sites() {
    assert_eq!(outcome_of_plain(Ok(true)).unwrap().state, LoginState::LoggedIn);
    assert_eq!(outcome_of_plain(Ok(false)).unwrap().state, LoginState::AlreadyLoggedIn);
    assert_eq!(outcome_of_plain(Err("e".to_string())).err().unwrap().message, "e");
    let fine = Ok(LoginOutcome { state: LoginState::LoggedIn, remaining_attempts: Some(1) });
    assert_eq!(refill_result(&fine), Err("NexusPHP 当前不再需要图片验证码".to_string()));
    let bad = Err(LoginError { message: "m".to_string(), remaining_attempts: None });
    assert_eq!(refill_result(&bad), Err("重新填写 NexusPHP 登录信息失败：m".to_string()));
}

#[test]
fn texts_are_typed_key_by_key() {
    let keys = keystrokes("abcdefgh");
    assert_eq!(keys.len(), 8);
    assert_eq!(keys[2].typed, "abc");
    assert_eq!(keys[7].typed, "abcdefgh");
    let long: Vec<bool> = keys.iter().map(|k| k.long_pause).collect();
    assert_eq!(long, vec![false, false, false, false, false, false, true, false]);
    assert!(keystrokes("").is_empty());
}

#[test]
fn scripts_fill_in_and_click() {
    let fill = fill_runtime_input("input[name=\"a\"]", "v\"w");
    assert!(fill.contains("document.querySelector(\"input[name=\\\"a\\\"]\")"));
    assert!(fill.contains("setter.call(input, \"v\\\"w\");"));
    let click = click_runtime_element("#b");
    assert!(click.contains("document.querySelector(\"#b\")"));
    assert!(click.ends_with("})()"));
}

#[test]
fn replies_of_scripts_are_read() {
    assert_eq!(runtime_object_bool(&reply(r#"{"ok":true}"#), "ok"), Some(true));
    assert_eq!(runtime_object_bool(&reply(r#"{"ok":1}"#), "ok"), None);
    assert!(runtime_bool(&reply("true")));
    assert!(!runtime_bool(&reply("1")));
    assert_eq!(
        challenge_probe(&reply("{}")),
        Some(ChallengeProbe { has_challenge: false, solved: true })
    );
    assert_eq!(challenge_probe(&parse_json("{}").unwrap()), None);
}

#[test]
fn pages_are_read_from_replies() {
    let page = login_page_state(&reply(
        r#"{"host":"h","path":"/","ready":true,"hasLoginForm":false,"hasOtp":true,"loggedIn":false}"#,
    ))
    .unwrap();
    assert!(page.ready && page.has_otp && !page.logged_in);
    assert!(login_page_state(&reply(r#"{"host":"h"}"#)).is_none());
    let page = hdk_login_page_state(&reply(
        r#"{"path":"/","ready":true,"hasLoginForm":true,"hasOtp":false,"hasCaptcha":false,"challenge":false,"blockedDebug":true}"#,
    ))
    .unwrap();
    assert!(page.has_login_form && page.blocked_debug);
    let text = r#"{"path":"/","ready":true,"hasLoginForm":true,"hasCaptcha":true,"hasTwoFactor":false,"challenge":false,"loggedIn":false,"isFailurePage":false,"remainingAttempts":7}"#;
    assert_eq!(nexus_login_page_state(&reply(text)).unwrap().remaining_attempts, Some(7));
    assert!(nexus_captcha_page_state(&reply(text)).unwrap().has_captcha);
}

#[test]
fn captcha_pictures_are_read_from_replies() {
    let image = |value: &str| captcha_image(&reply(value), "none");
    assert_eq!(image(r#"{"ok":true,"image":"x"}"#), Ok("x".to_string()));
    assert_eq!(image(r#"{"ok":false}"#), Err("验证码图片尚未加载或无法截取".to_string()));
    assert_eq!(image(r#"{"ok":true}"#), Err("验证码截图数据为空".to_string()));
    assert_eq!(
        captcha_image(&parse_json("{}").unwrap(), "none"),
        Err("none".to_string())
    );
}

#[test]
fn new_captchas_are_waited_for() {
    assert_eq!(captcha_renewal(&reply(r#"{"ok":true,"renewed":true}"#)), Ok(true));
    assert_eq!(captcha_renewal(&reply(r#"{"ok":true}"#)), Ok(false));
    assert_eq!(
        captcha_renewal(&reply("{}")),
        Err("当前页面没有可识别的验证码，也不是图片代码无效页面".to_string())
    );
    let page = |form: bool, captcha: bool| {
        Some(NexusCaptchaPageState {
            path: String::new(),
            ready: true,
            has_login_form: form,
            has_captcha: captcha,
            challenge: false,
            remaining_attempts: None,
        })
    };
    assert_eq!(renewal_step(0, &None), RenewalStep::Wait { millis: 250 });
    assert_eq!(renewal_step(1, &page(true, true)), RenewalStep::Renewed);
    assert_eq!(nexusphp_remaining_attempts(&page(true, true)), Ok(None));
    assert_eq!(
        nexusphp_remaining_attempts(&None),
        Err("无法读取 NexusPHP 剩余登录次数".to_string())
    );
    assert_eq!(renewal_step(0, &page(true, false)), RenewalStep::Wait { millis: 250 });
    assert_eq!(renewal_step(RENEWAL_STEPS, &None), RenewalStep::TimedOut);
}
