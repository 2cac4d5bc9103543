use pt_manager::calendar::CivilTime;
use pt_manager::control::{
    app_status, auto_launch_step, clear_refusal, cleared_message, disabled_auto_launch,
    is_auto_launch_entry_missing, profiles_to_clear, stop_message, AutoLaunchStep, Cleared,
};
use pt_manager::scheduler::{
    auto_login_plan, enabled_sites, is_blank, login_flags, login_request, site_has_credentials,
    site_secret, LoginPlan,
};
use pt_manager::sites::{
    add_site, add_site_as, cleaned_address, find_site, import_site, import_sites, prepare_config,
    record_attempts, remove_site, remove_sites, site_urls, sites_value, update_site, SiteInput,
};
use pt_manager::store::{AppConfig, LogEntry, Site};
use pt_manager::updater::{
    check_proxy, check_version, normalize_proxy_url, prepend_proxy_url, UPDATE_ENDPOINT,
};
use reqwest::Url;

fn input(name: &str, url: &str) -> SiteInput {
    SiteInput {
        name: name.to_string(),
        url: url.to_string(),
        username: " u ".to_string(),
        password: " p ".to_string(),
        totp_secret: " A B C ".to_string(),
        auto_login: true,
    }
}

fn site(id: &str, name: &str, url: &str) -> Site {
    let mut sites = Vec::new();
    add_site_as(&mut sites, input(name, url), id.to_string());
    sites.remove(0)
}

#[test]
fn keeps_original_url_when_proxy_is_empty() {
    let target = Url::parse(UPDATE_ENDPOINT).unwrap();
    let result = prepend_proxy_url("", target.as_str()).unwrap();
    assert_eq!(Url::parse(&result).unwrap(), target);
}

#[test]
fn prepends_proxy_to_github_url() {
    let target = Url::parse(UPDATE_ENDPOINT).unwrap();
    let result = prepend_proxy_url("https://vercel-proxy.decoffee.top/", target.as_str()).unwrap();
    assert_eq!(
        result.as_str(),
        "https://vercel-proxy.decoffee.top/https://github.com/Edwinzzzs2/pt-manager-tauri/releases/latest/download/latest.json"
    );
}

#[test]
fn proxies_are_plain_addresses() {
    assert_eq!(normalize_proxy_url("  "), Ok(String::new()));
    assert_eq!(normalize_proxy_url(" https://p.q/x// "), Ok("https://p.q/x".to_string()));
    assert_eq!(normalize_proxy_url("p.q"), Err("更新代理地址格式不正确".to_string()));
    assert_eq!(
        normalize_proxy_url("ftp://p.q"),
        Err("更新代理地址必须是有效的 HTTP 或 HTTPS 地址".to_string())
    );
    for url in ["http://p.q?x=1", "http://p.q#x"] {
        assert_eq!(
            normalize_proxy_url(url),
            Err("更新代理地址不能包含查询参数或锚点".to_string())
        );
    }
    assert_eq!(check_proxy(&None), Some("更新代理地址格式不正确".to_string()));
}

#[test]
fn prefixed_addresses_are_written_as_addresses_are() {
    let result = prepend_proxy_url("HTTP://P.Q", "https://a.b/x y").unwrap();
    assert_eq!(result, "http://p.q/https://a.b/x%20y");
    assert_eq!(prepend_proxy_url("p", "https://a.b").err(), Some("更新代理地址格式不正确".to_string()));
}

#[test]
fn only_the_expected_version_is_installed() {
    assert_eq!(check_version(Some("1.2"), "1.2"), None);
    assert_eq!(check_version(None, "1.2"), Some("当前已是最新版本".to_string()));
    assert_eq!(
        check_version(Some("1.3"), "1.2"),
        Some("可用版本已从 1.2 变更为 1.3，请重新检查更新".to_string())
    );
}

#[test]
fn configurations_are_put_in_order() {
    let mut config = AppConfig::default();
    config.log_retention = 1;
    config.ocr_server_url = " http://o/ ".to_string();
    config.ocr_retry_count = 9;
    config.min_login_attempts_remaining = 0;
    config.gotify.server_url = " http://g// ".to_string();
    config.gotify.token = " t ".to_string();
    config.visit_duration = 1;
    let saved = prepare_config(config).unwrap();
    assert_eq!(saved.log_retention, 50);
    assert_eq!(saved.ocr_server_url, "http://o");
    assert_eq!(saved.ocr_retry_count, 5);
    assert_eq!(saved.min_login_attempts_remaining, 1);
    assert_eq!(saved.gotify.server_url, "http://g");
    assert_eq!(saved.gotify.token, "t");
    assert_eq!(saved.visit_duration, 5);
    assert_eq!(cleaned_address(" a// "), "a");
}

#[test]
fn incomplete_configurations_are_refused() {
    let mut config = AppConfig::default();
    config.gotify.enabled = true;
    assert_eq!(
        prepare_config(config).err(),
        Some("启用 Gotify 通知前，请填写服务地址和应用 Token".to_string())
    );
    for after in [false, true] {
        let mut config = AppConfig::default();
        config.auto_sync_cookie = !after;
        config.auto_sync_cookie_after_keepalive = after;
        config.cookiecloud.server_url = "s".to_string();
        config.cookiecloud.uuid = " ".to_string();
        config.cookiecloud.password = "p".to_string();
        assert_eq!(
            prepare_config(config.clone()).err(),
            Some("启用 CookieCloud 自动同步前，请填写服务地址、UUID 和密码".to_string())
        );
        config.cookiecloud.uuid = "u".to_string();
        assert!(prepare_config(config).is_ok());
    }
}

#[test]
fn sites_are_added_with_new_ids() {
    let mut sites = Vec::new();
    add_site(&mut sites, input("n", "https://a.b"));
    add_site(&mut sites, input("n", "https://a.b"));
    assert_eq!(sites[0].id.len(), 36);
    let id = uuid::Uuid::parse_str(&sites[0].id).unwrap();
    assert_eq!(id.get_version(), Some(uuid::Version::Random));
    assert_eq!(id.to_string(), sites[0].id);
    assert_ne!(sites[0].id, sites[1].id);
    assert_eq!(sites[0].name, "n");
    assert_eq!(sites[0].username, " u ");
    assert_eq!(sites[0].totp_secret, " A B C ");
    assert!(sites[0].auto_login && sites[0].auto_keepalive);
    assert_eq!(sites[0].login_attempts_remaining, None);
}

#[test]
fn sites_are_changed_by_id() {
    let mut sites = vec![site("1", "a", "https://a.b"), site("2", "b", "https://c.d")];
    update_site(&mut sites, "2", input("x", "https://x.y"), false);
    assert_eq!(sites[0].name, "a");
    assert_eq!(sites[1].name, "x");
    assert_eq!(sites[1].url, "https://x.y");
    assert_eq!(sites[1].totp_secret, "ABC");
    assert!(!sites[1].auto_keepalive);
    record_attempts(&mut sites, "1", 7);
    assert_eq!(sites[0].login_attempts_remaining, Some(7));
    assert_eq!(sites[1].login_attempts_remaining, None);
    assert_eq!(find_site(&sites, "2").map(|s| s.name.as_str()), Some("x"));
    assert!(find_site(&sites, "3").is_none());
    assert_eq!(site_urls(&sites), vec!["https://a.b".to_string(), "https://x.y".to_string()]);
}

#[test]
fn sites_are_removed_by_id() {
    let sites = vec![site("1", "a", "u"), site("2", "b", "v"), site("3", "c", "w")];
    let left = remove_sites(sites, &vec!["1".to_string(), "3".to_string(), "9".to_string()]);
    assert_eq!(left.len(), 1);
    assert_eq!(left[0].id, "2");
    assert_eq!(remove_site(left, "2").len(), 0);
}

#[test]
fn imported_sites_are_checked() {
    let mut sites = vec![site("1", "a", "https://a.b/")];
    let list = vec![
        input(" n ", " https://c.d/ "),
        input("n", "HTTPS://A.B"),
        input("", "https://e.f"),
        input("n", "ftp://e.f"),
        input("n", "https://"),
        input("n", "https://C.D"),
        input("n", "http://g.h"),
    ];
    assert_eq!(import_sites(&mut sites, list), (2, 5));
    assert_eq!(sites.len(), 3);
    assert_eq!(sites[1].name, "n");
    assert_eq!(sites[1].url, "https://c.d/");
    assert_eq!(sites[1].username, "u");
    assert_eq!(sites[1].password, " p ");
    assert_eq!(sites[1].totp_secret, "ABC");
    assert_eq!(sites[1].id.len(), 36);
    assert_eq!(sites[2].url, "http://g.h");
}

#[test]
fn importing_twice_adds_nothing() {
    let mut sites = Vec::new();
    assert!(import_site(&mut sites, input("n", "https://a.b"), "1".to_string()));
    assert!(!import_site(&mut sites, input("n", "https://a.b"), "2".to_string()));
    assert_eq!(sites.len(), 1);
    assert_eq!(sites[0].id, "1");
}

#[test]
fn site_lists_may_stand_alone_or_inside() {
    assert_eq!(sites_value(r#"{"sites":[1]}"#).unwrap().to_string(), "[1]");
    assert_eq!(sites_value("[2]").unwrap().to_string(), "[2]");
    assert!(sites_value("{").err().unwrap().starts_with("JSON 格式错误："));
}

#[test]
fn only_enabled_sites_are_kept_alive() {
    let mut off = site("2", "b", "v");
    off.auto_keepalive = false;
    off.auto_login = false;
    let sites = vec![site("1", "a", "u"), off];
    let enabled = enabled_sites(&sites);
    assert_eq!(enabled.len(), 1);
    assert_eq!(enabled[0].id, "1");
    assert_eq!(login_flags(&enabled).len(), 1);
}

#[test]
fn logins_need_credentials() {
    let mut one = site("1", "a", "https://kp.m-team.cc");
    assert!(matches!(auto_login_plan(&one), LoginPlan::Login(_)));
    one.password = String::new();
    assert!(!site_has_credentials(&one));
    assert!(matches!(auto_login_plan(&one), LoginPlan::MissingCredentials));
    one.auto_login = false;
    assert!(matches!(auto_login_plan(&one), LoginPlan::Skip));
    one.totp_secret = "  ".to_string();
    assert_eq!(site_secret(&one), None);
    one.totp_secret = " x".to_string();
    assert_eq!(site_secret(&one), Some(" x"));
    assert!(is_blank(" \t"));
}

#[test]
fn requests_carry_the_settings() {
    let one = site("1", "a", "https://a.b");
    let mut config = AppConfig::default();
    config.min_login_attempts_remaining = 4;
    config.ocr_server_url = String::new();
    let request = login_request(&one, &config);
    assert_eq!(request.min_remaining_attempts, 4);
    assert!(request.ocr_config.is_none());
    config.ocr_server_url = "http://o".to_string();
    config.ocr_retry_count = 2;
    let request = login_request(&one, &config);
    assert_eq!(request.ocr_config, Some(("http://o".to_string(), 2)));
    assert_eq!(request.site_name, "a");
}

#[test]
fn the_state_shows_the_last_entry() {
    let time = CivilTime { year: 2026, month: 1, day: 2, hour: 3, minute: 4, second: 5 };
    let logs = vec![LogEntry::info("a"), LogEntry::error("b")];
    let status = app_status(Some(9222), true, Some(time), &logs, true, false);
    assert!(status.cdp_connected && status.chrome_installed && status.is_running);
    assert!(!status.cancel_requested);
    assert_eq!(status.next_run, Some(time));
    assert_eq!(status.last_result.unwrap().message, "b");
    let status = app_status(None, false, None, &vec![], false, true);
    assert!(!status.cdp_connected && status.last_result.is_none() && status.cancel_requested);
}

#[test]
fn requests_to_stop_and_clear_are_answered() {
    assert_eq!(stop_message(true), "已请求终止保活任务，正在等待当前步骤收尾");
    assert_eq!(stop_message(false), "已请求终止测试/保活任务");
    assert_eq!(clear_refusal(true), Some("保活任务执行中，请等待结束后再清除浏览器数据"));
    assert_eq!(clear_refusal(false), None);
    assert_eq!(profiles_to_clear(false, true), Ok(1));
    assert_eq!(profiles_to_clear(false, false), Ok(0));
    assert_eq!(
        profiles_to_clear(true, true),
        Err("专用 Chrome 正在运行，请关闭专用 Chrome 后再清除离线浏览器数据".to_string())
    );
    assert_ne!(
        cleared_message(Cleared::Live { port: 1 }),
        cleared_message(Cleared::Offline { profiles: 1 })
    );
}

#[test]
fn the_start_at_login_is_switched_when_it_differs() {
    assert!(matches!(auto_launch_step(Some(true), true), AutoLaunchStep::Nothing));
    assert!(matches!(auto_launch_step(Some(false), true), AutoLaunchStep::Enable));
    assert!(matches!(auto_launch_step(Some(true), false), AutoLaunchStep::Disable));
    assert!(is_auto_launch_entry_missing("os error 2"));
    assert!(!is_auto_launch_entry_missing("denied"));
    assert_eq!(disabled_auto_launch(Err("os error 2".to_string())), Ok(()));
    assert!(disabled_auto_launch(Err("denied".to_string())).is_err());
}
