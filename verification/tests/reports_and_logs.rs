use pt_manager::calendar::{local_offset, CivilTime, LocalTime, WallTime};
use pt_manager::gotify::{
    build_report, human_optional, human_value, login_summary, signin_status_code,
    signin_status_label, summary_result, test_notification, test_result, Delivery,
};
use pt_manager::json::Json;
use pt_manager::scheduler::{log_entry, LogLevel};
use pt_manager::signin::{SigninResult, SigninStatus};
use pt_manager::store::{
    apply_log_retention, current_log_retention, format_log_line, load_logs, loaded_config,
    local_log_entries, local_log_line, log_entries, log_file_text, normalize_log_retention, parse_log_line, push_log, set_log_retention, trim_logs, AppConfig,
    CookieCloudConfig, GotifyConfig, LogEntry,
};
use pt_manager::traffic::SiteTraffic;

fn entry(message: &str) -> LogEntry {
    LogEntry {
        timestamp: LocalTime {
            wall: WallTime {
                civil: CivilTime { year: 2026, month: 1, day: 2, hour: 3, minute: 4, second: 5 },
                nanos: 0,
            },
            offset: 3600,
        },
        level: "INFO".to_string(),
        message: message.to_string(),
    }
}

fn gotify(enabled: bool, server_url: &str, token: &str, title: &str) -> GotifyConfig {
    GotifyConfig {
        enabled,
        server_url: server_url.to_string(),
        token: token.to_string(),
        title: title.to_string(),
    }
}

fn traffic(upload: Option<&str>, download: Option<&str>, ratio: Option<&str>) -> SiteTraffic {
    SiteTraffic {
        upload: upload.map(|s| s.to_string()),
        download: download.map(|s| s.to_string()),
        ratio: ratio.map(|s| s.to_string()),
    }
}

fn signin(status: SigninStatus, message: &str) -> SigninResult {
    SigninResult {
        status,
        message: message.to_string(),
        reward: None,
        total_days: None,
        consecutive_days: None,
    }
}

#[test]
fn defaults_are_those_of_a_new_configuration() {
    let config = AppConfig::default();
    assert!(config.sites.is_empty());
    assert_eq!(config.cron, "0 9 * * *");
    assert_eq!(config.cdp_port, 9222);
    assert_eq!(config.visit_duration, 30);
    assert!(config.random_delay);
    assert!(!config.auto_launch);
    assert_eq!(config.log_retention, 500);
    assert!(!config.auto_sync_cookie);
    assert_eq!(config.cron_offset_minutes, 30);
    assert_eq!(config.ocr_server_url, "http://192.168.31.80:8060");
    assert_eq!(config.ocr_retry_count, 2);
    assert_eq!(config.min_login_attempts_remaining, 5);
    assert_eq!(config.update_proxy_url, "");
    assert_eq!(CookieCloudConfig::default().server_url, "");
    assert!(!GotifyConfig::default().enabled);
}

#[test]
fn retention_is_kept_within_its_limits() {
    assert_eq!(normalize_log_retention(0), 50);
    assert_eq!(normalize_log_retention(49), 50);
    assert_eq!(normalize_log_retention(1234), 1234);
    assert_eq!(normalize_log_retention(5001), 5000);
    let mut retention = 500;
    set_log_retention(&mut retention, 9);
    assert_eq!(retention, 50);
    assert_eq!(current_log_retention(6000), 5000);
    let mut config = AppConfig::default();
    config.log_retention = 7;
    assert_eq!(loaded_config(config).log_retention, 50);
}

#[test]
fn log_lines_read_back() {
    let line = format_log_line(&entry("a [b] c"));
    assert_eq!(line, "2026-01-02 03:04:05 [INFO] a [b] c");
    let read = parse_log_line(&line).unwrap();
    assert_eq!(read.timestamp.wall, entry("").timestamp.wall);
    assert_eq!(Some(read.timestamp.offset), local_offset(read.timestamp.wall));
    assert_eq!(read.level, "INFO");
    assert_eq!(read.message, "a [b] c");
    for year in [-262143, -1, 0, 9999, 10000, 262142] {
        let mut far = entry("m");
        far.timestamp.wall.civil.year = year;
        let line: Vec<char> = format_log_line(&far).chars().collect();
        let read = local_log_line(&line, |_: WallTime| Some(3600)).unwrap();
        assert_eq!((read.timestamp, read.message.as_str()), (far.timestamp, "m"));
    }
}

#[test]
fn leap_seconds_stay_in_the_log() {
    let text = "2016-12-31 23:59:60 [INFO] leap\n";
    let entries = local_log_entries(text, |_: WallTime| Some(-3600));
    assert_eq!(entries.len(), 1);
    assert_eq!(entries[0].timestamp.wall.civil.second, 59);
    assert_eq!(entries[0].timestamp.wall.nanos, 1_000_000_000);
    assert_eq!(entries[0].timestamp.offset, -3600);
    assert_eq!(log_file_text(&entries), text);
    let (loaded, _) = load_logs(text, 500);
    assert_eq!(log_file_text(&loaded), text);
}

#[test]
fn parts_of_seconds_are_kept_until_they_are_written() {
    let mut part = entry("m");
    part.timestamp.wall.nanos = 123_456_789;
    let line: Vec<char> = format_log_line(&part).chars().collect();
    let read = local_log_line(&line, |_: WallTime| Some(3600)).unwrap();
    assert_eq!(read.timestamp, entry("m").timestamp);
    let now = LogEntry::info("n");
    assert_eq!(Some(now.timestamp.offset), local_offset(now.timestamp.wall));
}

#[test]
fn lines_that_are_no_entries_are_passed_over() {
    for line in ["", "text", "2026-01-02 03:04:05 [INFO]", "2026-13-02 03:04:05 [INFO] x"] {
        assert!(parse_log_line(line).is_none());
    }
    let data = "x\n2026-01-02 03:04:05 [INFO] one\r\n\n2026-01-02 03:04:06 [ERROR] two\n";
    let entries = log_entries(data);
    assert_eq!(entries.len(), 2);
    assert_eq!(entries[0].message, "one");
    assert_eq!(entries[1].level, "ERROR");
}

#[test]
fn the_newest_entries_stay() {
    let mut logs: Vec<LogEntry> = (0..60).map(|i| entry(&format!("{i}"))).collect();
    assert!(!trim_logs(&mut logs, 60));
    assert_eq!(logs.len(), 60);
    assert!(trim_logs(&mut logs, 10));
    assert_eq!(logs.len(), 50);
    assert_eq!(logs[0].message, "10");
    assert_eq!(logs[49].message, "59");
    assert!(!trim_logs(&mut logs, 10));
}

#[test]
fn log_files_read_back() {
    assert_eq!(log_file_text(&vec![]), "");
    let logs = vec![entry("one"), entry("two")];
    let text = log_file_text(&logs);
    assert_eq!(text, "2026-01-02 03:04:05 [INFO] one\n2026-01-02 03:04:05 [INFO] two\n");
    assert_eq!(log_entries(&text).len(), 2);
}

#[test]
fn entries_carry_their_level() {
    assert_eq!(LogEntry::info("m").level, "INFO");
    assert_eq!(LogEntry::error("m").level, "ERROR");
    assert_eq!(LogEntry::success("m").level, "SUCCESS");
    assert_eq!(LogEntry::success("m").message, "m");
    assert_eq!(log_entry(LogLevel::Error, "e").level, "ERROR");
}

#[test]
fn traffic_is_summed_up() {
    let none = traffic(None, None, None);
    assert!(!none.available());
    assert_eq!(none.summary(), "上传 未识别，下载 未识别，分享率 未识别");
    let some = traffic(Some("1 TB"), None, Some("2.5"));
    assert!(some.available());
    assert_eq!(some.summary(), "上传 1 TB，下载 未识别，分享率 2.5");
}

#[test]
fn texts_for_people_are_escaped() {
    assert_eq!(human_value("  a\n b_c*[d]<e>#f|g`h\\ "), "a b\\_c\\*\\[d\\]\\<e\\>\\#f\\|g\\`h\\\\");
    assert_eq!(human_optional(Some("  ")), "未获取");
    assert_eq!(human_optional(None), "未获取");
    assert_eq!(human_optional(Some(" 1  TB ")), "1 TB");
    assert_eq!(signin_status_code(SigninStatus::AlreadySigned), "already_signed");
    assert_eq!(signin_status_label(SigninStatus::Failed), "签到失败");
}

#[test]
fn a_round_of_nothing_is_reported() {
    let (text, json) = build_report(&[], &[], &[], &[]);
    assert_eq!(
        text,
        "## 1. 登录与流量\n✅ **成功 0**：无\n❌ **失败 0**：无\n\n**流量明细**\n- 无\n\n**登录失败原因**\n- 无\n\n## 2. 签到\n✅ **成功 0**：无\n❌ **失败 0**：无\n\n**签到成功明细**\n- 无\n\n**签到失败原因**\n- 无"
    );
    let login = json.get("login").unwrap();
    assert_eq!(login.u64_at("success_count"), Some(0));
    assert_eq!(json.u64_at("version"), Some(1));
}

#[test]
fn sites_with_traffic_count_as_logged_in() {
    let (text, _) = build_report(
        &["a".to_string()],
        &[],
        &[],
        &[
            ("b".to_string(), traffic(Some("1"), Some("2"), None)),
            ("a".to_string(), traffic(None, None, None)),
        ],
    );
    assert!(text.contains("✅ **成功 2**：a、b\n"));
    assert!(text.contains("- **b**　↑1　↓2　比 未获取\n"));
}

#[test]
fn summaries_need_an_address_and_a_token() {
    let off = gotify(false, "", "", "");
    assert!(matches!(login_summary(&off, &[], &[], &[], &[]), Ok(None)));
    for config in [gotify(true, " / ", "t", ""), gotify(true, "http://a", "  ", "")] {
        assert_eq!(
            login_summary(&config, &[], &[], &[], &[]).err(),
            Some("Gotify 已启用，但服务地址或应用 Token 未配置".to_string())
        );
        assert_eq!(
            test_notification(&config).err(),
            Some("请先填写 Gotify 服务地址和应用 Token".to_string())
        );
    }
}

#[test]
fn failures_raise_the_priority() {
    let config = gotify(true, " http://a.b// ", " tok ", "  ");
    let quiet = login_summary(&config, &[], &[], &[], &[]).unwrap().unwrap();
    assert_eq!(quiet.url, "http://a.b/message");
    assert_eq!(quiet.token, "tok");
    assert_eq!(quiet.title, "PT Manager 保活结果");
    assert_eq!(quiet.priority, 2);
    assert!(matches!(quiet.report, Some(Json::Object(_))));
    let signed = [("s".to_string(), signin(SigninStatus::Failed, "x"))];
    let loud = login_summary(&config, &[], &[], &signed, &[]).unwrap().unwrap();
    assert_eq!(loud.priority, 5);
    let failed = [("s".to_string(), "r".to_string())];
    let loud = login_summary(&config, &[], &failed, &[], &[]).unwrap().unwrap();
    assert_eq!(loud.priority, 5);
}

#[test]
fn test_notifications_are_plain() {
    let message = test_notification(&gotify(false, "http://a", "t", " mine ")).unwrap();
    assert_eq!(message.title, "mine");
    assert_eq!(message.message, "Gotify 连接测试成功，通知配置可用。");
    assert_eq!(message.priority, 5);
    assert!(message.report.is_none());
    let message = test_notification(&gotify(false, "http://a", "t", "")).unwrap();
    assert_eq!(message.title, "PT Manager 测试通知");
}

fn answered(success: bool, detail: &str) -> Delivery {
    Delivery::Answered {
        success,
        status: "401 Unauthorized".to_string(),
        detail: detail.to_string(),
    }
}

#[test]
fn deliveries_are_judged() {
    assert_eq!(summary_result(&answered(true, "x")), Ok(()));
    assert_eq!(
        summary_result(&answered(false, "x")),
        Err("Gotify 通知发送失败：HTTP 401 Unauthorized".to_string())
    );
    assert_eq!(
        summary_result(&Delivery::TimedOut),
        Err("Gotify 通知发送失败：请求超时".to_string())
    );
    assert_eq!(
        summary_result(&Delivery::Unreachable("e".to_string())),
        Err("Gotify 通知发送失败：无法连接服务".to_string())
    );
    assert_eq!(
        summary_result(&Delivery::NoClient),
        Err("Gotify HTTP 客户端初始化失败".to_string())
    );
    assert_eq!(test_result(&answered(true, "")), Ok(()));
    assert_eq!(
        test_result(&answered(false, " bad ")),
        Err("Gotify 测试失败：HTTP 401 Unauthorized，bad".to_string())
    );
    assert_eq!(
        test_result(&answered(false, "  ")),
        Err("Gotify 测试失败：HTTP 401 Unauthorized".to_string())
    );
    assert_eq!(
        test_result(&Delivery::TimedOut),
        Err("Gotify 测试失败：请求超时".to_string())
    );
    assert_eq!(
        test_result(&Delivery::Unreachable("e".to_string())),
        Err("Gotify 测试失败：无法连接服务（e）".to_string())
    );
    assert_eq!(
        test_result(&Delivery::NoClient),
        Err("Gotify HTTP 客户端初始化失败".to_string())
    );
}

#[test]
fn new_entries_push_out_the_oldest() {
    let mut logs: Vec<LogEntry> = (0..49).map(|i| entry(&format!("{i}"))).collect();
    assert!(!push_log(&mut logs, entry("49"), 50));
    assert_eq!(logs.len(), 50);
    assert!(push_log(&mut logs, entry("50"), 50));
    assert_eq!(logs.len(), 50);
    assert_eq!(logs[0].message, "1");
    assert_eq!(logs[49].message, "50");
    assert!(!apply_log_retention(&mut logs, 50));
}

#[test]
fn files_are_loaded_up_to_the_retention() {
    let logs: Vec<LogEntry> = (0..55).map(|i| entry(&format!("{i}"))).collect();
    let text = log_file_text(&logs);
    let (loaded, dropped) = load_logs(&text, 50);
    assert!(dropped);
    assert_eq!(loaded.len(), 50);
    assert_eq!(loaded[0].message, "5");
    let (loaded, dropped) = load_logs(&text, 60);
    assert!(!dropped);
    assert_eq!(loaded.len(), 55);
}

#[test]
fn times_that_the_zone_lacks_are_left_out() {
    let text = "2026-01-02 03:04:05 [INFO] one\n2026-03-29 02:30:00 [INFO] two\n";
    let entries = local_log_entries(text, |t: WallTime| if t.civil.month != 3 { Some(7200) } else { None });
    assert_eq!(entries.len(), 1);
    assert_eq!(entries[0].message, "one");
    assert_eq!(local_log_entries(text, |_: WallTime| Some(0)).len(), 2);
    assert!(local_log_entries(text, |_: WallTime| None).is_empty());
    let line: Vec<char> = format_log_line(&entry("m")).chars().collect();
    assert_eq!(local_log_line(&line, |_: WallTime| Some(3600)).unwrap().message, "m");
    assert!(local_log_line(&line, |_: WallTime| None).is_none());
}
