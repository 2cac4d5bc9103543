use pt_manager::gotify::{build_report, REPORT_SCHEMA, REPORT_VERSION};
use pt_manager::json::Json;
use pt_manager::login::SiteAdapter;
use pt_manager::signin::{ApiSigninKind, SigninAdapter, SigninResult, SigninStatus};
use pt_manager::traffic::SiteTraffic;

#[test]
fn selects_special_adapters_before_nexusphp_fallback() {
    assert_eq!(
        SiteAdapter::from_url("https://kp.m-team.cc/login"),
        SiteAdapter::MTeam
    );
    assert_eq!(
        SiteAdapter::from_url("https://hdkyl.in/login.php"),
        SiteAdapter::Hdkylin
    );
    assert_eq!(
        SiteAdapter::from_url("https://pt.example.com/login.php"),
        SiteAdapter::NexusPhp
    );
}

#[test]
fn selects_rousi_page_adapter() {
    let adapter = SigninAdapter::from_url("https://rousi.pro/");
    assert_eq!(adapter, SigninAdapter::Rousi);
    assert_eq!(
        adapter.fallback_url("https://rousi.pro/"),
        "https://rousi.pro/account/economy"
    );
}

#[test]
fn selects_pting_forum_api() {
    let adapter = SigninAdapter::from_url("https://pting.club/");
    assert_eq!(adapter, SigninAdapter::Pting);
    assert!(matches!(adapter.api_fallback(), Some(ApiSigninKind::Pting)));
}

#[test]
fn fallback_url_keeps_the_site_origin() {
    assert_eq!(
        SigninAdapter::Generic.fallback_url("https://monikadesign.uk/"),
        "https://monikadesign.uk/attendance.php"
    );
    assert_eq!(
        SigninAdapter::Generic.fallback_url("https://hdfans.org/index.php"),
        "https://hdfans.org/attendance.php"
    );
    assert_eq!(
        SigninAdapter::Generic.fallback_url("https://example.com/tracker/index.php"),
        "https://example.com/tracker/attendance.php"
    );
}

fn at<'a>(value: &'a Json, key: &str) -> &'a Json {
    value.get(key).unwrap()
}

fn first<'a>(value: &'a Json) -> &'a Json {
    &value.as_array().unwrap()[0]
}

#[test]
fn report_human_layout_and_machine_v1_fields_are_stable() {
    let successful_sites = vec!["观众".to_string()];
    let failed_sites = vec![("失败站".to_string(), "登录超时".to_string())];
    let signin_results = vec![
        (
            "观众".to_string(),
            SigninResult {
                status: SigninStatus::Success,
                message: "签到成功".to_string(),
                reward: Some("10 魔力".to_string()),
                total_days: Some(30),
                consecutive_days: Some(7),
            },
        ),
        (
            "失败站".to_string(),
            SigninResult::failure("未找到签到入口"),
        ),
    ];
    let traffic_results = vec![(
        "观众".to_string(),
        SiteTraffic {
            upload: Some("10 TB".to_string()),
            download: Some("5 TB".to_string()),
            ratio: Some("2".to_string()),
        },
    )];

    let (message, report) = build_report(
        &successful_sites,
        &failed_sites,
        &signin_results,
        &traffic_results,
    );

    let expected = [
        "## 1. 登录与流量\n",
        "✅ **成功 1**：观众\n",
        "❌ **失败 1**：失败站\n",
        "\n",
        "**流量明细**\n",
        "- **观众**　↑10 TB　↓5 TB　比 2\n",
        "\n",
        "**登录失败原因**\n",
        "- **失败站**：登录超时\n",
        "\n",
        "## 2. 签到\n",
        "✅ **成功 1**：观众\n",
        "❌ **失败 1**：失败站\n",
        "\n",
        "**签到成功明细**\n",
        "- **观众**　签到成功　连续 7 天　累计 30 天\n",
        "\n",
        "**签到失败原因**\n",
        "- **失败站**：未找到签到入口",
    ]
    .concat();
    assert_eq!(message, expected);
    assert_eq!(report.str_at("schema"), Some(REPORT_SCHEMA));
    assert_eq!(report.u64_at("version"), Some(REPORT_VERSION as u64));
    assert_eq!(
        first(at(at(&report, "login"), "success")).str_at("upload"),
        Some("10 TB")
    );
    assert_eq!(
        first(at(at(&report, "signin"), "success")).u64_at("consecutive_days"),
        Some(7)
    );
    assert_eq!(
        first(at(at(&report, "signin"), "failure")).str_at("reason"),
        Some("未找到签到入口")
    );
}
