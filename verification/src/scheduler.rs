//! What surrounds a keep-alive round: which sites take part, how waits are cut
//! short, that only one round runs at a time, and what is written to the log.

use crate::calendar::local_now;
use crate::keepalive::{KeepNote, SleepStage};
use crate::login::{adapter_for, LoginRequest, SiteAdapter};
use crate::number::{decimal, decimal_of};
use crate::store::{site_views, AppConfig, LogEntry, Site, SiteView};
use crate::text::{chars_of, contains_text, opt_str, sum_contains_its_middle, trim, trimmed};
use vstd::prelude::*;

verus! {

/// How grave a log entry is.
#[derive(Debug, Clone, Copy, PartialEq, Eq, Structural)]
pub enum LogLevel {
    Info,
    Error,
    Success,
}

pub open spec fn level_text(level: LogLevel) -> Seq<char> {
    match level {
        LogLevel::Info => "INFO"@,
        LogLevel::Error => "ERROR"@,
        LogLevel::Success => "SUCCESS"@,
    }
}

/// A log entry of now.
pub fn log_entry(level: LogLevel, message: &str) -> (r: LogEntry)
    ensures
        r@.level == level_text(level),
        r@.message == message@,
        call_ensures(local_now, (), r@.timestamp),
        r@.timestamp.wall.is_valid(),
{
    match level {
        LogLevel::Info => LogEntry::info(message),
        LogLevel::Error => LogEntry::error(message),
        LogLevel::Success => LogEntry::success(message),
    }
}

/// The sites that are kept alive, in their order.
pub open spec fn enabled(sites: Seq<SiteView>) -> Seq<SiteView>
    decreases sites.len(),
{
    if sites.len() == 0 {
        Seq::empty()
    } else if sites.last().auto_keepalive {
        enabled(sites.drop_last()).push(sites.last())
    } else {
        enabled(sites.drop_last())
    }
}

/// What references to sites say.
pub open spec fn site_ref_views(sites: Seq<&Site>) -> Seq<SiteView> {
    sites.map_values(|s: &Site| s@)
}

/// The sites that are kept alive, in their order.
pub fn enabled_sites<'a>(sites: &'a Vec<Site>) -> (r: Vec<&'a Site>)
    ensures
        site_ref_views(r@) == enabled(site_views(sites@)),
{
    let ghost all = site_views(sites@);
    let mut out: Vec<&'a Site> = Vec::new();
    let mut i: usize = 0;
    assert(site_ref_views(out@) =~= enabled(all.take(0)));
    while i < sites.len()
        invariant
            i <= sites@.len(),
            all == site_views(sites@),
            site_ref_views(out@) == enabled(all.take(i as int)),
        decreases sites@.len() - i,
    {
        let ghost before = site_ref_views(out@);
        assert(all.take(i + 1).drop_last() =~= all.take(i as int));
        assert(all.take(i + 1).last() == sites@[i as int]@);
        if sites[i].auto_keepalive {
            out.push(&sites[i]);
            assert(site_ref_views(out@) =~= before.push(sites@[i as int]@));
        }
        i = i + 1;
    }
    assert(all.take(i as int) =~= all);
    out
}

/// Only sites that are to be kept alive take part in a round, and all of them do.
pub proof fn enabled_are_those_to_keep(sites: Seq<SiteView>)
    ensures
        forall|i: int| 0 <= i < enabled(sites).len() ==> (#[trigger] enabled(sites)[i]).auto_keepalive,
        forall|s: SiteView| #[trigger]
            enabled(sites).contains(s) <==> sites.contains(s) && s.auto_keepalive,
    decreases sites.len(),
{
    if sites.len() > 0 {
        let head = sites.drop_last();
        enabled_are_those_to_keep(head);
        let x = sites.last();
        assert(sites =~= head.push(x));
        assert forall|s: SiteView| #[trigger]
            enabled(sites).contains(s) <==> sites.contains(s) && s.auto_keepalive by {
            if sites.contains(s) && s.auto_keepalive {
                let k = choose|k: int| 0 <= k < sites.len() && sites[k] == s;
                if k < head.len() {
                    assert(head[k] == s);
                    assert(enabled(head).contains(s));
                    let j = choose|j: int| 0 <= j < enabled(head).len() && enabled(head)[j] == s;
                    assert(enabled(sites)[j] == s);
                } else {
                    assert(enabled(sites)[enabled(head).len() as int] == s);
                }
            }
            if enabled(sites).contains(s) {
                let j = choose|j: int| 0 <= j < enabled(sites).len() && enabled(sites)[j] == s;
                if j < enabled(head).len() {
                    assert(enabled(head)[j] == s);
                    assert(enabled(head).contains(s));
                    let k = choose|k: int| 0 <= k < head.len() && head[k] == s;
                    assert(sites[k] == s);
                } else {
                    assert(sites[sites.len() - 1] == s);
                }
            }
        }
    }
}

/// For each site whether it is logged in to.
pub fn login_flags(sites: &Vec<&Site>) -> (r: Vec<bool>)
    ensures
        r@ == site_ref_views(sites@).map_values(|s: SiteView| s.auto_login),
{
    let ghost want = site_ref_views(sites@).map_values(|s: SiteView| s.auto_login);
    let mut out: Vec<bool> = Vec::new();
    let mut i: usize = 0;
    assert(out@ =~= want.take(0));
    while i < sites.len()
        invariant
            i <= sites@.len(),
            want == site_ref_views(sites@).map_values(|s: SiteView| s.auto_login),
            out@ == want.take(i as int),
        decreases sites@.len() - i,
    {
        out.push(sites[i].auto_login);
        assert(out@ =~= want.take(i + 1));
        i = i + 1;
    }
    assert(want.take(i as int) =~= want);
    out
}

/// What a wait comes to after some of it has passed.
#[derive(Debug, Clone, Copy, PartialEq, Eq, Structural)]
pub enum SleepTurn {
    /// Wait for a second more.
    Second,
    /// The user asked to stop in the middle of the wait.
    Interrupt,
    /// The wait is over; `interrupted` tells whether the user asked to stop.
    Over { interrupted: bool },
}

/// What a wait of `seconds` comes to after `elapsed` of them.
pub open spec fn sleep_after(elapsed: u64, seconds: u64, cancelled: bool) -> SleepTurn {
    if elapsed >= seconds {
        SleepTurn::Over { interrupted: cancelled }
    } else if cancelled {
        SleepTurn::Interrupt
    } else {
        SleepTurn::Second
    }
}

/// What a wait of `seconds` comes to after `elapsed` of them.
pub fn sleep_with_cancel(elapsed: u64, seconds: u64, cancelled: bool) -> (r: SleepTurn)
    ensures
        r == sleep_after(elapsed, seconds, cancelled),
{
    if elapsed >= seconds {
        SleepTurn::Over { interrupted: cancelled }
    } else if cancelled {
        SleepTurn::Interrupt
    } else {
        SleepTurn::Second
    }
}

/// Begins a round, unless one is running; a request to stop from before is dropped.
pub fn begin_run(running: &mut bool, cancel_requested: &mut bool) -> (r: bool)
    ensures
        r == !*old(running),
        *final(running),
        *final(cancel_requested) == (if r {
            false
        } else {
            *old(cancel_requested)
        }),
{
    if *running {
        return false;
    }
    *running = true;
    *cancel_requested = false;
    true
}

/// Ends a round.
pub fn end_run(running: &mut bool, cancel_requested: &mut bool)
    ensures
        !*final(running),
        !*final(cancel_requested),
{
    *running = false;
    *cancel_requested = false;
}

/// The number of nanoseconds in a second.
pub const NANOS: i128 = 1_000_000_000;

/// How long it is from a moment to a later one, in nanoseconds, and nothing where that is
/// not later; `next` is in seconds, and `now` in seconds with `nanos` more nanoseconds.
pub open spec fn time_until(next: i64, now: i64, nanos: u32) -> int {
    let left = (next - now) * NANOS - nanos;
    if left > 0 {
        left
    } else {
        0
    }
}

/// How long to wait for a moment, in seconds and nanoseconds.
pub fn wait_time(next: i64, now: i64, nanos: u32) -> (r: (u64, u32))
    ensures
        r.0 * NANOS + r.1 == time_until(next, now, nanos),
        r.1 < NANOS,
{
    let left: i128 = (next as i128 - now as i128) * 1_000_000_000 - nanos as i128;
    if left > 0 {
        ((left / 1_000_000_000) as u64, (left % 1_000_000_000) as u32)
    } else {
        (0, 0)
    }
}

/// What is told when a round is asked for while another one is running.
pub fn skipped_run_text() -> (r: &'static str)
    ensures
        r@ == "已有保活任务正在执行，跳过本次触发"@,
{
    "已有保活任务正在执行，跳过本次触发"
}

/// What is told after a round; nothing where it was not broken off.
pub fn ended_run_text(cancelled: bool) -> (r: Option<&'static str>)
    ensures
        opt_str(r) == if cancelled {
            Some("保活任务已终止"@)
        } else {
            None
        },
{
    if cancelled {
        Some("保活任务已终止")
    } else {
        None
    }
}

/// What the schedule waits for.
#[derive(Debug)]
pub enum ScheduleStep {
    /// The expression is not valid: tell so and look again after some seconds.
    Invalid { message: String, seconds: u64 },
    /// Run a round after some seconds and nanoseconds.
    Run { seconds: u64, nanos: u32 },
}

/// What a `ScheduleStep` says.
pub enum ScheduleView {
    Invalid { message: Seq<char>, seconds: u64 },
    Run { seconds: u64, nanos: u32 },
}

impl View for ScheduleStep {
    type V = ScheduleView;

    open spec fn view(&self) -> ScheduleView {
        match *self {
            ScheduleStep::Invalid { message, seconds } => ScheduleView::Invalid {
                message: message@,
                seconds,
            },
            ScheduleStep::Run { seconds, nanos } => ScheduleView::Run { seconds, nanos },
        }
    }
}

/// What the schedule waits for; `next` is the moment of the next round in seconds, and
/// `now` the present one in seconds with `nanos` more nanoseconds. A round comes exactly at
/// its moment, or at once where that is gone by.
pub fn schedule_step(next: Option<i64>, now: i64, nanos: u32, cron: &str) -> (r: ScheduleStep)
    ensures
        r@ == match next {
            None => ScheduleView::Invalid {
                message: "Cron 表达式无效："@ + cron@,
                seconds: 60,
            },
            Some(t) => ScheduleView::Run {
                seconds: (time_until(t, now, nanos) / NANOS as int) as u64,
                nanos: (time_until(t, now, nanos) % NANOS as int) as u32,
            },
        },
{
    match next {
        None => ScheduleStep::Invalid {
            message: "Cron 表达式无效：".to_string().concat(cron),
            seconds: 60,
        },
        Some(t) => {
            let (seconds, rest): (u64, u32) = wait_time(t, now, nanos);
            ScheduleStep::Run { seconds, nanos: rest }
        },
    }
}

/// What is done about the login of a site.
#[derive(Debug, Clone, Copy, PartialEq, Eq, Structural)]
pub enum LoginPlan {
    /// The site is not to be logged in to.
    Skip,
    /// It is, but its credentials are missing.
    MissingCredentials,
    Login(SiteAdapter),
}

/// Whether a site has a user name and a password.
pub open spec fn has_credentials(s: SiteView) -> bool {
    trimmed(s.username).len() > 0 && s.password.len() > 0
}

/// What is done about the login of a site.
pub open spec fn login_plan(s: SiteView) -> LoginPlan {
    if !s.auto_login {
        LoginPlan::Skip
    } else if !has_credentials(s) {
        LoginPlan::MissingCredentials
    } else {
        LoginPlan::Login(adapter_for(s.url))
    }
}

/// Whether a text holds nothing but white space.
pub fn is_blank(text: &str) -> (r: bool)
    ensures
        r == (trimmed(text@).len() == 0),
{
    let chars: Vec<char> = chars_of(text);
    trim(chars.as_slice()).len() == 0
}

/// Whether a site has a user name and a password.
pub fn site_has_credentials(site: &Site) -> (r: bool)
    ensures
        r == has_credentials(site@),
{
    !is_blank(site.username.as_str()) && !site.password.as_str().is_empty()
}

/// What is done about the login of a site.
pub fn auto_login_plan(site: &Site) -> (r: LoginPlan)
    ensures
        r == login_plan(site@),
{
    if !site.auto_login {
        LoginPlan::Skip
    } else if !site_has_credentials(site) {
        LoginPlan::MissingCredentials
    } else {
        LoginPlan::Login(SiteAdapter::from_url(site.url.as_str()))
    }
}

/// The secret of a site, where it has one.
pub open spec fn secret_of(s: SiteView) -> Option<Seq<char>> {
    if trimmed(s.totp_secret).len() == 0 {
        None
    } else {
        Some(s.totp_secret)
    }
}

/// The secret of a site, where it has one.
pub fn site_secret<'a>(site: &'a Site) -> (r: Option<&'a str>)
    ensures
        opt_str(r) == secret_of(site@),
{
    if is_blank(site.totp_secret.as_str()) {
        None
    } else {
        Some(site.totp_secret.as_str())
    }
}

/// What a login of a site needs to know.
pub fn login_request<'a>(site: &'a Site, config: &AppConfig) -> (r: LoginRequest<'a>)
    ensures
        r.site_name@ == site@.name,
        r.site_url@ == site@.url,
        r.username@ == site@.username,
        r.password@ == site@.password,
        opt_str(r.totp_secret) == secret_of(site@),
        r.min_remaining_attempts == config.min_login_attempts_remaining,
        r.ocr_config is Some <==> config.ocr_server_url@.len() > 0,
        r.ocr_config matches Some(c) ==> c.0@ == config.ocr_server_url@ && c.1
            == config.ocr_retry_count,
{
    LoginRequest {
        site_name: site.name.as_str(),
        site_url: site.url.as_str(),
        username: site.username.as_str(),
        password: site.password.as_str(),
        totp_secret: site_secret(site),
        min_remaining_attempts: config.min_login_attempts_remaining as u32,
        ocr_config: if config.ocr_server_url.as_str().is_empty() {
            None
        } else {
            Some((config.ocr_server_url.clone(), config.ocr_retry_count))
        },
    }
}

/// What came of the login of a site.
#[derive(Debug)]
pub enum LoginNote {
    MissingCredentials,
    LoggedIn,
    AlreadyLoggedIn,
    Failed(String),
}

/// What is told of the login of a site.
pub open spec fn login_note(site: Seq<char>, note: LoginNote) -> (LogLevel, Seq<char>) {
    match note {
        LoginNote::MissingCredentials => (
            LogLevel::Error,
            site + " 已开启自动登录，但用户名或密码未配置"@,
        ),
        LoginNote::LoggedIn => (LogLevel::Success, site + " 自动登录成功"@),
        LoginNote::AlreadyLoggedIn => (LogLevel::Info, site + " 已处于登录状态"@),
        LoginNote::Failed(reason) => (LogLevel::Error, site + " 自动登录失败："@ + reason@),
    }
}

/// What is told of the login of a site.
pub fn login_note_text(site: &str, note: &LoginNote) -> (r: (LogLevel, String))
    ensures
        (r.0, r.1@) == login_note(site@, *note),
{
    match note {
        LoginNote::MissingCredentials => (
            LogLevel::Error,
            site.to_string().concat(" 已开启自动登录，但用户名或密码未配置"),
        ),
        LoginNote::LoggedIn => (LogLevel::Success, site.to_string().concat(" 自动登录成功")),
        LoginNote::AlreadyLoggedIn => (
            LogLevel::Info,
            site.to_string().concat(" 已处于登录状态"),
        ),
        LoginNote::Failed(reason) => (
            LogLevel::Error,
            site.to_string().concat(" 自动登录失败：").concat(reason.as_str()),
        ),
    }
}

/// What a wait is called when it is interrupted.
pub open spec fn stage_text(stage: SleepStage, site: Seq<char>) -> Seq<char> {
    match stage {
        SleepStage::Delay => "随机延迟"@,
        SleepStage::Stay { .. } => site + " 的停留等待"@,
        SleepStage::Interval => "站点间隔等待"@,
        SleepStage::StayOnAll => "批量停留等待"@,
    }
}

/// What is told of an interrupted wait; `site` is the name of the site that is
/// stayed on.
pub fn interrupt_text(stage: SleepStage, site: &str) -> (r: String)
    ensures
        r@ == "收到终止请求，正在中断"@ + stage_text(stage, site@),
{
    let name: String = match stage {
        SleepStage::Delay => "随机延迟".to_string(),
        SleepStage::Stay { .. } => site.to_string().concat(" 的停留等待"),
        SleepStage::Interval => "站点间隔等待".to_string(),
        SleepStage::StayOnAll => "批量停留等待".to_string(),
    };
    "收到终止请求，正在中断".to_string().concat(name.as_str())
}

/// The site that a note speaks of.
pub open spec fn note_site(note: KeepNote) -> Option<usize> {
    match note {
        KeepNote::Visiting { site } => Some(site),
        KeepNote::Staying { site, .. } => Some(site),
        KeepNote::Kept { site } => Some(site),
        KeepNote::VisitFailed { site } => Some(site),
        KeepNote::Opening { site } => Some(site),
        KeepNote::Opened { site } => Some(site),
        KeepNote::OpenFailed { site } => Some(site),
        KeepNote::SiteStopCloseFailed { site } => Some(site),
        KeepNote::SiteCloseFailed { site } => Some(site),
        _ => None,
    }
}

/// The site that a note speaks of.
pub fn site_of_note(note: KeepNote) -> (r: Option<usize>)
    ensures
        r == note_site(note),
{
    match note {
        KeepNote::Visiting { site } => Some(site),
        KeepNote::Staying { site, .. } => Some(site),
        KeepNote::Kept { site } => Some(site),
        KeepNote::VisitFailed { site } => Some(site),
        KeepNote::Opening { site } => Some(site),
        KeepNote::Opened { site } => Some(site),
        KeepNote::OpenFailed { site } => Some(site),
        KeepNote::SiteStopCloseFailed { site } => Some(site),
        KeepNote::SiteCloseFailed { site } => Some(site),
        _ => None,
    }
}

/// What is told of a round: `name` and `url` are those of the site that the note
/// speaks of, and `detail` is the text of the event that caused it.
pub open spec fn keep_note(
    note: KeepNote,
    name: Seq<char>,
    url: Seq<char>,
    detail: Seq<char>,
) -> (LogLevel, Seq<char>) {
    match note {
        KeepNote::NoSites => (LogLevel::Info, "暂无站点配置，保活任务结束"@),
        KeepNote::SyncStarted => (LogLevel::Info, "保活前自动同步 CookieCloud"@),
        KeepNote::SyncDone { imported, parsed } => (
            LogLevel::Success,
            "保活前 CookieCloud 自动同步完成："@ + decimal(imported as nat)
                + " 条登录数据已写入（共解析 "@ + decimal(parsed as nat) + " 条）"@,
        ),
        KeepNote::SyncFailed => (
            LogLevel::Error,
            "保活前 CookieCloud 自动同步失败："@ + detail + "，继续执行保活"@,
        ),
        KeepNote::ReusedPort { port } => (
            LogLevel::Info,
            "已复用自动 CDP 端口 localhost:"@ + decimal(port as nat),
        ),
        KeepNote::LaunchStarted => (
            LogLevel::Info,
            "Chrome CDP 未连接，正在尝试自动启动 Chrome"@,
        ),
        KeepNote::Launched => (LogLevel::Info, detail),
        KeepNote::LaunchFailed => (LogLevel::Error, detail),
        KeepNote::Started { count } => (
            LogLevel::Info,
            "开始保活任务，共 "@ + decimal(count as nat) + " 个站点"@,
        ),
        KeepNote::Delayed { seconds } => (
            LogLevel::Info,
            "随机延迟 "@ + decimal(seconds as nat) + " 秒"@,
        ),
        KeepNote::Visiting { .. } => (
            LogLevel::Info,
            "正在访问: "@ + name + " ("@ + url + ")"@,
        ),
        KeepNote::Staying { seconds, .. } => (
            LogLevel::Info,
            name + " 停留 "@ + decimal(seconds as nat) + " 秒，保持登录态"@,
        ),
        KeepNote::StopCloseFailed => (LogLevel::Error, "终止时关闭标签页失败: "@ + detail),
        KeepNote::CloseFailed => (LogLevel::Error, "关闭标签页失败: "@ + detail),
        KeepNote::Kept { .. } => (LogLevel::Success, name + " 保活完成"@),
        KeepNote::VisitFailed { .. } => (LogLevel::Error, name + " 访问失败: "@ + detail),
        KeepNote::Pausing { seconds } => (
            LogLevel::Info,
            "站点间隔等待 "@ + decimal(seconds as nat) + " 秒"@,
        ),
        KeepNote::AllDone => (LogLevel::Success, "保活任务全部完成"@),
        KeepNote::Opening { .. } => (
            LogLevel::Info,
            "正在打开: "@ + name + " ("@ + url + ")"@,
        ),
        KeepNote::Opened { .. } => (LogLevel::Info, name + " 已打开"@),
        KeepNote::OpenFailed { .. } => (LogLevel::Error, name + " 打开失败: "@ + detail),
        KeepNote::NothingOpened => (
            LogLevel::Error,
            "没有成功打开任何站点，保活任务结束"@,
        ),
        KeepNote::StayingOnAll { count, seconds } => (
            LogLevel::Info,
            "已打开 "@ + decimal(count as nat) + " 个站点，停留 "@ + decimal(seconds as nat)
                + " 秒"@,
        ),
        KeepNote::SiteStopCloseFailed { .. } => (
            LogLevel::Error,
            "终止时关闭 "@ + name + " 标签页失败: "@ + detail,
        ),
        KeepNote::SiteCloseFailed { .. } => (
            LogLevel::Error,
            name + " 关闭标签页失败: "@ + detail,
        ),
    }
}

/// What is told of a round.
pub fn keep_note_text(note: KeepNote, name: &str, url: &str, detail: &str) -> (r: (
    LogLevel,
    String,
))
    ensures
        (r.0, r.1@) == keep_note(note, name@, url@, detail@),
{
    match note {
        KeepNote::NoSites => (LogLevel::Info, "暂无站点配置，保活任务结束".to_string()),
        KeepNote::SyncStarted => (LogLevel::Info, "保活前自动同步 CookieCloud".to_string()),
        KeepNote::SyncDone { imported, parsed } => (
            LogLevel::Success,
            "保活前 CookieCloud 自动同步完成：".to_string().concat(
                decimal_of(imported as u64).as_str(),
            ).concat(" 条登录数据已写入（共解析 ").concat(
                decimal_of(parsed as u64).as_str(),
            ).concat(" 条）"),
        ),
        KeepNote::SyncFailed => (
            LogLevel::Error,
            "保活前 CookieCloud 自动同步失败：".to_string().concat(detail).concat(
                "，继续执行保活",
            ),
        ),
        KeepNote::ReusedPort { port } => (
            LogLevel::Info,
            "已复用自动 CDP 端口 localhost:".to_string().concat(
                decimal_of(port as u64).as_str(),
            ),
        ),
        KeepNote::LaunchStarted => (
            LogLevel::Info,
            "Chrome CDP 未连接，正在尝试自动启动 Chrome".to_string(),
        ),
        KeepNote::Launched => (LogLevel::Info, detail.to_string()),
        KeepNote::LaunchFailed => (LogLevel::Error, detail.to_string()),
        KeepNote::Started { count } => (
            LogLevel::Info,
            "开始保活任务，共 ".to_string().concat(decimal_of(count as u64).as_str()).concat(
                " 个站点",
            ),
        ),
        KeepNote::Delayed { seconds } => (
            LogLevel::Info,
            "随机延迟 ".to_string().concat(decimal_of(seconds).as_str()).concat(" 秒"),
        ),
        KeepNote::Visiting { .. } => (
            LogLevel::Info,
            "正在访问: ".to_string().concat(name).concat(" (").concat(url).concat(")"),
        ),
        KeepNote::Staying { seconds, .. } => (
            LogLevel::Info,
            name.to_string().concat(" 停留 ").concat(decimal_of(seconds).as_str()).concat(
                " 秒，保持登录态",
            ),
        ),
        KeepNote::StopCloseFailed => (
            LogLevel::Error,
            "终止时关闭标签页失败: ".to_string().concat(detail),
        ),
        KeepNote::CloseFailed => (
            LogLevel::Error,
            "关闭标签页失败: ".to_string().concat(detail),
        ),
        KeepNote::Kept { .. } => (LogLevel::Success, name.to_string().concat(" 保活完成")),
        KeepNote::VisitFailed { .. } => (
            LogLevel::Error,
            name.to_string().concat(" 访问失败: ").concat(detail),
        ),
        KeepNote::Pausing { seconds } => (
            LogLevel::Info,
            "站点间隔等待 ".to_string().concat(decimal_of(seconds).as_str()).concat(" 秒"),
        ),
        KeepNote::AllDone => (LogLevel::Success, "保活任务全部完成".to_string()),
        KeepNote::Opening { .. } => (
            LogLevel::Info,
            "正在打开: ".to_string().concat(name).concat(" (").concat(url).concat(")"),
        ),
        KeepNote::Opened { .. } => (LogLevel::Info, name.to_string().concat(" 已打开")),
        KeepNote::OpenFailed { .. } => (
            LogLevel::Error,
            name.to_string().concat(" 打开失败: ").concat(detail),
        ),
        KeepNote::NothingOpened => (
            LogLevel::Error,
            "没有成功打开任何站点，保活任务结束".to_string(),
        ),
        KeepNote::StayingOnAll { count, seconds } => (
            LogLevel::Info,
            "已打开 ".to_string().concat(decimal_of(count as u64).as_str()).concat(
                " 个站点，停留 ",
            ).concat(decimal_of(seconds).as_str()).concat(" 秒"),
        ),
        KeepNote::SiteStopCloseFailed { .. } => (
            LogLevel::Error,
            "终止时关闭 ".to_string().concat(name).concat(" 标签页失败: ").concat(detail),
        ),
        KeepNote::SiteCloseFailed { .. } => (
            LogLevel::Error,
            name.to_string().concat(" 关闭标签页失败: ").concat(detail),
        ),
    }
}

/// The sites to keep come in their order: what two lists of sites come to is what the one and
/// then the other come to, and a site alone comes to itself where it is to be kept.
pub proof fn enabled_sites_keep_their_order(a: Seq<SiteView>, b: Seq<SiteView>, s: SiteView)
    ensures
        enabled(a + b) == enabled(a) + enabled(b),
        enabled(seq![s]) == (if s.auto_keepalive {
            seq![s]
        } else {
            Seq::empty()
        }),
    decreases b.len(),
{
    let one = seq![s];
    assert(one.drop_last() =~= Seq::<SiteView>::empty());
    assert(enabled(one.drop_last()) =~= Seq::<SiteView>::empty());
    if s.auto_keepalive {
        assert(enabled(one) =~= one);
    }
    if b.len() == 0 {
        assert(a + b =~= a);
        assert(enabled(a) + enabled(b) =~= enabled(a));
    } else {
        enabled_sites_keep_their_order(a, b.drop_last(), s);
        assert((a + b).drop_last() =~= a + b.drop_last());
        assert((a + b).last() == b.last());
        assert(enabled(a + b) =~= enabled(a) + enabled(b));
    }
}

/// A site is logged in to exactly where that is asked for and its user name is not blank and
/// its password not empty; what is missing is told where it is asked for.
pub proof fn login_needs_credentials(s: SiteView)
    ensures
        login_plan(s) is Login <==> s.auto_login && trimmed(s.username).len() > 0 && s.password.len()
            > 0,
        login_plan(s) is Skip <==> !s.auto_login,
        login_plan(s) matches LoginPlan::Login(a) ==> a == adapter_for(s.url),
{
}

/// A wait lasts as many seconds as it is meant to, unless the user asks to stop.
pub proof fn wait_lasts_its_seconds(elapsed: u64, seconds: u64)
    ensures
        sleep_after(elapsed, seconds, false) is Second <==> elapsed < seconds,
        sleep_after(elapsed, seconds, false) == (SleepTurn::Over { interrupted: false })
            <==> elapsed >= seconds,
        !(sleep_after(elapsed, seconds, true) is Second),
        sleep_after(elapsed, seconds, true) matches SleepTurn::Over { interrupted } ==> interrupted,
{
}

proof fn lemma_holds_first(a: Seq<char>, b: Seq<char>)
    ensures
        contains_text(a + b, a),
        contains_text(a + b, b),
{
    assert(Seq::<char>::empty() + a + b =~= a + b);
    sum_contains_its_middle(Seq::empty(), a, b);
    assert(a + b + Seq::<char>::empty() =~= a + b);
    sum_contains_its_middle(a, b, Seq::empty());
}

/// What failed is told as an error, and what was done as a success.
pub proof fn notes_tell_failures_as_errors(
    note: KeepNote,
    name: Seq<char>,
    url: Seq<char>,
    detail: Seq<char>,
)
    ensures
        keep_note(note, name, url, detail).0 == LogLevel::Error <==> (note is SyncFailed
            || note is LaunchFailed || note is StopCloseFailed || note is CloseFailed
            || note is VisitFailed || note is OpenFailed || note is NothingOpened
            || note is SiteStopCloseFailed || note is SiteCloseFailed),
        keep_note(note, name, url, detail).0 == LogLevel::Success <==> (note is SyncDone
            || note is Kept || note is AllDone),
{
}

/// What is told of a site names the site, and what is told of a failure tells why.
#[verifier::rlimit(60)]
#[verifier::spinoff_prover]
pub proof fn notes_name_site_and_reason(
    note: KeepNote,
    name: Seq<char>,
    url: Seq<char>,
    detail: Seq<char>,
)
    ensures
        note_site(note) is Some ==> contains_text(keep_note(note, name, url, detail).1, name),
        keep_note(note, name, url, detail).0 == LogLevel::Error && !(note is NothingOpened)
            ==> contains_text(keep_note(note, name, url, detail).1, detail),
{
    match note {
        KeepNote::SyncFailed => {
            sum_contains_its_middle(
                "保活前 CookieCloud 自动同步失败："@,
                detail,
                "，继续执行保活"@,
            );
        },
        KeepNote::LaunchFailed => {
            lemma_holds_first(detail, Seq::empty());
            assert(detail + Seq::<char>::empty() =~= detail);
        },
        KeepNote::Visiting { .. } => {
            let text = "正在访问: "@ + name + " ("@ + url + ")"@;
            sum_contains_its_middle("正在访问: "@, name, " ("@ + url + ")"@);
            assert(text =~= "正在访问: "@ + name + (" ("@ + url + ")"@));
        },
        KeepNote::Opening { .. } => {
            let text = "正在打开: "@ + name + " ("@ + url + ")"@;
            sum_contains_its_middle("正在打开: "@, name, " ("@ + url + ")"@);
            assert(text =~= "正在打开: "@ + name + (" ("@ + url + ")"@));
        },
        KeepNote::Staying { seconds, .. } => {
            let rest = " 停留 "@ + decimal(seconds as nat) + " 秒，保持登录态"@;
            lemma_holds_first(name, rest);
            assert(name + rest =~= name + " 停留 "@ + decimal(seconds as nat)
                + " 秒，保持登录态"@);
        },
        KeepNote::StopCloseFailed => {
            lemma_holds_first("终止时关闭标签页失败: "@, detail);
        },
        KeepNote::CloseFailed => {
            lemma_holds_first("关闭标签页失败: "@, detail);
        },
        KeepNote::Kept { .. } => {
            lemma_holds_first(name, " 保活完成"@);
        },
        KeepNote::VisitFailed { .. } => {
            lemma_named_reason(name, " 访问失败: "@, detail);
        },
        KeepNote::Opened { .. } => {
            lemma_holds_first(name, " 已打开"@);
        },
        KeepNote::OpenFailed { .. } => {
            lemma_named_reason(name, " 打开失败: "@, detail);
        },
        KeepNote::SiteStopCloseFailed { .. } => {
            let text = "终止时关闭 "@ + name + " 标签页失败: "@ + detail;
            lemma_holds_first("终止时关闭 "@ + name + " 标签页失败: "@, detail);
            sum_contains_its_middle("终止时关闭 "@, name, " 标签页失败: "@ + detail);
            assert(text =~= "终止时关闭 "@ + name + (" 标签页失败: "@ + detail));
        },
        KeepNote::SiteCloseFailed { .. } => {
            lemma_named_reason(name, " 关闭标签页失败: "@, detail);
        },
        _ => {},
    }
}

proof fn lemma_named_reason(name: Seq<char>, between: Seq<char>, detail: Seq<char>)
    ensures
        contains_text(name + between + detail, name),
        contains_text(name + between + detail, detail),
{
    lemma_holds_first(name + between, detail);
    lemma_holds_first(name, between + detail);
    assert(name + (between + detail) =~= name + between + detail);
}

/// The next round is waited for to the nanosecond, and not at all where its time has come; an
/// expression that names no time is looked at again after a minute.
pub proof fn next_round_comes_at_its_time(
    next: Option<i64>,
    now: i64,
    nanos: u32,
    cron: &str,
    r: ScheduleStep,
)
    requires
        call_ensures(schedule_step, (next, now, nanos, cron), r),
    ensures
        r is Invalid <==> next is None,
        r matches ScheduleStep::Invalid { seconds, .. } ==> seconds == 60,
        next matches Some(t) ==> {
            let left = (t - now) * 1_000_000_000 - nanos;
            &&& r matches ScheduleStep::Run { seconds, nanos: rest } ==> rest < 1_000_000_000 && (
            left >= 0 ==> seconds * 1_000_000_000 + rest == left) && (left < 0 ==> seconds == 0
                && rest == 0)
        },
{
    if let Some(t) = next {
        let left = time_until(t, now, nanos);
        let billion = 1_000_000_000int;
        assert(left == (left / billion) * billion + left % billion);
        assert(0 <= left % billion < billion);
        if left > 0 {
            assert(left <= (t - now) * billion);
            assert(left / billion <= t - now) by (nonlinear_arith)
                requires
                    billion == 1_000_000_000,
                    left <= (t - now) * billion,
            {
            }
        }
    }
}

} // verus!
