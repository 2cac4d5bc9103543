//! The configuration and the log: their types, defaults, limits and text forms.

use crate::calendar::{
    local_now, local_offset, parse_time, parsed_time, time_string, time_text,
    time_text_has_no_bracket, LocalTime, WallTime, TIME_FORMAT,
};
use crate::list::push_text;
use crate::text::{
    chars_of, contains_text, cut_text, is_line, join, joined, joined_lines_read_back,
    lemma_find_from_is, lines, lines_of, occurs_at, pieces, split_once_str, string_of, texts,
};
use vstd::prelude::*;

verus! {

pub const DEFAULT_LOG_RETENTION: usize = 500;

pub const MIN_LOG_RETENTION: usize = 50;

pub const MAX_LOG_RETENTION: usize = 5000;

/// A site that is kept alive.
#[derive(Debug, Clone)]
pub struct Site {
    pub id: String,
    pub name: String,
    pub url: String,
    pub username: String,
    pub password: String,
    pub totp_secret: String,
    pub auto_login: bool,
    /// The number of login attempts left that the site reported last.
    pub login_attempts_remaining: Option<u32>,
    pub auto_keepalive: bool,
}

/// What a `Site` says.
pub struct SiteView {
    pub id: Seq<char>,
    pub name: Seq<char>,
    pub url: Seq<char>,
    pub username: Seq<char>,
    pub password: Seq<char>,
    pub totp_secret: Seq<char>,
    pub auto_login: bool,
    pub login_attempts_remaining: Option<u32>,
    pub auto_keepalive: bool,
}

impl View for Site {
    type V = SiteView;

    open spec fn view(&self) -> SiteView {
        SiteView {
            id: self.id@,
            name: self.name@,
            url: self.url@,
            username: self.username@,
            password: self.password@,
            totp_secret: self.totp_secret@,
            auto_login: self.auto_login,
            login_attempts_remaining: self.login_attempts_remaining,
            auto_keepalive: self.auto_keepalive,
        }
    }
}

/// What a list of sites says.
pub open spec fn site_views(sites: Seq<Site>) -> Seq<SiteView> {
    sites.map_values(|s: Site| s@)
}

/// Where cookies are fetched from.
#[derive(Debug, Clone)]
pub struct CookieCloudConfig {
    pub server_url: String,
    pub uuid: String,
    pub password: String,
}

/// Where notifications are sent to.
#[derive(Debug, Clone)]
pub struct GotifyConfig {
    pub enabled: bool,
    pub server_url: String,
    pub token: String,
    pub title: String,
}

/// All settings.
#[derive(Debug, Clone)]
pub struct AppConfig {
    pub sites: Vec<Site>,
    pub cron: String,
    pub cdp_port: u16,
    pub visit_duration: u64,
    pub random_delay: bool,
    /// The upper limit of the delay of a scheduled task.
    pub cron_offset_minutes: i32,
    pub auto_launch: bool,
    pub log_retention: usize,
    pub auto_sync_cookie: bool,
    pub auto_sync_cookie_after_keepalive: bool,
    pub auto_close_sync_tabs: bool,
    pub cookiecloud: CookieCloudConfig,
    pub ocr_server_url: String,
    pub ocr_retry_count: u8,
    pub min_login_attempts_remaining: u8,
    pub gotify: GotifyConfig,
    pub update_proxy_url: String,
}

impl Default for CookieCloudConfig {
    fn default() -> (r: CookieCloudConfig)
        ensures
            r.server_url@.len() == 0,
            r.uuid@.len() == 0,
            r.password@.len() == 0,
    {
        CookieCloudConfig {
            server_url: String::new(),
            uuid: String::new(),
            password: String::new(),
        }
    }
}

impl Default for GotifyConfig {
    fn default() -> (r: GotifyConfig)
        ensures
            !r.enabled,
            r.server_url@.len() == 0,
            r.token@.len() == 0,
            r.title@.len() == 0,
    {
        GotifyConfig {
            enabled: false,
            server_url: String::new(),
            token: String::new(),
            title: String::new(),
        }
    }
}

impl Default for AppConfig {
    fn default() -> (r: AppConfig)
        ensures
            r.sites@.len() == 0,
            r.cron@ == "0 9 * * *"@,
            r.cdp_port == 9222,
            r.visit_duration == 30,
            r.random_delay,
            r.cron_offset_minutes == 30,
            !r.auto_launch,
            r.log_retention == DEFAULT_LOG_RETENTION,
            !r.auto_sync_cookie,
            !r.auto_sync_cookie_after_keepalive,
            !r.auto_close_sync_tabs,
            r.cookiecloud.server_url@.len() == 0,
            r.cookiecloud.uuid@.len() == 0,
            r.cookiecloud.password@.len() == 0,
            r.ocr_server_url@ == "http://192.168.31.80:8060"@,
            r.ocr_retry_count == 2,
            r.min_login_attempts_remaining == 5,
            !r.gotify.enabled,
            r.gotify.server_url@.len() == 0,
            r.gotify.token@.len() == 0,
            r.gotify.title@.len() == 0,
            r.update_proxy_url@.len() == 0,
    {
        AppConfig {
            sites: Vec::new(),
            cron: "0 9 * * *".to_string(),
            cdp_port: 9222,
            visit_duration: 30,
            random_delay: true,
            cron_offset_minutes: 30,
            auto_launch: false,
            log_retention: DEFAULT_LOG_RETENTION,
            auto_sync_cookie: false,
            auto_sync_cookie_after_keepalive: false,
            auto_close_sync_tabs: false,
            cookiecloud: CookieCloudConfig::default(),
            ocr_server_url: "http://192.168.31.80:8060".to_string(),
            ocr_retry_count: 2,
            min_login_attempts_remaining: 5,
            gotify: GotifyConfig::default(),
            update_proxy_url: String::new(),
        }
    }
}

/// `value` or the limit that it is beyond.
pub open spec fn clamped(value: int, low: int, high: int) -> int {
    if value < low {
        low
    } else if value > high {
        high
    } else {
        value
    }
}

/// The number of log entries to keep.
pub open spec fn retention_of(value: usize) -> usize {
    clamped(value as int, MIN_LOG_RETENTION as int, MAX_LOG_RETENTION as int) as usize
}

/// The number of log entries to keep.
pub fn normalize_log_retention(value: usize) -> (r: usize)
    ensures
        r == retention_of(value),
{
    if value < MIN_LOG_RETENTION {
        MIN_LOG_RETENTION
    } else if value > MAX_LOG_RETENTION {
        MAX_LOG_RETENTION
    } else {
        value
    }
}

/// The retention always lies within its limits, and a retention within them stays
/// as it is.
pub proof fn retention_is_bounded(value: usize)
    ensures
        MIN_LOG_RETENTION <= retention_of(value) <= MAX_LOG_RETENTION,
        retention_of(retention_of(value)) == retention_of(value),
        MIN_LOG_RETENTION <= value <= MAX_LOG_RETENTION ==> retention_of(value) == value,
{
}

/// Sets the number of log entries to keep.
pub fn set_log_retention(retention: &mut usize, value: usize)
    ensures
        *final(retention) == retention_of(value),
{
    *retention = normalize_log_retention(value);
}

/// The number of log entries to keep, by what was set.
pub fn current_log_retention(retention: usize) -> (r: usize)
    ensures
        r == retention_of(retention),
{
    normalize_log_retention(retention)
}

/// A configuration as it was loaded, with the retention brought within its limits.
pub fn loaded_config(config: AppConfig) -> (r: AppConfig)
    ensures
        r == (AppConfig { log_retention: retention_of(config.log_retention), ..config }),
{
    let mut r: AppConfig = config;
    r.log_retention = normalize_log_retention(r.log_retention);
    r
}

/// An entry of the log.
#[derive(Debug, Clone)]
pub struct LogEntry {
    pub timestamp: LocalTime,
    pub level: String,
    pub message: String,
}

/// What a `LogEntry` says.
pub struct LogView {
    pub timestamp: LocalTime,
    pub level: Seq<char>,
    pub message: Seq<char>,
}

impl View for LogEntry {
    type V = LogView;

    open spec fn view(&self) -> LogView {
        LogView { timestamp: self.timestamp, level: self.level@, message: self.message@ }
    }
}

/// What a list of log entries says.
pub open spec fn log_views(logs: Seq<LogEntry>) -> Seq<LogView> {
    logs.map_values(|e: LogEntry| e@)
}

impl LogEntry {
    /// An entry of now that informs.
    pub fn info(msg: &str) -> (r: LogEntry)
        ensures
            r@.level == "INFO"@,
            r@.message == msg@,
            call_ensures(local_now, (), r@.timestamp),
            r@.timestamp.wall.is_valid(),
    {
        LogEntry { timestamp: local_now(), level: "INFO".to_string(), message: msg.to_string() }
    }

    /// An entry of now that reports an error.
    pub fn error(msg: &str) -> (r: LogEntry)
        ensures
            r@.level == "ERROR"@,
            r@.message == msg@,
            call_ensures(local_now, (), r@.timestamp),
            r@.timestamp.wall.is_valid(),
    {
        LogEntry { timestamp: local_now(), level: "ERROR".to_string(), message: msg.to_string() }
    }

    /// An entry of now that reports a success.
    pub fn success(msg: &str) -> (r: LogEntry)
        ensures
            r@.level == "SUCCESS"@,
            r@.message == msg@,
            call_ensures(local_now, (), r@.timestamp),
            r@.timestamp.wall.is_valid(),
    {
        LogEntry { timestamp: local_now(), level: "SUCCESS".to_string(), message: msg.to_string() }
    }
}

/// A log entry as a line: its time, its level in brackets, and its message.
pub open spec fn log_line(e: LogView) -> Seq<char> {
    time_text(e.timestamp.wall) + " ["@ + e.level + "] "@ + e.message
}

/// A log entry as a line.
pub fn format_log_line(entry: &LogEntry) -> (r: String)
    ensures
        r@ == log_line(entry@),
{
    time_string(&entry.timestamp.wall).concat(" [").concat(entry.level.as_str()).concat("] ").concat(
        entry.message.as_str(),
    )
}

/// What the text of a line says.
#[derive(Debug)]
pub struct LoggedLine {
    pub time: WallTime,
    pub level: String,
    pub message: String,
}

/// What a `LoggedLine` says.
pub struct LoggedView {
    pub time: WallTime,
    pub level: Seq<char>,
    pub message: Seq<char>,
}

impl View for LoggedLine {
    type V = LoggedView;

    open spec fn view(&self) -> LoggedView {
        LoggedView { time: self.time, level: self.level@, message: self.message@ }
    }
}

impl LoggedView {
    /// The entry of a line whose time is so many seconds ahead of universal time.
    pub open spec fn at(self, offset: i32) -> LogView {
        LogView {
            timestamp: LocalTime { wall: self.time, offset },
            level: self.level,
            message: self.message,
        }
    }
}

/// What the text of a line says, where it is that of an entry.
pub open spec fn logged(line: Seq<char>) -> Option<LoggedView> {
    match cut_text(line, " ["@) {
        None => None,
        Some((time, rest)) => match cut_text(rest, "] "@) {
            None => None,
            Some((level, message)) => match parsed_time(time, TIME_FORMAT@) {
                None => None,
                Some(time) => Some(LoggedView { time, level, message }),
            },
        },
    }
}

/// The entry in an optional log entry.
pub open spec fn opt_log(e: Option<LogEntry>) -> Option<LogView> {
    match e {
        Some(e) => Some(e@),
        None => None,
    }
}

/// Whether an entry can be told from its line: its time is a valid one of the years that
/// are covered, and its level does not look like the end of one.
pub open spec fn is_plain(e: LogView) -> bool {
    e.timestamp.wall.is_valid() && e.timestamp.wall.has_chrono_year() && !contains_text(e.level, "] "@)
}

proof fn lemma_line_parts(e: LogView)
    requires
        !contains_text(e.level, "] "@),
    ensures
        ({
            let rest = e.level + "] "@ + e.message;
            &&& cut_text(log_line(e), " ["@) == Some((time_text(e.timestamp.wall), rest))
            &&& cut_text(rest, "] "@) == Some((e.level, e.message))
        }),
{
    reveal_strlit(" [");
    reveal_strlit("] ");
    let time = time_text(e.timestamp.wall);
    let line = log_line(e);
    let rest = e.level + "] "@ + e.message;
    let k = time.len() as int;
    time_text_has_no_bracket(e.timestamp.wall);
    assert(line.subrange(k, k + 2) =~= " ["@);
    assert forall|j: int| 0 <= j < k implies !occurs_at(line, " ["@, j) by {
        if occurs_at(line, " ["@, j) {
            assert(line.subrange(j, j + 2)[1] == '[');
            assert(line[j + 1] == '[');
            if j + 1 < k {
                assert(line[j + 1] == time[j + 1]);
            } else {
                assert(line[k] == ' ');
            }
        }
    }
    lemma_find_from_is(line, " ["@, k);
    assert(line.take(k) =~= time);
    assert(line.skip(k + 2) =~= rest);
    let n = e.level.len() as int;
    assert(rest.subrange(n, n + 2) =~= "] "@);
    assert forall|j: int| 0 <= j < n implies !occurs_at(rest, "] "@, j) by {
        if occurs_at(rest, "] "@, j) {
            assert(rest.subrange(j, j + 2)[0] == ']');
            assert(rest.subrange(j, j + 2)[1] == ' ');
            assert(rest[j + 1] == ' ');
            if j + 1 < n {
                assert(e.level.subrange(j, j + 2) =~= "] "@);
                assert(occurs_at(e.level, "] "@, j));
            } else {
                assert(rest[n] == ']');
            }
        }
    }
    lemma_find_from_is(rest, "] "@, n);
    assert(rest.take(n) =~= e.level);
    assert(rest.skip(n + 2) =~= e.message);
}

/// What is left of an entry in its line: the time to the second, the level and the message.
pub open spec fn as_written(e: LogView) -> LoggedView {
    LoggedView {
        time: e.timestamp.wall.on_the_second(),
        level: e.level,
        message: e.message,
    }
}

/// What the text of a line says. An entry with a plain time and level is read back from its
/// line, to the second.
pub fn read_log_line(line: &[char]) -> (r: Option<LoggedLine>)
    ensures
        match r {
            Some(x) => logged(line@) == Some(x@),
            None => logged(line@) is None,
        },
        forall|e: LogView|
            is_plain(e) && line@ == #[trigger] log_line(e) ==> (r matches Some(x) && x@
                == as_written(e)),
{
    proof {
        assert forall|e: LogView| is_plain(e) && line@ == #[trigger] log_line(e) implies cut_text(
            line@,
            " ["@,
        ) == Some((time_text(e.timestamp.wall), e.level + "] "@ + e.message)) && cut_text(
            e.level + "] "@ + e.message,
            "] "@,
        ) == Some((e.level, e.message)) by {
            lemma_line_parts(e);
        }
    }
    match split_once_str(line, " [") {
        None => None,
        Some((time, rest)) => match split_once_str(rest, "] ") {
            None => None,
            Some((level, message)) => match parse_time(string_of(time).as_str()) {
                None => None,
                Some(time) => Some(
                    LoggedLine { time, level: string_of(level), message: string_of(message) },
                ),
            },
        },
    }
}

/// The entry that a line stands for, where `offset_at` tells by how much its time is ahead
/// of universal time. What is read is what was written, to the second, for an entry with a
/// plain time and level.
pub fn local_log_line<F: Fn(WallTime) -> Option<i32>>(line: &[char], offset_at: F) -> (r: Option<
    LogEntry,
>)
    requires
        forall|t: WallTime| #[trigger] call_requires(offset_at, (t,)),
    ensures
        match logged(line@) {
            Some(x) => match r {
                Some(e) => e@ == x.at(e.timestamp.offset) && call_ensures(
                    offset_at,
                    (x.time,),
                    Some(e.timestamp.offset),
                ),
                None => call_ensures(offset_at, (x.time,), None),
            },
            None => r is None,
        },
        forall|e: LogView|
            is_plain(e) && line@ == #[trigger] log_line(e) ==> logged(line@) == Some(as_written(e)),
{
    match read_log_line(line) {
        None => None,
        Some(x) => match offset_at(x.time) {
            Some(offset) => Some(
                LogEntry {
                    timestamp: LocalTime { wall: x.time, offset },
                    level: x.level,
                    message: x.message,
                },
            ),
            None => None,
        },
    }
}

/// The entry that a line stands for, with the offset that `local_offset` answers for its
/// time; nothing where the line is no entry, or where the answer is that the machine's time
/// zone does not have its time. What is read is what was written, to the second, for an entry
/// with a plain time and level.
pub fn parse_log_line(line: &str) -> (r: Option<LogEntry>)
    ensures
        match logged(line@) {
            Some(x) => match r {
                Some(e) => e@ == x.at(e.timestamp.offset) && call_ensures(
                    local_offset,
                    (x.time,),
                    Some(e.timestamp.offset),
                ),
                None => call_ensures(local_offset, (x.time,), None),
            },
            None => r is None,
        },
        forall|e: LogView|
            is_plain(e) && line@ == #[trigger] log_line(e) ==> match r {
                Some(x) => x@ == as_written(e).at(x.timestamp.offset),
                None => call_ensures(local_offset, (as_written(e).time,), None),
            },
{
    let chars: Vec<char> = chars_of(line);
    local_log_line(chars.as_slice(), local_offset)
}

/// The entries among `lines` whose time the machine's time zone has, with their offsets.
pub open spec fn local_entries(lines: Seq<Seq<char>>, offsets: Seq<Option<i32>>) -> Seq<LogView>
    decreases lines.len(),
{
    if lines.len() == 0 || offsets.len() != lines.len() {
        Seq::empty()
    } else {
        let before = local_entries(lines.drop_last(), offsets.drop_last());
        match (logged(lines.last()), offsets.last()) {
            (Some(x), Some(offset)) => before.push(x.at(offset)),
            _ => before,
        }
    }
}

/// The text of a log file: a line for every entry.
pub open spec fn log_text(logs: Seq<LogView>) -> Seq<char> {
    let body = joined(logs.map_values(|e: LogView| log_line(e)), "\n"@);
    if body.len() == 0 {
        body
    } else {
        body + "\n"@
    }
}

/// The entries among `logs` whose time the machine's time zone has, as they are read back.
pub open spec fn entries_where(logs: Seq<LogView>, offsets: Seq<Option<i32>>) -> Seq<LogView>
    decreases logs.len(),
{
    if logs.len() == 0 || offsets.len() != logs.len() {
        Seq::empty()
    } else {
        let before = entries_where(logs.drop_last(), offsets.drop_last());
        match offsets.last() {
            Some(offset) => before.push(as_written(logs.last()).at(offset)),
            None => before,
        }
    }
}

/// Whether entries can be told from the lines of a file.
pub open spec fn are_plain(logs: Seq<LogView>) -> bool {
    forall|i: int| 0 <= i < logs.len() ==> is_plain(#[trigger] logs[i]) && is_line(log_line(logs[i]))
}

/// A log file has the lines of its entries.
pub proof fn log_file_has_its_lines(logs: Seq<LogView>)
    requires
        forall|i: int| 0 <= i < logs.len() ==> is_line(log_line(#[trigger] logs[i])),
    ensures
        lines_of(log_text(logs)) == logs.map_values(|e: LogView| log_line(e)),
{
    let all = logs.map_values(|e: LogView| log_line(e));
    if logs.len() == 0 {
        assert(all =~= Seq::<Seq<char>>::empty());
        assert(lines_of(log_text(logs)) =~= all);
    } else {
        assert forall|i: int| 0 <= i < all.len() implies is_line(#[trigger] all[i]) by {
            assert(is_line(log_line(logs[i])));
        }
        joined_lines_read_back(all);
        reveal_strlit(" [");
        assert(all.last() == log_line(logs.last()));
        assert(log_line(logs.last()).len() > 0);
        assert(joined(all, "\n"@).len() > 0);
    }
}

proof fn lemma_local_entries(
    lines: Seq<Seq<char>>,
    logs: Seq<LogView>,
    offsets: Seq<Option<i32>>,
)
    requires
        offsets.len() == lines.len() == logs.len(),
        forall|i: int|
            0 <= i < logs.len() ==> logged(#[trigger] lines[i]) == Some(as_written(logs[i])),
    ensures
        local_entries(lines, offsets) == entries_where(logs, offsets),
    decreases lines.len(),
{
    if lines.len() > 0 {
        assert(logged(lines[lines.len() - 1]) == Some(as_written(logs.last())));
        assert forall|i: int| 0 <= i < logs.drop_last().len() implies logged(
            #[trigger] lines.drop_last()[i],
        ) == Some(as_written(logs.drop_last()[i])) by {
            assert(logged(lines[i]) == Some(as_written(logs[i])));
        }
        lemma_local_entries(lines.drop_last(), logs.drop_last(), offsets.drop_last());
    }
}

/// Whether `offsets` are what `offset_at` may answer for the times of the entries in `lines`.
pub open spec fn answered_lines<F: Fn(WallTime) -> Option<i32>>(
    offset_at: F,
    lines: Seq<Seq<char>>,
    offsets: Seq<Option<i32>>,
) -> bool {
    offsets.len() == lines.len() && forall|i: int|
        0 <= i < lines.len() ==> (logged(#[trigger] lines[i]) matches Some(x) ==> call_ensures(
            offset_at,
            (x.time,),
            offsets[i],
        ))
}

/// Whether `offsets` are what `offset_at` may answer for the times of entries.
pub open spec fn answered_entries<F: Fn(WallTime) -> Option<i32>>(
    offset_at: F,
    logs: Seq<LogView>,
    offsets: Seq<Option<i32>>,
) -> bool {
    offsets.len() == logs.len() && forall|i: int|
        0 <= i < logs.len() ==> call_ensures(
            offset_at,
            (as_written(#[trigger] logs[i]).time,),
            offsets[i],
        )
}

/// The entries in the text of a log file, in order. A line that is no entry is left
/// out, and so is one of whose time `offset_at` tells that there is none. A file that was
/// written with plain entries is read back, to the second.
pub fn local_log_entries<F: Fn(WallTime) -> Option<i32>>(data: &str, offset_at: F) -> (r: Vec<
    LogEntry,
>)
    requires
        forall|t: WallTime| #[trigger] call_requires(offset_at, (t,)),
    ensures
        exists|offsets: Seq<Option<i32>>|
            answered_lines(offset_at, lines_of(data@), offsets) && log_views(r@)
                == #[trigger] local_entries(lines_of(data@), offsets),
        forall|logs: Seq<LogView>|
            are_plain(logs) && data@ == #[trigger] log_text(logs) ==> exists|
                offsets: Seq<Option<i32>>,
            |
                answered_entries(offset_at, logs, offsets) && log_views(r@)
                    == #[trigger] entries_where(logs, offsets),
{
    let chars: Vec<char> = chars_of(data);
    let all: Vec<&[char]> = lines(chars.as_slice());
    let mut out: Vec<LogEntry> = Vec::new();
    let ghost read = lines_of(data@);
    let ghost mut offsets: Seq<Option<i32>> = Seq::empty();
    let mut i: usize = 0;
    assert(log_views(out@) =~= Seq::<LogView>::empty());
    while i < all.len()
        invariant
            forall|t: WallTime| #[trigger] call_requires(offset_at, (t,)),
            i <= all@.len(),
            read == lines_of(data@),
            pieces(all@) == read,
            answered_lines(offset_at, read.take(i as int), offsets),
            log_views(out@) == local_entries(read.take(i as int), offsets),
            forall|j: int, e: LogView|
                0 <= j < i && is_plain(e) && read[j] == #[trigger] log_line(e) ==> logged(
                    #[trigger] read[j],
                ) == Some(as_written(e)),
        decreases all@.len() - i,
    {
        let ghost views = log_views(out@);
        let ghost line = pieces(all@)[i as int];
        assert(line == all@[i as int]@);
        assert(read.take(i + 1).drop_last() =~= read.take(i as int));
        assert(read.take(i + 1).last() == line);
        let mut answer: Option<i32> = None;
        if let Some(x) = read_log_line(all[i]) {
            answer = offset_at(x.time);
            if let Some(offset) = answer {
                let e: LogEntry = LogEntry {
                    timestamp: LocalTime { wall: x.time, offset },
                    level: x.level,
                    message: x.message,
                };
                let ghost view = e@;
                out.push(e);
                assert(log_views(out@) =~= views.push(view));
            }
        }
        proof {
            let before = offsets;
            offsets = offsets.push(answer);
            assert(offsets.drop_last() =~= before);
            assert forall|k: int| 0 <= k < i + 1 implies (logged(
                #[trigger] read.take(i + 1)[k],
            ) matches Some(x) ==> call_ensures(offset_at, (x.time,), offsets[k])) by {
                if k < i {
                    assert(read.take(i + 1)[k] == read.take(i as int)[k]);
                    assert(offsets[k] == before[k]);
                }
            }
        }
        i = i + 1;
    }
    assert(read.take(i as int) =~= read);
    proof {
        assert forall|logs: Seq<LogView>|
            are_plain(logs) && data@ == #[trigger] log_text(logs) implies exists|
                offsets: Seq<Option<i32>>,
            |
            answered_entries(offset_at, logs, offsets) && log_views(out@)
                == #[trigger] entries_where(logs, offsets) by {
            log_file_has_its_lines(logs);
            assert forall|j: int| 0 <= j < logs.len() implies logged(#[trigger] read[j]) == Some(
                as_written(logs[j]),
            ) by {
                assert(is_plain(logs[j]));
                assert(read[j] == log_line(logs[j]));
            }
            lemma_local_entries(read, logs, offsets);
            assert forall|j: int| 0 <= j < logs.len() implies call_ensures(
                offset_at,
                (as_written(#[trigger] logs[j]).time,),
                offsets[j],
            ) by {
                assert(logged(read[j]) == Some(as_written(logs[j])));
            }
            assert(answered_entries(offset_at, logs, offsets));
        }
    }
    out
}

/// The entries in the text of a log file, in order. A line that is no entry is left
/// out, and so is one of whose time `local_offset` answers that the machine's time zone
/// does not have it. A file that was written with plain entries is read back, to the second.
pub fn log_entries(data: &str) -> (r: Vec<LogEntry>)
    ensures
        exists|offsets: Seq<Option<i32>>|
            answered_lines(local_offset, lines_of(data@), offsets) && log_views(r@)
                == #[trigger] local_entries(lines_of(data@), offsets),
        forall|logs: Seq<LogView>|
            are_plain(logs) && data@ == #[trigger] log_text(logs) ==> exists|
                offsets: Seq<Option<i32>>,
            |
                answered_entries(local_offset, logs, offsets) && log_views(r@)
                    == #[trigger] entries_where(logs, offsets),
{
    local_log_entries(data, local_offset)
}

/// The newest `retention` entries.
pub open spec fn newest<A>(logs: Seq<A>, retention: usize) -> Seq<A> {
    if logs.len() <= retention_of(retention) {
        logs
    } else {
        logs.skip(logs.len() - retention_of(retention))
    }
}

/// Drops the oldest entries beyond the retention; tells whether there were any.
pub fn trim_logs(logs: &mut Vec<LogEntry>, retention: usize) -> (r: bool)
    ensures
        final(logs)@ == newest(old(logs)@, retention),
        r == (old(logs)@.len() > retention_of(retention)),
{
    let keep: usize = normalize_log_retention(retention);
    if logs.len() <= keep {
        return false;
    }
    let overflow: usize = logs.len() - keep;
    let tail: Vec<LogEntry> = logs.split_off(overflow);
    assert(tail@ =~= old(logs)@.skip(overflow as int));
    *logs = tail;
    true
}

/// After trimming, at most the retention is left, and what is left are the newest
/// entries in their order; trimming again changes nothing.
pub proof fn trimming_keeps_the_newest(logs: Seq<LogEntry>, retention: usize)
    ensures
        newest(logs, retention).len() <= MAX_LOG_RETENTION,
        newest(logs, retention).len() <= retention_of(retention),
        newest(logs, retention).is_suffix_of(logs),
        newest(newest(logs, retention), retention) == newest(logs, retention),
{
    let kept = newest(logs, retention);
    assert(logs.subrange(logs.len() - kept.len(), logs.len() as int) =~= kept);
}

/// Adds an entry to the log and drops the oldest ones beyond the retention; tells
/// whether any were dropped, so that the file has to be written anew.
pub fn push_log(logs: &mut Vec<LogEntry>, entry: LogEntry, retention: usize) -> (r: bool)
    requires
        old(logs)@.len() < usize::MAX,
    ensures
        final(logs)@ == newest(old(logs)@.push(entry), retention),
        r == (old(logs)@.len() + 1 > retention_of(retention)),
{
    logs.push(entry);
    trim_logs(logs, current_log_retention(retention))
}

/// Drops the oldest entries beyond the retention; tells whether any were dropped, so
/// that the file has to be written anew.
pub fn apply_log_retention(logs: &mut Vec<LogEntry>, retention: usize) -> (r: bool)
    ensures
        final(logs)@ == newest(old(logs)@, retention),
        r == (old(logs)@.len() > retention_of(retention)),
{
    trim_logs(logs, current_log_retention(retention))
}

/// The newest entries in the text of a log file, and whether older ones were dropped,
/// so that the file has to be written anew. The times that there are, are those for which
/// `local_offset` has an answer.
pub fn load_logs(data: &str, retention: usize) -> (r: (Vec<LogEntry>, bool))
    ensures
        exists|offsets: Seq<Option<i32>>|
            answered_lines(local_offset, lines_of(data@), offsets) && ({
                let all = #[trigger] local_entries(lines_of(data@), offsets);
                log_views(r.0@) == newest(all, retention) && r.1 == (all.len() > retention_of(
                    retention,
                ))
            }),
{
    let mut logs: Vec<LogEntry> = log_entries(data);
    let ghost read = logs@;
    let dropped: bool = trim_logs(&mut logs, current_log_retention(retention));
    assert(log_views(logs@) =~= newest(log_views(read), retention));
    (logs, dropped)
}

/// The text of a log file.
pub fn log_file_text(logs: &Vec<LogEntry>) -> (r: String)
    ensures
        r@ == log_text(log_views(logs@)),
{
    let mut all: Vec<String> = Vec::new();
    let ghost want = log_views(logs@).map_values(|e: LogView| log_line(e));
    let mut i: usize = 0;
    assert(texts(all@) =~= want.take(0));
    while i < logs.len()
        invariant
            i <= logs@.len(),
            want == log_views(logs@).map_values(|e: LogView| log_line(e)),
            texts(all@) == want.take(i as int),
        decreases logs@.len() - i,
    {
        push_text(&mut all, format_log_line(&logs[i]));
        assert(texts(all@) =~= want.take(i + 1));
        i = i + 1;
    }
    assert(want.take(i as int) =~= want);
    let body: String = join(&all, "\n");
    if body.as_str().is_empty() {
        body
    } else {
        body.concat("\n")
    }
}

/// A new entry is always kept, with as many of those before it as there is room for, which is
/// never for fewer than fifty entries nor for more than five thousand.
pub proof fn new_entry_is_kept(logs: Seq<LogEntry>, entry: LogEntry, retention: usize)
    ensures
        ({
            let after = newest(logs.push(entry), retention);
            let room = if retention < 50 {
                50int
            } else if retention > 5000 {
                5000
            } else {
                retention as int
            };
            &&& after.last() == entry
            &&& logs.len() + 1 <= room ==> after.len() == logs.len() + 1
            &&& logs.len() + 1 > room ==> after.len() == room
            &&& forall|i: int|
                0 <= i < after.len() ==> #[trigger] after[i] == logs.push(entry)[logs.len() + 1
                    - after.len() + i]
        }),
{
}

} // verus!
