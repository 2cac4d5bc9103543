//! Notifications: the report of a keep-alive round for people and for machines, and
//! what is sent to the notification service.

use crate::json::{
    first_at, item_views, json_list, json_object, json_opt_number, json_opt_text, json_text, number_or_null,
    push_entry, push_item, text_or_null, Json, JsonView,
};
use crate::list::{distinct, distinct_is_a_set, push_new, push_text, push_texts};
use crate::number::{decimal, decimal_of};
use crate::signin::{SigninResult, SigninStatus, SigninView};
use crate::store::GotifyConfig;
use crate::text::{
    chars_of, containing_is_transitive, contains_text, has_prefix, join, join_pieces, joined,
    joined_text_holds_its_parts, opt_str, sum_contains_its_middle, opt_text, split_white, str_eq, string_of,
    texts, trim, trim_end_char, trim_end_of, trimmed, words,
};
use crate::traffic::{SiteTraffic, TrafficView};
use vstd::prelude::*;

verus! {

pub const REPORT_SCHEMA: &'static str = "pt-manager.keepalive.report";

pub const REPORT_VERSION: u8 = 1;

/// Whether a character has a meaning in Markdown.
pub open spec fn is_markup(c: char) -> bool {
    c == '\\' || c == '`' || c == '*' || c == '_' || c == '[' || c == ']' || c == '<' || c == '>'
        || c == '#' || c == '|'
}

/// A text with a backslash before every character that has a meaning in Markdown.
pub open spec fn escaped(s: Seq<char>) -> Seq<char>
    decreases s.len(),
{
    if s.len() == 0 {
        Seq::empty()
    } else if is_markup(s.last()) {
        escaped(s.drop_last()).push('\\').push(s.last())
    } else {
        escaped(s.drop_last()).push(s.last())
    }
}

/// A text for people: its words with single spaces between them, escaped.
pub open spec fn human_text(s: Seq<char>) -> Seq<char> {
    escaped(joined(words(s), " "@))
}

/// A text for people.
pub fn human_value(value: &str) -> (r: String)
    ensures
        r@ == human_text(value@),
{
    let raw: Vec<char> = chars_of(value);
    let parts: Vec<&[char]> = split_white(raw.as_slice());
    let compact: String = join_pieces(&parts, " ");
    let chars: Vec<char> = chars_of(compact.as_str());
    let mut out: Vec<char> = Vec::new();
    let mut i: usize = 0;
    assert(chars@.take(0) =~= Seq::<char>::empty());
    while i < chars.len()
        invariant
            i <= chars@.len(),
            out@ == escaped(chars@.take(i as int)),
        decreases chars@.len() - i,
    {
        assert(chars@.take(i + 1).drop_last() =~= chars@.take(i as int));
        assert(chars@.take(i + 1).last() == chars@[i as int]);
        let c: char = chars[i];
        if c == '\\' || c == '`' || c == '*' || c == '_' || c == '[' || c == ']' || c == '<' || c
            == '>' || c == '#' || c == '|' {
            out.push('\\');
        }
        out.push(c);
        i = i + 1;
    }
    assert(chars@.take(i as int) =~= chars@);
    string_of(out.as_slice())
}

/// A text for people, or the word for none.
pub open spec fn human_or_missing(value: Option<Seq<char>>) -> Seq<char> {
    match value {
        Some(t) => if trimmed(t).len() > 0 {
            human_text(t)
        } else {
            "未获取"@
        },
        None => "未获取"@,
    }
}

/// A text for people, or the word for none.
pub fn human_optional(value: Option<&str>) -> (r: String)
    ensures
        r@ == human_or_missing(opt_str(value)),
{
    match value {
        Some(t) => {
            let chars: Vec<char> = chars_of(t);
            if trim(chars.as_slice()).len() > 0 {
                human_value(t)
            } else {
                "未获取".to_string()
            }
        },
        None => "未获取".to_string(),
    }
}

/// The code of a sign-in status for machines.
pub open spec fn status_code(status: SigninStatus) -> Seq<char> {
    match status {
        SigninStatus::Success => "success"@,
        SigninStatus::AlreadySigned => "already_signed"@,
        SigninStatus::Failed => "failed"@,
    }
}

/// The code of a sign-in status for machines.
pub fn signin_status_code(status: SigninStatus) -> (r: &'static str)
    ensures
        r@ == status_code(status),
{
    match status {
        SigninStatus::Success => "success",
        SigninStatus::AlreadySigned => "already_signed",
        SigninStatus::Failed => "failed",
    }
}

/// The name of a sign-in status for people.
pub open spec fn status_label(status: SigninStatus) -> Seq<char> {
    match status {
        SigninStatus::Success => "签到成功"@,
        SigninStatus::AlreadySigned => "今日已签到"@,
        SigninStatus::Failed => "签到失败"@,
    }
}

/// The name of a sign-in status for people.
pub fn signin_status_label(status: SigninStatus) -> (r: &'static str)
    ensures
        r@ == status_label(status),
{
    match status {
        SigninStatus::Success => "签到成功",
        SigninStatus::AlreadySigned => "今日已签到",
        SigninStatus::Failed => "签到失败",
    }
}

/// What a list of names and reasons says.
pub open spec fn reason_views(v: Seq<(String, String)>) -> Seq<(Seq<char>, Seq<char>)> {
    v.map_values(|p: (String, String)| (p.0@, p.1@))
}

/// What a list of sign-ins says.
pub open spec fn signin_views(v: Seq<(String, SigninResult)>) -> Seq<(Seq<char>, SigninView)> {
    v.map_values(|p: (String, SigninResult)| (p.0@, p.1@))
}

/// What a list of traffics says.
pub open spec fn traffic_views(v: Seq<(String, SiteTraffic)>) -> Seq<(Seq<char>, TrafficView)> {
    v.map_values(|p: (String, SiteTraffic)| (p.0@, p.1@))
}

/// The sites that are logged in: those that were logged in and those whose traffic
/// was read, each once, in the order in which they come first.
pub open spec fn logged_in_sites(
    successful: Seq<Seq<char>>,
    traffic: Seq<(Seq<char>, TrafficView)>,
) -> Seq<Seq<char>> {
    distinct(successful + traffic.map_values(|p: (Seq<char>, TrafficView)| p.0))
}

/// The sign-ins that succeeded, or those that did not.
pub open spec fn signins_that(results: Seq<(Seq<char>, SigninView)>, ok: bool) -> Seq<
    (Seq<char>, SigninView),
>
    decreases results.len(),
{
    if results.len() == 0 {
        Seq::empty()
    } else {
        let before = signins_that(results.drop_last(), ok);
        if results.last().1.is_successful() == ok {
            before.push(results.last())
        } else {
            before
        }
    }
}

/// The first traffic of a site.
pub open spec fn traffic_of(traffic: Seq<(Seq<char>, TrafficView)>, site: Seq<char>) -> Option<
    TrafficView,
>
    decreases traffic.len(),
{
    if traffic.len() == 0 {
        None
    } else if traffic[0].0 == site {
        Some(traffic[0].1)
    } else {
        traffic_of(traffic.skip(1), site)
    }
}

/// The traffic of a site, with nothing known where there is none.
pub open spec fn traffic_or_unknown(
    traffic: Seq<(Seq<char>, TrafficView)>,
    site: Seq<char>,
) -> TrafficView {
    match traffic_of(traffic, site) {
        Some(t) => t,
        None => TrafficView { upload: None, download: None, ratio: None },
    }
}

/// Names for people in one line.
pub open spec fn names_line(names: Seq<Seq<char>>) -> Seq<char> {
    if names.len() == 0 {
        "无"@
    } else {
        joined(names.map_values(|n: Seq<char>| human_text(n)), "、"@)
    }
}

/// Lines, or one that says that there is nothing.
pub open spec fn lines_or_none(lines: Seq<Seq<char>>) -> Seq<Seq<char>> {
    if lines.len() == 0 {
        seq!["- 无"@]
    } else {
        lines
    }
}

pub open spec fn success_line(n: nat, names: Seq<char>) -> Seq<char> {
    "✅ **成功 "@ + decimal(n) + "**："@ + names
}

pub open spec fn failure_line(n: nat, names: Seq<char>) -> Seq<char> {
    "❌ **失败 "@ + decimal(n) + "**："@ + names
}

pub open spec fn traffic_line(site: Seq<char>, t: TrafficView) -> Seq<char> {
    "- **"@ + human_text(site) + "**　↑"@ + human_or_missing(t.upload) + "　↓"@ + human_or_missing(
        t.download,
    ) + "　比 "@ + human_or_missing(t.ratio)
}

pub open spec fn reason_line(site: Seq<char>, reason: Seq<char>) -> Seq<char> {
    "- **"@ + human_text(site) + "**："@ + human_text(reason)
}

pub open spec fn days_text(days: Option<u32>) -> Seq<char> {
    match days {
        Some(n) => decimal(n as nat) + " 天"@,
        None => "未获取"@,
    }
}

pub open spec fn signin_line(site: Seq<char>, v: SigninView) -> Seq<char> {
    "- **"@ + human_text(site) + "**　"@ + status_label(v.status) + "　连续 "@ + days_text(
        v.consecutive_days,
    ) + "　累计 "@ + days_text(v.total_days)
}

/// What a round came to.
pub struct RoundView {
    pub successful: Seq<Seq<char>>,
    pub failed: Seq<(Seq<char>, Seq<char>)>,
    pub signins: Seq<(Seq<char>, SigninView)>,
    pub traffic: Seq<(Seq<char>, TrafficView)>,
}

impl RoundView {
    pub open spec fn sites(self) -> Seq<Seq<char>> {
        logged_in_sites(self.successful, self.traffic)
    }

    pub open spec fn signed(self) -> Seq<(Seq<char>, SigninView)> {
        signins_that(self.signins, true)
    }

    pub open spec fn unsigned(self) -> Seq<(Seq<char>, SigninView)> {
        signins_that(self.signins, false)
    }

    pub open spec fn traffic_lines(self) -> Seq<Seq<char>> {
        self.sites().map_values(
            |site: Seq<char>| traffic_line(site, traffic_or_unknown(self.traffic, site)),
        )
    }

    pub open spec fn failure_lines(self) -> Seq<Seq<char>> {
        self.failed.map_values(|p: (Seq<char>, Seq<char>)| reason_line(p.0, p.1))
    }

    pub open spec fn signed_lines(self) -> Seq<Seq<char>> {
        self.signed().map_values(|p: (Seq<char>, SigninView)| signin_line(p.0, p.1))
    }

    pub open spec fn unsigned_lines(self) -> Seq<Seq<char>> {
        self.unsigned().map_values(|p: (Seq<char>, SigninView)| reason_line(p.0, p.1.message))
    }

    /// The part of the report on logins and traffic.
    pub open spec fn login_part(self) -> Seq<Seq<char>> {
        seq![
            "## 1. 登录与流量"@,
            success_line(self.sites().len(), names_line(self.sites())),
            failure_line(
                self.failed.len(),
                names_line(self.failed.map_values(|p: (Seq<char>, Seq<char>)| p.0)),
            ),
            ""@,
            "**流量明细**"@,
        ] + lines_or_none(self.traffic_lines()) + seq![""@, "**登录失败原因**"@] + lines_or_none(
            self.failure_lines(),
        )
    }

    /// The part of the report on sign-ins.
    pub open spec fn signin_part(self) -> Seq<Seq<char>> {
        seq![
            ""@,
            "## 2. 签到"@,
            success_line(
                self.signed().len(),
                names_line(self.signed().map_values(|p: (Seq<char>, SigninView)| p.0)),
            ),
            failure_line(
                self.unsigned().len(),
                names_line(self.unsigned().map_values(|p: (Seq<char>, SigninView)| p.0)),
            ),
            ""@,
            "**签到成功明细**"@,
        ] + lines_or_none(self.signed_lines()) + seq![""@, "**签到失败原因**"@] + lines_or_none(
            self.unsigned_lines(),
        )
    }

    /// The report for people.
    pub open spec fn text(self) -> Seq<char> {
        joined(self.login_part() + self.signin_part(), "\n"@)
    }

    pub open spec fn site_items(self) -> Seq<JsonView> {
        self.sites().map_values(
            |site: Seq<char>| site_item(site, traffic_or_unknown(self.traffic, site)),
        )
    }

    pub open spec fn failure_items(self) -> Seq<JsonView> {
        self.failed.map_values(|p: (Seq<char>, Seq<char>)| failure_item(p.0, p.1))
    }

    pub open spec fn signed_items(self) -> Seq<JsonView> {
        self.signed().map_values(|p: (Seq<char>, SigninView)| signed_item(p.0, p.1))
    }

    pub open spec fn unsigned_items(self) -> Seq<JsonView> {
        self.unsigned().map_values(|p: (Seq<char>, SigninView)| unsigned_item(p.0, p.1))
    }

    /// The report for machines.
    pub open spec fn json(self) -> JsonView {
        JsonView::Object(
            seq![
                ("schema"@, JsonView::Text(REPORT_SCHEMA@)),
                ("version"@, JsonView::Unsigned(REPORT_VERSION as u64)),
                ("login"@, counted(self.site_items(), self.failure_items())),
                ("signin"@, counted(self.signed_items(), self.unsigned_items())),
            ],
        )
    }
}

pub open spec fn site_item(site: Seq<char>, t: TrafficView) -> JsonView {
    JsonView::Object(
        seq![
            ("site"@, JsonView::Text(site)),
            ("upload"@, text_or_null(t.upload)),
            ("download"@, text_or_null(t.download)),
            ("ratio"@, text_or_null(t.ratio)),
        ],
    )
}

pub open spec fn failure_item(site: Seq<char>, reason: Seq<char>) -> JsonView {
    JsonView::Object(
        seq![("site"@, JsonView::Text(site)), ("reason"@, JsonView::Text(reason))],
    )
}

pub open spec fn signed_item(site: Seq<char>, v: SigninView) -> JsonView {
    JsonView::Object(
        seq![
            ("site"@, JsonView::Text(site)),
            ("status"@, JsonView::Text(status_code(v.status))),
            ("consecutive_days"@, number_or_null(v.consecutive_days)),
            ("total_days"@, number_or_null(v.total_days)),
            ("reward"@, text_or_null(v.reward)),
            ("message"@, JsonView::Text(v.message)),
        ],
    )
}

pub open spec fn unsigned_item(site: Seq<char>, v: SigninView) -> JsonView {
    JsonView::Object(
        seq![
            ("site"@, JsonView::Text(site)),
            ("status"@, JsonView::Text(status_code(v.status))),
            ("reason"@, JsonView::Text(v.message)),
        ],
    )
}

/// Successes and failures with their numbers.
pub open spec fn counted(success: Seq<JsonView>, failure: Seq<JsonView>) -> JsonView {
    JsonView::Object(
        seq![
            ("success_count"@, JsonView::Unsigned(success.len() as u64)),
            ("failure_count"@, JsonView::Unsigned(failure.len() as u64)),
            ("success"@, JsonView::List(success)),
            ("failure"@, JsonView::List(failure)),
        ],
    )
}

fn logged_in_names(successful: &[String], traffic: &[(String, SiteTraffic)]) -> (r: Vec<String>)
    ensures
        texts(r@) == logged_in_sites(texts(successful@), traffic_views(traffic@)),
{
    let ghost names = traffic_views(traffic@).map_values(|p: (Seq<char>, TrafficView)| p.0);
    let ghost all = texts(successful@) + names;
    let mut out: Vec<String> = Vec::new();
    let mut i: usize = 0;
    assert(texts(out@) =~= distinct(all.take(0)));
    while i < successful.len()
        invariant
            i <= successful@.len(),
            names == traffic_views(traffic@).map_values(|p: (Seq<char>, TrafficView)| p.0),
            all == texts(successful@) + names,
            texts(out@) == distinct(all.take(i as int)),
        decreases successful@.len() - i,
    {
        assert(all.take(i + 1).drop_last() =~= all.take(i as int));
        assert(all.take(i + 1).last() == successful@[i as int]@);
        push_new(&mut out, successful[i].as_str());
        i = i + 1;
    }
    let mut k: usize = 0;
    while k < traffic.len()
        invariant
            k <= traffic@.len(),
            names == traffic_views(traffic@).map_values(|p: (Seq<char>, TrafficView)| p.0),
            all == texts(successful@) + names,
            texts(out@) == distinct(all.take(successful@.len() + k)),
        decreases traffic@.len() - k,
    {
        let ghost n = successful@.len() + k;
        assert(all.take(n + 1).drop_last() =~= all.take(n));
        assert(all.take(n + 1).last() == traffic@[k as int].0@);
        push_new(&mut out, traffic[k].0.as_str());
        k = k + 1;
    }
    assert(all.take((successful@.len() + k) as int) =~= all);
    out
}

/// What references to sign-ins say.
pub open spec fn signin_ref_views(v: Seq<&(String, SigninResult)>) -> Seq<
    (Seq<char>, SigninView),
> {
    v.map_values(|p: &(String, SigninResult)| (p.0@, p.1@))
}

fn select_signins<'a>(results: &'a [(String, SigninResult)], ok: bool) -> (r: Vec<
    &'a (String, SigninResult),
>)
    ensures
        signin_ref_views(r@) == signins_that(signin_views(results@), ok),
{
    let ghost all = signin_views(results@);
    let mut out: Vec<&'a (String, SigninResult)> = Vec::new();
    let mut i: usize = 0;
    assert(signin_ref_views(out@) =~= signins_that(all.take(0), ok));
    while i < results.len()
        invariant
            i <= results@.len(),
            all == signin_views(results@),
            signin_ref_views(out@) == signins_that(all.take(i as int), ok),
        decreases results@.len() - i,
    {
        let ghost before = signin_ref_views(out@);
        assert(all.take(i + 1).drop_last() =~= all.take(i as int));
        assert(all.take(i + 1).last() == (results@[i as int].0@, results@[i as int].1@));
        if results[i].1.successful() == ok {
            out.push(&results[i]);
            assert(signin_ref_views(out@) =~= before.push(all[i as int]));
        }
        i = i + 1;
    }
    assert(all.take(i as int) =~= all);
    out
}

fn find_traffic<'a>(traffic: &'a [(String, SiteTraffic)], site: &str) -> (r: Option<
    &'a SiteTraffic,
>)
    ensures
        match r {
            Some(t) => traffic_of(traffic_views(traffic@), site@) == Some(t@),
            None => traffic_of(traffic_views(traffic@), site@) is None,
        },
{
    let ghost all = traffic_views(traffic@);
    let mut i: usize = 0;
    assert(all.skip(0) =~= all);
    while i < traffic.len()
        invariant
            i <= traffic@.len(),
            all == traffic_views(traffic@),
            traffic_of(all.skip(i as int), site@) == traffic_of(all, site@),
        decreases traffic@.len() - i,
    {
        assert(all.skip(i as int)[0] == all[i as int]);
        assert(all.skip(i as int).skip(1) =~= all.skip(i + 1));
        if str_eq(traffic[i].0.as_str(), site) {
            return Some(&traffic[i].1);
        }
        i = i + 1;
    }
    None
}

fn opt_as_str(v: &Option<String>) -> (r: Option<&str>)
    ensures
        opt_str(r) == opt_text(*v),
{
    match v {
        Some(t) => Some(t.as_str()),
        None => None,
    }
}

fn names_text(names: &Vec<String>) -> (r: String)
    ensures
        r@ == names_line(texts(names@)),
{
    if names.len() == 0 {
        return "无".to_string();
    }
    let ghost want = texts(names@).map_values(|n: Seq<char>| human_text(n));
    let mut out: Vec<String> = Vec::new();
    let mut i: usize = 0;
    assert(texts(out@) =~= want.take(0));
    while i < names.len()
        invariant
            i <= names@.len(),
            want == texts(names@).map_values(|n: Seq<char>| human_text(n)),
            texts(out@) == want.take(i as int),
        decreases names@.len() - i,
    {
        push_text(&mut out, human_value(names[i].as_str()));
        assert(texts(out@) =~= want.take(i + 1));
        i = i + 1;
    }
    assert(want.take(i as int) =~= want);
    join(&out, "、")
}

fn failed_names(failed: &[(String, String)]) -> (r: Vec<String>)
    ensures
        texts(r@) == reason_views(failed@).map_values(|p: (Seq<char>, Seq<char>)| p.0),
{
    let ghost want = reason_views(failed@).map_values(|p: (Seq<char>, Seq<char>)| p.0);
    let mut out: Vec<String> = Vec::new();
    let mut i: usize = 0;
    assert(texts(out@) =~= want.take(0));
    while i < failed.len()
        invariant
            i <= failed@.len(),
            want == reason_views(failed@).map_values(|p: (Seq<char>, Seq<char>)| p.0),
            texts(out@) == want.take(i as int),
        decreases failed@.len() - i,
    {
        push_text(&mut out, failed[i].0.clone());
        assert(texts(out@) =~= want.take(i + 1));
        i = i + 1;
    }
    assert(want.take(i as int) =~= want);
    out
}

fn signin_names(results: &Vec<&(String, SigninResult)>) -> (r: Vec<String>)
    ensures
        texts(r@) == signin_ref_views(results@).map_values(|p: (Seq<char>, SigninView)| p.0),
{
    let ghost want = signin_ref_views(results@).map_values(|p: (Seq<char>, SigninView)| p.0);
    let mut out: Vec<String> = Vec::new();
    let mut i: usize = 0;
    assert(texts(out@) =~= want.take(0));
    while i < results.len()
        invariant
            i <= results@.len(),
            want == signin_ref_views(results@).map_values(|p: (Seq<char>, SigninView)| p.0),
            texts(out@) == want.take(i as int),
        decreases results@.len() - i,
    {
        push_text(&mut out, results[i].0.clone());
        assert(texts(out@) =~= want.take(i + 1));
        i = i + 1;
    }
    assert(want.take(i as int) =~= want);
    out
}

fn traffic_text(site: &str, traffic: &[(String, SiteTraffic)]) -> (r: String)
    ensures
        r@ == traffic_line(site@, traffic_or_unknown(traffic_views(traffic@), site@)),
{
    let found: Option<&SiteTraffic> = find_traffic(traffic, site);
    let (upload, download, ratio): (Option<&str>, Option<&str>, Option<&str>) = match found {
        Some(t) => (opt_as_str(&t.upload), opt_as_str(&t.download), opt_as_str(&t.ratio)),
        None => (None, None, None),
    };
    "- **".to_string().concat(human_value(site).as_str()).concat("**　↑").concat(
        human_optional(upload).as_str(),
    ).concat("　↓").concat(human_optional(download).as_str()).concat("　比 ").concat(
        human_optional(ratio).as_str(),
    )
}

fn reason_text(site: &str, reason: &str) -> (r: String)
    ensures
        r@ == reason_line(site@, reason@),
{
    "- **".to_string().concat(human_value(site).as_str()).concat("**：").concat(
        human_value(reason).as_str(),
    )
}

fn days_string(days: Option<u32>) -> (r: String)
    ensures
        r@ == days_text(days),
{
    match days {
        Some(n) => decimal_of(n as u64).concat(" 天"),
        None => "未获取".to_string(),
    }
}

fn signin_text(site: &str, v: &SigninResult) -> (r: String)
    ensures
        r@ == signin_line(site@, v@),
{
    "- **".to_string().concat(human_value(site).as_str()).concat("**　").concat(
        signin_status_label(v.status),
    ).concat("　连续 ").concat(days_string(v.consecutive_days).as_str()).concat("　累计 ").concat(
        days_string(v.total_days).as_str(),
    )
}

fn success_text(n: usize, names: &str) -> (r: String)
    ensures
        r@ == success_line(n as nat, names@),
{
    "✅ **成功 ".to_string().concat(decimal_of(n as u64).as_str()).concat("**：").concat(names)
}

fn failure_text(n: usize, names: &str) -> (r: String)
    ensures
        r@ == failure_line(n as nat, names@),
{
    "❌ **失败 ".to_string().concat(decimal_of(n as u64).as_str()).concat("**：").concat(names)
}

fn push_lines_or_none(lines: &mut Vec<String>, more: Vec<String>)
    ensures
        texts(final(lines)@) == texts(old(lines)@) + lines_or_none(texts(more@)),
{
    if more.len() == 0 {
        push_text(lines, "- 无".to_string());
        assert(texts(lines@) =~= texts(old(lines)@) + seq!["- 无"@]);
    } else {
        push_texts(lines, more);
    }
}

/// What the inputs of a report say.
pub open spec fn round_of(
    successful: Seq<String>,
    failed: Seq<(String, String)>,
    signins: Seq<(String, SigninResult)>,
    traffic: Seq<(String, SiteTraffic)>,
) -> RoundView {
    RoundView {
        successful: texts(successful),
        failed: reason_views(failed),
        signins: signin_views(signins),
        traffic: traffic_views(traffic),
    }
}

fn traffic_texts(names: &Vec<String>, traffic: &[(String, SiteTraffic)]) -> (r: Vec<String>)
    ensures
        texts(r@) == texts(names@).map_values(
            |site: Seq<char>|
                traffic_line(site, traffic_or_unknown(traffic_views(traffic@), site)),
        ),
{
    let ghost want = texts(names@).map_values(
        |site: Seq<char>| traffic_line(site, traffic_or_unknown(traffic_views(traffic@), site)),
    );
    let mut out: Vec<String> = Vec::new();
    let mut i: usize = 0;
    assert(texts(out@) =~= want.take(0));
    while i < names.len()
        invariant
            i <= names@.len(),
            want == texts(names@).map_values(
                |site: Seq<char>|
                    traffic_line(site, traffic_or_unknown(traffic_views(traffic@), site)),
            ),
            texts(out@) == want.take(i as int),
        decreases names@.len() - i,
    {
        push_text(&mut out, traffic_text(names[i].as_str(), traffic));
        assert(texts(out@) =~= want.take(i + 1));
        i = i + 1;
    }
    assert(want.take(i as int) =~= want);
    out
}

fn failure_texts(failed: &[(String, String)]) -> (r: Vec<String>)
    ensures
        texts(r@) == reason_views(failed@).map_values(
            |p: (Seq<char>, Seq<char>)| reason_line(p.0, p.1),
        ),
{
    let ghost want = reason_views(failed@).map_values(
        |p: (Seq<char>, Seq<char>)| reason_line(p.0, p.1),
    );
    let mut out: Vec<String> = Vec::new();
    let mut i: usize = 0;
    assert(texts(out@) =~= want.take(0));
    while i < failed.len()
        invariant
            i <= failed@.len(),
            want == reason_views(failed@).map_values(
                |p: (Seq<char>, Seq<char>)| reason_line(p.0, p.1),
            ),
            texts(out@) == want.take(i as int),
        decreases failed@.len() - i,
    {
        push_text(&mut out, reason_text(failed[i].0.as_str(), failed[i].1.as_str()));
        assert(texts(out@) =~= want.take(i + 1));
        i = i + 1;
    }
    assert(want.take(i as int) =~= want);
    out
}

fn signed_texts(results: &Vec<&(String, SigninResult)>) -> (r: Vec<String>)
    ensures
        texts(r@) == signin_ref_views(results@).map_values(
            |p: (Seq<char>, SigninView)| signin_line(p.0, p.1),
        ),
{
    let ghost want = signin_ref_views(results@).map_values(
        |p: (Seq<char>, SigninView)| signin_line(p.0, p.1),
    );
    let mut out: Vec<String> = Vec::new();
    let mut i: usize = 0;
    assert(texts(out@) =~= want.take(0));
    while i < results.len()
        invariant
            i <= results@.len(),
            want == signin_ref_views(results@).map_values(
                |p: (Seq<char>, SigninView)| signin_line(p.0, p.1),
            ),
            texts(out@) == want.take(i as int),
        decreases results@.len() - i,
    {
        push_text(&mut out, signin_text(results[i].0.as_str(), &results[i].1));
        assert(texts(out@) =~= want.take(i + 1));
        i = i + 1;
    }
    assert(want.take(i as int) =~= want);
    out
}

fn unsigned_texts(results: &Vec<&(String, SigninResult)>) -> (r: Vec<String>)
    ensures
        texts(r@) == signin_ref_views(results@).map_values(
            |p: (Seq<char>, SigninView)| reason_line(p.0, p.1.message),
        ),
{
    let ghost want = signin_ref_views(results@).map_values(
        |p: (Seq<char>, SigninView)| reason_line(p.0, p.1.message),
    );
    let mut out: Vec<String> = Vec::new();
    let mut i: usize = 0;
    assert(texts(out@) =~= want.take(0));
    while i < results.len()
        invariant
            i <= results@.len(),
            want == signin_ref_views(results@).map_values(
                |p: (Seq<char>, SigninView)| reason_line(p.0, p.1.message),
            ),
            texts(out@) == want.take(i as int),
        decreases results@.len() - i,
    {
        push_text(&mut out, reason_text(results[i].0.as_str(), results[i].1.message.as_str()));
        assert(texts(out@) =~= want.take(i + 1));
        i = i + 1;
    }
    assert(want.take(i as int) =~= want);
    out
}

fn login_lines(
    sites: &Vec<String>,
    failed: &[(String, String)],
    traffic: &[(String, SiteTraffic)],
    Ghost(round): Ghost<RoundView>,
) -> (r: Vec<String>)
    requires
        texts(sites@) == round.sites(),
        reason_views(failed@) == round.failed,
        traffic_views(traffic@) == round.traffic,
    ensures
        texts(r@) == round.login_part(),
{
    let mut lines: Vec<String> = Vec::new();
    assert(texts(sites@).len() == sites@.len());
    assert(reason_views(failed@).len() == failed@.len());
    push_text(&mut lines, "## 1. 登录与流量".to_string());
    push_text(&mut lines, success_text(sites.len(), names_text(sites).as_str()));
    push_text(
        &mut lines,
        failure_text(failed.len(), names_text(&failed_names(failed)).as_str()),
    );
    push_text(&mut lines, "".to_string());
    push_text(&mut lines, "**流量明细**".to_string());
    let ghost head = texts(lines@);
    push_lines_or_none(&mut lines, traffic_texts(sites, traffic));
    push_text(&mut lines, "".to_string());
    push_text(&mut lines, "**登录失败原因**".to_string());
    let ghost middle = lines_or_none(round.traffic_lines());
    assert(texts(lines@) =~= head + middle + seq![""@, "**登录失败原因**"@]);
    push_lines_or_none(&mut lines, failure_texts(failed));
    assert(texts(lines@) =~= head + middle + seq![""@, "**登录失败原因**"@] + lines_or_none(
        round.failure_lines(),
    ));
    assert(head =~= seq![
        "## 1. 登录与流量"@,
        success_line(round.sites().len(), names_line(round.sites())),
        failure_line(
            round.failed.len(),
            names_line(round.failed.map_values(|p: (Seq<char>, Seq<char>)| p.0)),
        ),
        ""@,
        "**流量明细**"@,
    ]);
    lines
}

fn signin_lines(
    signed: &Vec<&(String, SigninResult)>,
    unsigned: &Vec<&(String, SigninResult)>,
    Ghost(round): Ghost<RoundView>,
) -> (r: Vec<String>)
    requires
        signin_ref_views(signed@) == round.signed(),
        signin_ref_views(unsigned@) == round.unsigned(),
    ensures
        texts(r@) == round.signin_part(),
{
    let mut lines: Vec<String> = Vec::new();
    assert(signin_ref_views(signed@).len() == signed@.len());
    assert(signin_ref_views(unsigned@).len() == unsigned@.len());
    push_text(&mut lines, "".to_string());
    push_text(&mut lines, "## 2. 签到".to_string());
    push_text(
        &mut lines,
        success_text(signed.len(), names_text(&signin_names(signed)).as_str()),
    );
    push_text(
        &mut lines,
        failure_text(unsigned.len(), names_text(&signin_names(unsigned)).as_str()),
    );
    push_text(&mut lines, "".to_string());
    push_text(&mut lines, "**签到成功明细**".to_string());
    let ghost head = texts(lines@);
    push_lines_or_none(&mut lines, signed_texts(signed));
    push_text(&mut lines, "".to_string());
    push_text(&mut lines, "**签到失败原因**".to_string());
    let ghost middle = lines_or_none(round.signed_lines());
    assert(texts(lines@) =~= head + middle + seq![""@, "**签到失败原因**"@]);
    push_lines_or_none(&mut lines, unsigned_texts(unsigned));
    assert(texts(lines@) =~= head + middle + seq![""@, "**签到失败原因**"@] + lines_or_none(
        round.unsigned_lines(),
    ));
    assert(head =~= seq![
        ""@,
        "## 2. 签到"@,
        success_line(
            round.signed().len(),
            names_line(round.signed().map_values(|p: (Seq<char>, SigninView)| p.0)),
        ),
        failure_line(
            round.unsigned().len(),
            names_line(round.unsigned().map_values(|p: (Seq<char>, SigninView)| p.0)),
        ),
        ""@,
        "**签到成功明细**"@,
    ]);
    lines
}

fn site_json(site: &str, traffic: &[(String, SiteTraffic)]) -> (r: Json)
    ensures
        r@ == site_item(site@, traffic_or_unknown(traffic_views(traffic@), site@)),
{
    let found: Option<&SiteTraffic> = find_traffic(traffic, site);
    let (upload, download, ratio): (Option<&str>, Option<&str>, Option<&str>) = match found {
        Some(t) => (opt_as_str(&t.upload), opt_as_str(&t.download), opt_as_str(&t.ratio)),
        None => (None, None, None),
    };
    let mut e: Vec<(String, Json)> = Vec::new();
    push_entry(&mut e, "site", json_text(site));
    push_entry(&mut e, "upload", json_opt_text(upload));
    push_entry(&mut e, "download", json_opt_text(download));
    push_entry(&mut e, "ratio", json_opt_text(ratio));
    let r: Json = json_object(e);
    assert(r@->Object_0 =~= site_item(
        site@,
        traffic_or_unknown(traffic_views(traffic@), site@),
    )->Object_0);
    r
}

fn failure_json(site: &str, reason: &str) -> (r: Json)
    ensures
        r@ == failure_item(site@, reason@),
{
    let mut e: Vec<(String, Json)> = Vec::new();
    push_entry(&mut e, "site", json_text(site));
    push_entry(&mut e, "reason", json_text(reason));
    let r: Json = json_object(e);
    assert(r@->Object_0 =~= failure_item(site@, reason@)->Object_0);
    r
}

fn signed_json(site: &str, v: &SigninResult) -> (r: Json)
    ensures
        r@ == signed_item(site@, v@),
{
    let mut e: Vec<(String, Json)> = Vec::new();
    push_entry(&mut e, "site", json_text(site));
    push_entry(&mut e, "status", json_text(signin_status_code(v.status)));
    push_entry(&mut e, "consecutive_days", json_opt_number(v.consecutive_days));
    push_entry(&mut e, "total_days", json_opt_number(v.total_days));
    push_entry(&mut e, "reward", json_opt_text(opt_as_str(&v.reward)));
    push_entry(&mut e, "message", json_text(v.message.as_str()));
    let r: Json = json_object(e);
    assert(r@->Object_0 =~= signed_item(site@, v@)->Object_0);
    r
}

fn unsigned_json(site: &str, v: &SigninResult) -> (r: Json)
    ensures
        r@ == unsigned_item(site@, v@),
{
    let mut e: Vec<(String, Json)> = Vec::new();
    push_entry(&mut e, "site", json_text(site));
    push_entry(&mut e, "status", json_text(signin_status_code(v.status)));
    push_entry(&mut e, "reason", json_text(v.message.as_str()));
    let r: Json = json_object(e);
    assert(r@->Object_0 =~= unsigned_item(site@, v@)->Object_0);
    r
}

fn counted_json(success: Vec<Json>, failure: Vec<Json>) -> (r: Json)
    ensures
        r@ == counted(item_views(success@), item_views(failure@)),
{
    let ghost want = counted(item_views(success@), item_views(failure@));
    let mut e: Vec<(String, Json)> = Vec::new();
    push_entry(&mut e, "success_count", Json::Unsigned(success.len() as u64));
    push_entry(&mut e, "failure_count", Json::Unsigned(failure.len() as u64));
    push_entry(&mut e, "success", json_list(success));
    push_entry(&mut e, "failure", json_list(failure));
    let r: Json = json_object(e);
    assert(r@->Object_0 =~= want->Object_0);
    r
}

fn site_jsons(names: &Vec<String>, traffic: &[(String, SiteTraffic)]) -> (r: Vec<Json>)
    ensures
        item_views(r@) == texts(names@).map_values(
            |site: Seq<char>| site_item(site, traffic_or_unknown(traffic_views(traffic@), site)),
        ),
{
    let ghost want = texts(names@).map_values(
        |site: Seq<char>| site_item(site, traffic_or_unknown(traffic_views(traffic@), site)),
    );
    let mut out: Vec<Json> = Vec::new();
    let mut i: usize = 0;
    assert(item_views(out@) =~= want.take(0));
    while i < names.len()
        invariant
            i <= names@.len(),
            want == texts(names@).map_values(
                |site: Seq<char>|
                    site_item(site, traffic_or_unknown(traffic_views(traffic@), site)),
            ),
            item_views(out@) == want.take(i as int),
        decreases names@.len() - i,
    {
        push_item(&mut out, site_json(names[i].as_str(), traffic));
        assert(item_views(out@) =~= want.take(i + 1));
        i = i + 1;
    }
    assert(want.take(i as int) =~= want);
    out
}

fn failure_jsons(failed: &[(String, String)]) -> (r: Vec<Json>)
    ensures
        item_views(r@) == reason_views(failed@).map_values(
            |p: (Seq<char>, Seq<char>)| failure_item(p.0, p.1),
        ),
{
    let ghost want = reason_views(failed@).map_values(
        |p: (Seq<char>, Seq<char>)| failure_item(p.0, p.1),
    );
    let mut out: Vec<Json> = Vec::new();
    let mut i: usize = 0;
    assert(item_views(out@) =~= want.take(0));
    while i < failed.len()
        invariant
            i <= failed@.len(),
            want == reason_views(failed@).map_values(
                |p: (Seq<char>, Seq<char>)| failure_item(p.0, p.1),
            ),
            item_views(out@) == want.take(i as int),
        decreases failed@.len() - i,
    {
        push_item(&mut out, failure_json(failed[i].0.as_str(), failed[i].1.as_str()));
        assert(item_views(out@) =~= want.take(i + 1));
        i = i + 1;
    }
    assert(want.take(i as int) =~= want);
    out
}

fn signed_jsons(results: &Vec<&(String, SigninResult)>) -> (r: Vec<Json>)
    ensures
        item_views(r@) == signin_ref_views(results@).map_values(
            |p: (Seq<char>, SigninView)| signed_item(p.0, p.1),
        ),
{
    let ghost want = signin_ref_views(results@).map_values(
        |p: (Seq<char>, SigninView)| signed_item(p.0, p.1),
    );
    let mut out: Vec<Json> = Vec::new();
    let mut i: usize = 0;
    assert(item_views(out@) =~= want.take(0));
    while i < results.len()
        invariant
            i <= results@.len(),
            want == signin_ref_views(results@).map_values(
                |p: (Seq<char>, SigninView)| signed_item(p.0, p.1),
            ),
            item_views(out@) == want.take(i as int),
        decreases results@.len() - i,
    {
        push_item(&mut out, signed_json(results[i].0.as_str(), &results[i].1));
        assert(item_views(out@) =~= want.take(i + 1));
        i = i + 1;
    }
    assert(want.take(i as int) =~= want);
    out
}

fn unsigned_jsons(results: &Vec<&(String, SigninResult)>) -> (r: Vec<Json>)
    ensures
        item_views(r@) == signin_ref_views(results@).map_values(
            |p: (Seq<char>, SigninView)| unsigned_item(p.0, p.1),
        ),
{
    let ghost want = signin_ref_views(results@).map_values(
        |p: (Seq<char>, SigninView)| unsigned_item(p.0, p.1),
    );
    let mut out: Vec<Json> = Vec::new();
    let mut i: usize = 0;
    assert(item_views(out@) =~= want.take(0));
    while i < results.len()
        invariant
            i <= results@.len(),
            want == signin_ref_views(results@).map_values(
                |p: (Seq<char>, SigninView)| unsigned_item(p.0, p.1),
            ),
            item_views(out@) == want.take(i as int),
        decreases results@.len() - i,
    {
        push_item(&mut out, unsigned_json(results[i].0.as_str(), &results[i].1));
        assert(item_views(out@) =~= want.take(i + 1));
        i = i + 1;
    }
    assert(want.take(i as int) =~= want);
    out
}

/// The report of a round for people and for machines.
pub fn build_report(
    successful_sites: &[String],
    failed_sites: &[(String, String)],
    signin_results: &[(String, SigninResult)],
    traffic_results: &[(String, SiteTraffic)],
) -> (r: (String, Json))
    ensures
        r.0@ == round_of(
            successful_sites@,
            failed_sites@,
            signin_results@,
            traffic_results@,
        ).text(),
        r.1@ == round_of(
            successful_sites@,
            failed_sites@,
            signin_results@,
            traffic_results@,
        ).json(),
{
    let ghost round = round_of(
        successful_sites@,
        failed_sites@,
        signin_results@,
        traffic_results@,
    );
    let sites: Vec<String> = logged_in_names(successful_sites, traffic_results);
    let signed: Vec<&(String, SigninResult)> = select_signins(signin_results, true);
    let unsigned: Vec<&(String, SigninResult)> = select_signins(signin_results, false);
    let mut lines: Vec<String> = login_lines(
        &sites,
        failed_sites,
        traffic_results,
        Ghost(round),
    );
    push_texts(&mut lines, signin_lines(&signed, &unsigned, Ghost(round)));
    let text: String = join(&lines, "\n");
    let login: Json = counted_json(
        site_jsons(&sites, traffic_results),
        failure_jsons(failed_sites),
    );
    let signin: Json = counted_json(signed_jsons(&signed), unsigned_jsons(&unsigned));
    let mut e: Vec<(String, Json)> = Vec::new();
    push_entry(&mut e, "schema", json_text(REPORT_SCHEMA));
    push_entry(&mut e, "version", Json::Unsigned(REPORT_VERSION as u64));
    push_entry(&mut e, "login", login);
    push_entry(&mut e, "signin", signin);
    let report: Json = json_object(e);
    assert(report@->Object_0 =~= round.json()->Object_0);
    (text, report)
}

/// Every sign-in is reported, as a success or as a failure.
pub proof fn every_signin_is_reported(results: Seq<(Seq<char>, SigninView)>)
    ensures
        signins_that(results, true).len() + signins_that(results, false).len() == results.len(),
        forall|i: int|
            0 <= i < signins_that(results, true).len() ==> (#[trigger] signins_that(
                results,
                true,
            )[i]).1.is_successful(),
        forall|i: int|
            0 <= i < signins_that(results, false).len() ==> !(#[trigger] signins_that(
                results,
                false,
            )[i]).1.is_successful(),
    decreases results.len(),
{
    if results.len() > 0 {
        every_signin_is_reported(results.drop_last());
    }
}

/// A notification that is to be sent.
#[derive(Debug)]
pub struct GotifyMessage {
    pub url: String,
    pub token: String,
    pub title: String,
    pub message: String,
    pub priority: u8,
    /// The report for machines that goes with it.
    pub report: Option<Json>,
}

/// What a `GotifyMessage` says.
pub struct MessageView {
    pub url: Seq<char>,
    pub token: Seq<char>,
    pub title: Seq<char>,
    pub message: Seq<char>,
    pub priority: u8,
    pub report: Option<JsonView>,
}

impl View for GotifyMessage {
    type V = MessageView;

    open spec fn view(&self) -> MessageView {
        MessageView {
            url: self.url@,
            token: self.token@,
            title: self.title@,
            message: self.message@,
            priority: self.priority,
            report: match self.report {
                Some(j) => Some(j@),
                None => None,
            },
        }
    }
}

/// The address of a server without spaces around it and slashes at its end.
pub open spec fn server_base(url: Seq<char>) -> Seq<char> {
    trim_end_of(trimmed(url), '/')
}

/// Whether a server and a token are configured.
pub open spec fn is_configured(c: GotifyConfig) -> bool {
    server_base(c.server_url@).len() > 0 && trimmed(c.token@).len() > 0
}

/// The configured title, or another one where there is none.
pub open spec fn title_or(c: GotifyConfig, other: Seq<char>) -> Seq<char> {
    if trimmed(c.title@).len() == 0 {
        other
    } else {
        trimmed(c.title@)
    }
}

/// Whether nothing failed in a round.
pub open spec fn all_well(round: RoundView) -> bool {
    round.failed.len() == 0 && signins_that(round.signins, false).len() == 0
}

/// The notification on a round.
pub open spec fn round_message(c: GotifyConfig, round: RoundView) -> MessageView {
    MessageView {
        url: server_base(c.server_url@) + "/message"@,
        token: trimmed(c.token@),
        title: title_or(c, "PT Manager 保活结果"@),
        message: round.text(),
        priority: if all_well(round) {
            2
        } else {
            5
        },
        report: Some(round.json()),
    }
}

/// The notification that tests the configuration.
pub open spec fn test_message(c: GotifyConfig) -> MessageView {
    MessageView {
        url: server_base(c.server_url@) + "/message"@,
        token: trimmed(c.token@),
        title: title_or(c, "PT Manager 测试通知"@),
        message: "Gotify 连接测试成功，通知配置可用。"@,
        priority: 5,
        report: None,
    }
}

fn base_of(url: &str) -> (r: String)
    ensures
        r@ == server_base(url@),
{
    let chars: Vec<char> = chars_of(url);
    string_of(trim_end_char(trim(chars.as_slice()), '/'))
}

fn trimmed_string(text: &str) -> (r: String)
    ensures
        r@ == trimmed(text@),
{
    let chars: Vec<char> = chars_of(text);
    string_of(trim(chars.as_slice()))
}

fn title_of(config: &GotifyConfig, other: &str) -> (r: String)
    ensures
        r@ == title_or(*config, other@),
{
    let title: String = trimmed_string(config.title.as_str());
    if title.as_str().is_empty() {
        other.to_string()
    } else {
        title
    }
}

fn any_failed_signin(results: &[(String, SigninResult)]) -> (r: bool)
    ensures
        r == (signins_that(signin_views(results@), false).len() > 0),
{
    let failed: Vec<&(String, SigninResult)> = select_signins(results, false);
    assert(signin_ref_views(failed@).len() == failed@.len());
    failed.len() > 0
}

/// The notification on a round: none where notifications are off, and an error where
/// they are on but not configured.
pub fn login_summary(
    config: &GotifyConfig,
    successful_sites: &[String],
    failed_sites: &[(String, String)],
    signin_results: &[(String, SigninResult)],
    traffic_results: &[(String, SiteTraffic)],
) -> (r: Result<Option<GotifyMessage>, String>)
    ensures
        !config.enabled ==> (r matches Ok(m) && m is None),
        config.enabled && !is_configured(*config) ==> (r matches Err(e) && e@
            == "Gotify 已启用，但服务地址或应用 Token 未配置"@),
        config.enabled && is_configured(*config) ==> (r matches Ok(Some(m)) && m@ == round_message(
            *config,
            round_of(successful_sites@, failed_sites@, signin_results@, traffic_results@),
        )),
{
    if !config.enabled {
        return Ok(None);
    }
    let base: String = base_of(config.server_url.as_str());
    let token: String = trimmed_string(config.token.as_str());
    if base.as_str().is_empty() || token.as_str().is_empty() {
        return Err("Gotify 已启用，但服务地址或应用 Token 未配置".to_string());
    }
    let (message, report): (String, Json) = build_report(
        successful_sites,
        failed_sites,
        signin_results,
        traffic_results,
    );
    assert(reason_views(failed_sites@).len() == failed_sites@.len());
    let priority: u8 = if failed_sites.len() == 0 && !any_failed_signin(signin_results) {
        2
    } else {
        5
    };
    Ok(
        Some(
            GotifyMessage {
                url: base.concat("/message"),
                token,
                title: title_of(config, "PT Manager 保活结果"),
                message,
                priority,
                report: Some(report),
            },
        ),
    )
}

/// The notification that tests the configuration.
pub fn test_notification(config: &GotifyConfig) -> (r: Result<GotifyMessage, String>)
    ensures
        !is_configured(*config) ==> (r matches Err(e) && e@
            == "请先填写 Gotify 服务地址和应用 Token"@),
        is_configured(*config) ==> (r matches Ok(m) && m@ == test_message(*config)),
{
    let base: String = base_of(config.server_url.as_str());
    let token: String = trimmed_string(config.token.as_str());
    if base.as_str().is_empty() || token.as_str().is_empty() {
        return Err("请先填写 Gotify 服务地址和应用 Token".to_string());
    }
    Ok(
        GotifyMessage {
            url: base.concat("/message"),
            token,
            title: title_of(config, "PT Manager 测试通知"),
            message: "Gotify 连接测试成功，通知配置可用。".to_string(),
            priority: 5,
            report: None,
        },
    )
}

/// What came of sending a notification.
#[derive(Debug)]
pub enum Delivery {
    /// There was no client to send it with.
    NoClient,
    TimedOut,
    /// The server could not be reached, for a reason.
    Unreachable(String),
    /// The server answered with a status and a text.
    Answered { success: bool, status: String, detail: String },
}

/// What is reported of a notification on a round.
pub open spec fn summary_error(d: Delivery) -> Option<Seq<char>> {
    match d {
        Delivery::NoClient => Some("Gotify HTTP 客户端初始化失败"@),
        Delivery::TimedOut => Some("Gotify 通知发送失败：请求超时"@),
        Delivery::Unreachable(_) => Some("Gotify 通知发送失败：无法连接服务"@),
        Delivery::Answered { success, status, detail } => if success {
            None
        } else {
            Some("Gotify 通知发送失败：HTTP "@ + status@)
        },
    }
}

/// What is reported of a test notification.
pub open spec fn test_error(d: Delivery) -> Option<Seq<char>> {
    match d {
        Delivery::NoClient => Some("Gotify HTTP 客户端初始化失败"@),
        Delivery::TimedOut => Some("Gotify 测试失败：请求超时"@),
        Delivery::Unreachable(reason) => Some(
            "Gotify 测试失败：无法连接服务（"@ + reason@ + "）"@,
        ),
        Delivery::Answered { success, status, detail } => if success {
            None
        } else if trimmed(detail@).len() == 0 {
            Some("Gotify 测试失败：HTTP "@ + status@)
        } else {
            Some("Gotify 测试失败：HTTP "@ + status@ + "，"@ + trimmed(detail@))
        },
    }
}

/// What is reported of a notification on a round.
pub fn summary_result(d: &Delivery) -> (r: Result<(), String>)
    ensures
        match r {
            Ok(_) => summary_error(*d) is None,
            Err(e) => summary_error(*d) == Some(e@),
        },
{
    match d {
        Delivery::NoClient => Err("Gotify HTTP 客户端初始化失败".to_string()),
        Delivery::TimedOut => Err("Gotify 通知发送失败：请求超时".to_string()),
        Delivery::Unreachable(_) => Err("Gotify 通知发送失败：无法连接服务".to_string()),
        Delivery::Answered { success, status, .. } => if *success {
            Ok(())
        } else {
            Err("Gotify 通知发送失败：HTTP ".to_string().concat(status.as_str()))
        },
    }
}

/// What is reported of a test notification.
pub fn test_result(d: &Delivery) -> (r: Result<(), String>)
    ensures
        match r {
            Ok(_) => test_error(*d) is None,
            Err(e) => test_error(*d) == Some(e@),
        },
{
    match d {
        Delivery::NoClient => Err("Gotify HTTP 客户端初始化失败".to_string()),
        Delivery::TimedOut => Err("Gotify 测试失败：请求超时".to_string()),
        Delivery::Unreachable(reason) => Err(
            "Gotify 测试失败：无法连接服务（".to_string().concat(reason.as_str()).concat("）"),
        ),
        Delivery::Answered { success, status, detail } => if *success {
            Ok(())
        } else {
            let detail: String = trimmed_string(detail.as_str());
            if detail.as_str().is_empty() {
                Err("Gotify 测试失败：HTTP ".to_string().concat(status.as_str()))
            } else {
                Err(
                    "Gotify 测试失败：HTTP ".to_string().concat(status.as_str()).concat(
                        "，",
                    ).concat(detail.as_str()),
                )
            }
        },
    }
}

// ---------------------------------------------------------------- what a report says

/// The traffic that is reported of a site is the first that was read of that site, and none
/// exactly where none was read of it.
pub proof fn traffic_is_that_of_the_site(
    traffic: Seq<(Seq<char>, TrafficView)>,
    site: Seq<char>,
)
    ensures
        match traffic_of(traffic, site) {
            Some(t) => exists|i: int|
                0 <= i < traffic.len() && #[trigger] traffic[i] == (site, t) && forall|j: int|
                    0 <= j < i ==> (#[trigger] traffic[j]).0 != site,
            None => forall|j: int| 0 <= j < traffic.len() ==> (#[trigger] traffic[j]).0 != site,
        },
    decreases traffic.len(),
{
    if traffic.len() > 0 {
        if traffic[0].0 == site {
            assert(traffic[0] == (site, traffic[0].1));
        } else {
            let rest = traffic.skip(1);
            traffic_is_that_of_the_site(rest, site);
            match traffic_of(rest, site) {
                Some(t) => {
                    let i = choose|i: int|
                        0 <= i < rest.len() && #[trigger] rest[i] == (site, t) && forall|j: int|
                            0 <= j < i ==> (#[trigger] rest[j]).0 != site;
                    assert(traffic[i + 1] == (site, t));
                    assert forall|j: int| 0 <= j < i + 1 implies (#[trigger] traffic[j]).0
                        != site by {
                        if j > 0 {
                            assert(rest[j - 1] == traffic[j]);
                        }
                    }
                },
                None => {
                    assert forall|j: int| 0 <= j < traffic.len() implies (#[trigger] traffic[j]).0
                        != site by {
                        if j > 0 {
                            assert(rest[j - 1] == traffic[j]);
                        }
                    }
                },
            }
        }
    }
}

/// One sign-in was made before another.
pub open spec fn made_before(
    results: Seq<(Seq<char>, SigninView)>,
    x: (Seq<char>, SigninView),
    y: (Seq<char>, SigninView),
) -> bool {
    exists|i: int, j: int|
        0 <= i < j < results.len() && #[trigger] results[i] == x && #[trigger] results[j] == y
}

/// The sign-ins that succeeded, or those that did not, are those of all that did so, in the
/// order in which they were made.
pub proof fn signins_are_sorted_out(results: Seq<(Seq<char>, SigninView)>, ok: bool)
    ensures
        forall|x: (Seq<char>, SigninView)| #[trigger]
            signins_that(results, ok).contains(x) <==> results.contains(x) && ((x.1.status
                == SigninStatus::Success || x.1.status == SigninStatus::AlreadySigned) == ok),
        forall|a: int, b: int|
            0 <= a < b < signins_that(results, ok).len() ==> made_before(
                results,
                #[trigger] signins_that(results, ok)[a],
                #[trigger] signins_that(results, ok)[b],
            ),
    decreases results.len(),
{
    let all = signins_that(results, ok);
    if results.len() > 0 {
        let head = results.drop_last();
        let last = results.last();
        let rest = signins_that(head, ok);
        signins_are_sorted_out(head, ok);
        assert(results[results.len() - 1] == last);
        assert forall|x: (Seq<char>, SigninView)| #[trigger] all.contains(x) <==> results.contains(
            x,
        ) && ((x.1.status == SigninStatus::Success || x.1.status == SigninStatus::AlreadySigned)
            == ok) by {
            if all.contains(x) {
                let k = choose|k: int| 0 <= k < all.len() && all[k] == x;
                if k < rest.len() {
                    assert(rest.contains(rest[k]));
                    let i = choose|i: int| 0 <= i < head.len() && head[i] == x;
                    assert(results[i] == x);
                }
            }
            if results.contains(x) {
                let i = choose|i: int| 0 <= i < results.len() && results[i] == x;
                if i < head.len() {
                    assert(head[i] == x);
                    assert(head.contains(x));
                    if rest.contains(x) {
                        let k = choose|k: int| 0 <= k < rest.len() && rest[k] == x;
                        assert(all[k] == x);
                    }
                } else if last.1.is_successful() == ok {
                    assert(all[rest.len() as int] == x);
                }
            }
        }
        assert forall|a: int, b: int| 0 <= a < b < all.len() implies made_before(
            results,
            #[trigger] all[a],
            #[trigger] all[b],
        ) by {
            if b < rest.len() {
                assert(made_before(head, rest[a], rest[b]));
                let (i, j) = choose|i: int, j: int|
                    0 <= i < j < head.len() && #[trigger] head[i] == rest[a] && #[trigger] head[j]
                        == rest[b];
                assert(results[i] == all[a] && results[j] == all[b]);
            } else {
                assert(rest.contains(rest[a]));
                let i = choose|i: int| 0 <= i < head.len() && head[i] == rest[a];
                assert(results[i] == all[a] && results[results.len() - 1] == all[b]);
            }
        }
    }
}

/// A report is about the sites that were logged in to or whose traffic was read, each once.
pub proof fn report_is_about_each_site_once(
    successful: Seq<String>,
    failed: Seq<(String, String)>,
    signins: Seq<(String, SigninResult)>,
    traffic: Seq<(String, SiteTraffic)>,
)
    ensures
        ({
            let sites = round_of(successful, failed, signins, traffic).sites();
            &&& sites.no_duplicates()
            &&& forall|i: int|
                0 <= i < successful.len() ==> sites.contains(#[trigger] successful[i]@)
            &&& forall|i: int| 0 <= i < traffic.len() ==> sites.contains((#[trigger] traffic[i]).0@)
            &&& forall|x: Seq<char>| #[trigger]
                sites.contains(x) ==> (exists|i: int|
                    0 <= i < successful.len() && #[trigger] successful[i]@ == x) || (exists|
                    i: int,
                |
                    0 <= i < traffic.len() && (#[trigger] traffic[i]).0@ == x)
        }),
{
    let round = round_of(successful, failed, signins, traffic);
    let names = round.traffic.map_values(|p: (Seq<char>, TrafficView)| p.0);
    let list = round.successful + names;
    let sites = round.sites();
    distinct_is_a_set(list);
    assert forall|i: int| 0 <= i < successful.len() implies sites.contains(
        #[trigger] successful[i]@,
    ) by {
        assert(list[i] == successful[i]@);
        assert(list.contains(list[i]));
    }
    assert forall|i: int| 0 <= i < traffic.len() implies sites.contains(
        (#[trigger] traffic[i]).0@,
    ) by {
        assert(list[successful.len() + i] == traffic[i].0@);
        assert(list.contains(list[successful.len() + i]));
    }
    assert forall|x: Seq<char>| #[trigger] sites.contains(x) implies (exists|i: int|
        0 <= i < successful.len() && #[trigger] successful[i]@ == x) || (exists|i: int|
        0 <= i < traffic.len() && (#[trigger] traffic[i]).0@ == x) by {
        assert(list.contains(x));
        let j = choose|j: int| 0 <= j < list.len() && list[j] == x;
        if j < successful.len() {
            assert(successful[j]@ == x);
        } else {
            assert(traffic[j - successful.len()].0@ == x);
        }
    }
}

proof fn lemma_report_keys()
    ensures
        "schema"@ != "login"@,
        "version"@ != "login"@,
        "schema"@ != "signin"@,
        "version"@ != "signin"@,
        "login"@ != "signin"@,
        "schema"@ != "version"@,
        "success_count"@ != "success"@,
        "failure_count"@ != "success"@,
        "success_count"@ != "failure_count"@,
        "success_count"@ != "failure"@,
        "failure_count"@ != "failure"@,
        "success"@ != "failure"@,
        "site"@ != "upload"@,
        "site"@ != "download"@,
        "upload"@ != "download"@,
        "site"@ != "ratio"@,
        "upload"@ != "ratio"@,
        "download"@ != "ratio"@,
        "site"@ != "reason"@,
        "site"@ != "status"@,
        "status"@ != "reason"@,
        "site"@ != "consecutive_days"@,
        "status"@ != "consecutive_days"@,
        "site"@ != "total_days"@,
        "status"@ != "total_days"@,
        "consecutive_days"@ != "total_days"@,
        "site"@ != "reward"@,
        "status"@ != "reward"@,
        "consecutive_days"@ != "reward"@,
        "total_days"@ != "reward"@,
        "site"@ != "message"@,
        "status"@ != "message"@,
        "consecutive_days"@ != "message"@,
        "total_days"@ != "message"@,
        "reward"@ != "message"@,
{
    reveal_strlit("schema");
    reveal_strlit("version");
    reveal_strlit("login");
    reveal_strlit("signin");
    reveal_strlit("success_count");
    reveal_strlit("failure_count");
    reveal_strlit("success");
    reveal_strlit("failure");
    reveal_strlit("site");
    reveal_strlit("upload");
    reveal_strlit("download");
    reveal_strlit("ratio");
    reveal_strlit("reason");
    reveal_strlit("status");
    reveal_strlit("consecutive_days");
    reveal_strlit("total_days");
    reveal_strlit("reward");
    reveal_strlit("message");
    assert("schema"@[1] == 'c' && "signin"@[1] == 'i');
    assert("version"@[0] == 'v');
    assert("success"@[0] == 's' && "failure"@[0] == 'f');
    assert("success"@.len() == 7 && "failure"@.len() == 7);
    assert("success_count"@.len() == 13 && "failure_count"@.len() == 13);
    assert("success_count"@[0] == 's' && "failure_count"@[0] == 'f');
    assert("upload"@[0] == 'u' && "reason"@[0] == 'r' && "status"@[0] == 's' && "reward"@[0]
        == 'r');
    assert("site"@.len() == 4 && "ratio"@.len() == 5 && "download"@.len() == 8);
    assert("consecutive_days"@[0] == 'c' && "total_days"@[0] == 't' && "message"@[0] == 'm');
}

/// The part of a report for machines under a name, and the list in it.
pub open spec fn reported(report: JsonView, part: Seq<char>, list: Seq<char>) -> Seq<JsonView> {
    match report.at(part) {
        Some(p) => match p.at(list) {
            Some(l) => match l.items() {
                Some(v) => v,
                None => Seq::empty(),
            },
            None => Seq::empty(),
        },
        None => Seq::empty(),
    }
}

proof fn lemma_reported(round: RoundView)
    ensures
        reported(round.json(), "login"@, "success"@) == round.site_items(),
        reported(round.json(), "login"@, "failure"@) == round.failure_items(),
        reported(round.json(), "signin"@, "success"@) == round.signed_items(),
        reported(round.json(), "signin"@, "failure"@) == round.unsigned_items(),
        round.json().at("login"@) == Some(counted(round.site_items(), round.failure_items())),
        round.json().at("signin"@) == Some(counted(round.signed_items(), round.unsigned_items())),
        counted(round.site_items(), round.failure_items()).unsigned_at("success_count"@) == Some(
            round.site_items().len() as u64,
        ),
        counted(round.site_items(), round.failure_items()).unsigned_at("failure_count"@) == Some(
            round.failure_items().len() as u64,
        ),
        counted(round.signed_items(), round.unsigned_items()).unsigned_at("success_count"@) == Some(
            round.signed_items().len() as u64,
        ),
        counted(round.signed_items(), round.unsigned_items()).unsigned_at("failure_count"@) == Some(
            round.unsigned_items().len() as u64,
        ),
{
    lemma_report_keys();
    reveal_with_fuel(first_at, 5);
    let entries = round.json()->Object_0;
    lemma_four(entries);
    lemma_four(counted(round.site_items(), round.failure_items())->Object_0);
    lemma_four(counted(round.signed_items(), round.unsigned_items())->Object_0);
}

proof fn lemma_four(entries: Seq<(Seq<char>, JsonView)>)
    requires
        entries.len() == 4,
    ensures
        forall|key: Seq<char>| #[trigger]
            first_at(entries, key) == (if entries[0].0 == key {
                Some(entries[0].1)
            } else if entries[1].0 == key {
                Some(entries[1].1)
            } else if entries[2].0 == key {
                Some(entries[2].1)
            } else if entries[3].0 == key {
                Some(entries[3].1)
            } else {
                None
            }),
{
    reveal_with_fuel(first_at, 5);
    assert(entries.skip(1)[0] == entries[1]);
    assert(entries.skip(1).skip(1)[0] == entries[2]);
    assert(entries.skip(1).skip(1).skip(1)[0] == entries[3]);
}

/// The report for machines gives every site that was logged in to with the traffic that was
/// read of it first, and with none where none was read of it.
pub proof fn report_gives_each_site_its_traffic(
    successful: Seq<String>,
    failed: Seq<(String, String)>,
    signins: Seq<(String, SigninResult)>,
    traffic: Seq<(String, SiteTraffic)>,
    k: int,
)
    requires
        0 <= k < round_of(successful, failed, signins, traffic).sites().len(),
    ensures
        ({
            let round = round_of(successful, failed, signins, traffic);
            let list = reported(round.json(), "login"@, "success"@);
            let site = round.sites()[k];
            let item = list[k];
            &&& list.len() == round.sites().len()
            &&& item.text_at("site"@) == Some(site)
            &&& forall|i: int|
                0 <= i < traffic.len() && (#[trigger] traffic[i]).0@ == site && (forall|j: int|
                    0 <= j < i ==> (#[trigger] traffic[j]).0@ != site) ==> item.text_at("upload"@)
                    == traffic[i].1@.upload && item.text_at("download"@) == traffic[i].1@.download
                    && item.text_at("ratio"@) == traffic[i].1@.ratio
            &&& (forall|j: int| 0 <= j < traffic.len() ==> (#[trigger] traffic[j]).0@ != site)
                ==> item.text_at("upload"@) is None && item.text_at("download"@) is None
                && item.text_at("ratio"@) is None
        }),
{
    let round = round_of(successful, failed, signins, traffic);
    let site = round.sites()[k];
    let item = round.site_items()[k];
    lemma_reported(round);
    lemma_report_keys();
    lemma_four(item->Object_0);
    let views = round.traffic;
    traffic_is_that_of_the_site(views, site);
    assert forall|i: int|
        0 <= i < traffic.len() && (#[trigger] traffic[i]).0@ == site && (forall|j: int|
            0 <= j < i ==> (#[trigger] traffic[j]).0@ != site) implies item.text_at("upload"@)
        == traffic[i].1@.upload && item.text_at("download"@) == traffic[i].1@.download
        && item.text_at("ratio"@) == traffic[i].1@.ratio by {
        assert(views[i] == (traffic[i].0@, traffic[i].1@));
        let t = traffic_of(views, site)->0;
        let m = choose|m: int|
            0 <= m < views.len() && #[trigger] views[m] == (site, t) && forall|j: int|
                0 <= j < m ==> (#[trigger] views[j]).0 != site;
        assert(views[m] == (traffic[m].0@, traffic[m].1@));
        assert(m == i);
    }
    if forall|j: int| 0 <= j < traffic.len() ==> (#[trigger] traffic[j]).0@ != site {
        assert(traffic_of(views, site) is None) by {
            if traffic_of(views, site) is Some {
                let t = traffic_of(views, site)->0;
                let m = choose|m: int| 0 <= m < views.len() && #[trigger] views[m] == (site, t);
                assert(traffic[m].0@ == site);
            }
        }
    }
}

/// The report for machines gives every failed login with its site and its reason, in order.
pub proof fn report_gives_each_failure_its_reason(
    successful: Seq<String>,
    failed: Seq<(String, String)>,
    signins: Seq<(String, SigninResult)>,
    traffic: Seq<(String, SiteTraffic)>,
    k: int,
)
    requires
        0 <= k < failed.len(),
    ensures
        ({
            let round = round_of(successful, failed, signins, traffic);
            let list = reported(round.json(), "login"@, "failure"@);
            &&& list.len() == failed.len()
            &&& list[k].text_at("site"@) == Some(failed[k].0@)
            &&& list[k].text_at("reason"@) == Some(failed[k].1@)
        }),
{
    let round = round_of(successful, failed, signins, traffic);
    lemma_reported(round);
    lemma_report_keys();
    let entries = round.failure_items()[k]->Object_0;
    reveal_with_fuel(first_at, 3);
    assert(entries.skip(1)[0] == entries[1]);
}

/// The report for machines gives every sign-in that succeeded with what it came to.
pub proof fn report_gives_each_signin(
    successful: Seq<String>,
    failed: Seq<(String, String)>,
    signins: Seq<(String, SigninResult)>,
    traffic: Seq<(String, SiteTraffic)>,
    k: int,
)
    requires
        0 <= k < round_of(successful, failed, signins, traffic).signed().len(),
    ensures
        ({
            let round = round_of(successful, failed, signins, traffic);
            let list = reported(round.json(), "signin"@, "success"@);
            let item = list[k];
            let (site, v) = round.signed()[k];
            &&& list.len() == round.signed().len()
            &&& item.text_at("site"@) == Some(site)
            &&& item.text_at("status"@) == Some(
                if v.status == SigninStatus::Success {
                    "success"@
                } else {
                    "already_signed"@
                },
            )
            &&& item.unsigned_at("consecutive_days"@) == (match v.consecutive_days {
                Some(n) => Some(n as u64),
                None => None,
            })
            &&& item.unsigned_at("total_days"@) == (match v.total_days {
                Some(n) => Some(n as u64),
                None => None,
            })
            &&& item.text_at("reward"@) == v.reward
            &&& item.text_at("message"@) == Some(v.message)
        }),
{
    let round = round_of(successful, failed, signins, traffic);
    lemma_reported(round);
    lemma_report_keys();
    every_signin_is_reported(round.signins);
    let entries = round.signed_items()[k]->Object_0;
    reveal_with_fuel(first_at, 7);
    assert(entries.skip(1)[0] == entries[1]);
    assert(entries.skip(1).skip(1)[0] == entries[2]);
    assert(entries.skip(1).skip(1).skip(1)[0] == entries[3]);
    assert(entries.skip(1).skip(1).skip(1).skip(1)[0] == entries[4]);
    assert(entries.skip(1).skip(1).skip(1).skip(1).skip(1)[0] == entries[5]);
}

/// The report for machines gives every sign-in that failed with its reason.
pub proof fn report_gives_each_failed_signin(
    successful: Seq<String>,
    failed: Seq<(String, String)>,
    signins: Seq<(String, SigninResult)>,
    traffic: Seq<(String, SiteTraffic)>,
    k: int,
)
    requires
        0 <= k < round_of(successful, failed, signins, traffic).unsigned().len(),
    ensures
        ({
            let round = round_of(successful, failed, signins, traffic);
            let list = reported(round.json(), "signin"@, "failure"@);
            let (site, v) = round.unsigned()[k];
            &&& list.len() == round.unsigned().len()
            &&& list[k].text_at("site"@) == Some(site)
            &&& list[k].text_at("status"@) == Some("failed"@)
            &&& list[k].text_at("reason"@) == Some(v.message)
        }),
{
    let round = round_of(successful, failed, signins, traffic);
    lemma_reported(round);
    lemma_report_keys();
    every_signin_is_reported(round.signins);
    let entries = round.unsigned_items()[k]->Object_0;
    reveal_with_fuel(first_at, 4);
    assert(entries.skip(1)[0] == entries[1]);
    assert(entries.skip(1).skip(1)[0] == entries[2]);
}

/// The report for machines counts what it lists.
pub proof fn report_counts_its_lists(
    successful: Seq<String>,
    failed: Seq<(String, String)>,
    signins: Seq<(String, SigninResult)>,
    traffic: Seq<(String, SiteTraffic)>,
)
    ensures
        ({
            let round = round_of(successful, failed, signins, traffic);
            let login = round.json().at("login"@)->0;
            let signin = round.json().at("signin"@)->0;
            &&& login.unsigned_at("success_count"@) == Some(
                reported(round.json(), "login"@, "success"@).len() as u64,
            )
            &&& login.unsigned_at("failure_count"@) == Some(failed.len() as u64)
            &&& signin.unsigned_at("success_count"@) == Some(
                reported(round.json(), "signin"@, "success"@).len() as u64,
            )
            &&& signin.unsigned_at("failure_count"@) == Some(
                reported(round.json(), "signin"@, "failure"@).len() as u64,
            )
            &&& reported(round.json(), "signin"@, "success"@).len() + reported(
                round.json(),
                "signin"@,
                "failure"@,
            ).len() == signins.len()
        }),
{
    let round = round_of(successful, failed, signins, traffic);
    lemma_reported(round);
    every_signin_is_reported(round.signins);
}

/// The report for people has a line for every site that was logged in to, with its traffic,
/// for every failure with its reason, and for every sign-in with what it came to.
pub proof fn report_for_people_tells_everything(round: RoundView)
    ensures
        forall|k: int|
            0 <= k < round.sites().len() ==> contains_text(
                round.text(),
                "- **"@ + human_text(#[trigger] round.sites()[k]) + "**　↑"@ + human_or_missing(
                    traffic_or_unknown(round.traffic, round.sites()[k]).upload,
                ) + "　↓"@ + human_or_missing(
                    traffic_or_unknown(round.traffic, round.sites()[k]).download,
                ) + "　比 "@ + human_or_missing(
                    traffic_or_unknown(round.traffic, round.sites()[k]).ratio,
                ),
            ),
        forall|k: int|
            0 <= k < round.failed.len() ==> contains_text(
                round.text(),
                "- **"@ + human_text((#[trigger] round.failed[k]).0) + "**："@ + human_text(
                    round.failed[k].1,
                ),
            ),
        forall|k: int|
            0 <= k < round.signed().len() ==> contains_text(
                round.text(),
                "- **"@ + human_text((#[trigger] round.signed()[k]).0) + "**　"@ + status_label(
                    round.signed()[k].1.status,
                ) + "　连续 "@ + days_text(round.signed()[k].1.consecutive_days) + "　累计 "@
                    + days_text(round.signed()[k].1.total_days),
            ),
        forall|k: int|
            0 <= k < round.unsigned().len() ==> contains_text(
                round.text(),
                "- **"@ + human_text((#[trigger] round.unsigned()[k]).0) + "**："@ + human_text(
                    round.unsigned()[k].1.message,
                ),
            ),
{
    let parts = round.login_part() + round.signin_part();
    let n = round.login_part().len() as int;
    let sites = lines_or_none(round.traffic_lines());
    let failures = lines_or_none(round.failure_lines());
    let signed = lines_or_none(round.signed_lines());
    let unsigned = lines_or_none(round.unsigned_lines());
    assert forall|k: int| 0 <= k < round.sites().len() implies contains_text(
        round.text(),
        "- **"@ + human_text(#[trigger] round.sites()[k]) + "**　↑"@ + human_or_missing(
            traffic_or_unknown(round.traffic, round.sites()[k]).upload,
        ) + "　↓"@ + human_or_missing(traffic_or_unknown(round.traffic, round.sites()[k]).download)
            + "　比 "@ + human_or_missing(traffic_or_unknown(round.traffic, round.sites()[k]).ratio),
    ) by {
        assert(parts[5 + k] == sites[k]);
        joined_text_holds_its_parts(parts, "\n"@, 5 + k);
    }
    assert forall|k: int| 0 <= k < round.failed.len() implies contains_text(
        round.text(),
        "- **"@ + human_text((#[trigger] round.failed[k]).0) + "**："@ + human_text(
            round.failed[k].1,
        ),
    ) by {
        assert(parts[7 + sites.len() + k] == failures[k]);
        joined_text_holds_its_parts(parts, "\n"@, 7 + sites.len() + k);
    }
    assert forall|k: int| 0 <= k < round.signed().len() implies contains_text(
        round.text(),
        "- **"@ + human_text((#[trigger] round.signed()[k]).0) + "**　"@ + status_label(
            round.signed()[k].1.status,
        ) + "　连续 "@ + days_text(round.signed()[k].1.consecutive_days) + "　累计 "@ + days_text(
            round.signed()[k].1.total_days,
        ),
    ) by {
        assert(parts[n + 6 + k] == signed[k]);
        joined_text_holds_its_parts(parts, "\n"@, n + 6 + k);
    }
    assert forall|k: int| 0 <= k < round.unsigned().len() implies contains_text(
        round.text(),
        "- **"@ + human_text((#[trigger] round.unsigned()[k]).0) + "**："@ + human_text(
            round.unsigned()[k].1.message,
        ),
    ) by {
        assert(parts[n + 8 + signed.len() + k] == unsigned[k]);
        joined_text_holds_its_parts(parts, "\n"@, n + 8 + signed.len() + k);
    }
}

/// A round in which nothing failed is reported with a lower priority than one in which a
/// login or a sign-in failed.
pub proof fn failures_raise_the_priority(c: GotifyConfig, round: RoundView)
    ensures
        round_message(c, round).priority == 2 <==> (round.failed.len() == 0 && forall|i: int|
            0 <= i < round.signins.len() ==> (#[trigger] round.signins[i]).1.status
                != SigninStatus::Failed),
        round_message(c, round).priority != 2 ==> round_message(c, round).priority == 5,
        round_message(c, round).message == round.text(),
        round_message(c, round).report == Some(round.json()),
        round_message(c, round).token == trimmed(c.token@),
{
    signins_are_sorted_out(round.signins, false);
    let bad = signins_that(round.signins, false);
    if bad.len() > 0 {
        assert(bad.contains(bad[0]));
        let i = choose|i: int| 0 <= i < round.signins.len() && round.signins[i] == bad[0];
        assert(round.signins[i].1.status == SigninStatus::Failed);
    }
    if exists|i: int|
        0 <= i < round.signins.len() && (#[trigger] round.signins[i]).1.status
            == SigninStatus::Failed {
        let i = choose|i: int|
            0 <= i < round.signins.len() && (#[trigger] round.signins[i]).1.status
                == SigninStatus::Failed;
        assert(round.signins.contains(round.signins[i]));
        assert(bad.contains(round.signins[i]));
    }
}

/// A text without the marks that were put before its characters of Markdown.
pub open spec fn unescaped(s: Seq<char>) -> Seq<char>
    decreases s.len(),
{
    if s.len() == 0 {
        Seq::empty()
    } else if s.len() >= 2 && s[s.len() - 2] == '\\' && is_markup(s.last()) {
        unescaped(s.take(s.len() - 2)).push(s.last())
    } else {
        unescaped(s.drop_last()).push(s.last())
    }
}

/// Escaping Markdown loses nothing: the text is read back from what is shown.
pub proof fn escaping_markdown_reads_back(s: Seq<char>)
    ensures
        unescaped(escaped(s)) == s,
    decreases s.len(),
{
    if s.len() > 0 {
        let head = s.drop_last();
        let all = escaped(s);
        escaping_markdown_reads_back(head);
        assert(head.push(s.last()) =~= s);
        if is_markup(s.last()) {
            assert(all.take(all.len() - 2) =~= escaped(head));
        } else {
            assert(all.drop_last() =~= escaped(head));
        }
    }
}

/// A notification goes to the configured server, whether or not its address ends with a slash,
/// under the configured title where there is one.
pub proof fn notification_goes_to_the_server(c: GotifyConfig, round: RoundView, base: Seq<char>)
    requires
        trim_end_of(trimmed(c.server_url@), '/') == base,
    ensures
        round_message(c, round).url == base + "/message"@,
        test_message(c).url == base + "/message"@,
        test_message(c).token == trimmed(c.token@),
        test_message(c).report is None,
        trimmed(c.title@).len() > 0 ==> round_message(c, round).title == trimmed(c.title@)
            && test_message(c).title == trimmed(c.title@),
        is_configured(c) <==> base.len() > 0 && trimmed(c.token@).len() > 0,
{
}

/// A notification counts as delivered exactly where the server answered with success.
pub proof fn delivered_means_answered_with_success(d: Delivery)
    ensures
        summary_error(d) is None <==> (d matches Delivery::Answered { success, .. } && success),
        test_error(d) is None <==> (d matches Delivery::Answered { success, .. } && success),
{
}

/// The words for the outcomes of a sign-in differ, those for people and those for machines.
pub proof fn outcomes_have_their_own_words(a: SigninStatus, b: SigninStatus)
    ensures
        status_code(a) == status_code(b) ==> a == b,
        status_label(a) == status_label(b) ==> a == b,
        status_code(SigninStatus::Failed) == "failed"@,
        status_code(SigninStatus::Success) == "success"@,
{
    reveal_strlit("success");
    reveal_strlit("already_signed");
    reveal_strlit("failed");
    assert("success"@.len() == 7 && "already_signed"@.len() == 14 && "failed"@.len() == 6);
    reveal_strlit("签到成功");
    reveal_strlit("今日已签到");
    reveal_strlit("签到失败");
    assert("签到成功"@[2] == '成' && "签到失败"@[2] == '失' && "今日已签到"@.len() == 5);
}

/// A round is reported exactly where notifications are on and configured; where they are on
/// and not configured that is an error, and where they are off nothing is sent.
pub proof fn round_is_reported_where_asked(
    config: &GotifyConfig,
    successful: &[String],
    failed: &[(String, String)],
    signins: &[(String, SigninResult)],
    traffic: &[(String, SiteTraffic)],
    r: Result<Option<GotifyMessage>, String>,
)
    requires
        call_ensures(login_summary, (config, successful, failed, signins, traffic), r),
    ensures
        (r matches Ok(m) && m is None) <==> !config.enabled,
        r is Err <==> config.enabled && (server_base(config.server_url@).len() == 0 || trimmed(
            config.token@,
        ).len() == 0),
        r matches Ok(Some(m)) ==> m@.report == Some(
            round_of(successful@, failed@, signins@, traffic@).json(),
        ) && m@.message == round_of(successful@, failed@, signins@, traffic@).text() && m@.token
            == trimmed(config.token@),
{
}

/// The report for people counts the logins and the sign-ins that succeeded and those that
/// failed, and names the sites of each.
pub proof fn report_for_people_counts_and_names(round: RoundView)
    ensures
        has_count_line(round.text(), "✅ **成功 "@, round.sites()),
        has_count_line(
            round.text(),
            "❌ **失败 "@,
            Seq::new(round.failed.len(), |i: int| round.failed[i].0),
        ),
        has_count_line(
            round.text(),
            "✅ **成功 "@,
            Seq::new(round.signed().len(), |i: int| round.signed()[i].0),
        ),
        has_count_line(
            round.text(),
            "❌ **失败 "@,
            Seq::new(round.unsigned().len(), |i: int| round.unsigned()[i].0),
        ),
{
    let parts = round.login_part() + round.signin_part();
    let n = round.login_part().len() as int;
    let failed = round.failed.map_values(|p: (Seq<char>, Seq<char>)| p.0);
    let signed = round.signed().map_values(|p: (Seq<char>, SigninView)| p.0);
    let unsigned = round.unsigned().map_values(|p: (Seq<char>, SigninView)| p.0);
    assert(failed =~= Seq::new(round.failed.len(), |i: int| round.failed[i].0));
    assert(signed =~= Seq::new(round.signed().len(), |i: int| round.signed()[i].0));
    assert(unsigned =~= Seq::new(round.unsigned().len(), |i: int| round.unsigned()[i].0));
    let a = success_line(round.sites().len(), names_line(round.sites()));
    let b = failure_line(failed.len(), names_line(failed));
    let c = success_line(signed.len(), names_line(signed));
    let d = failure_line(unsigned.len(), names_line(unsigned));
    assert(parts[1] == a && parts[2] == b);
    assert(parts[n + 2] == c && parts[n + 3] == d);
    joined_text_holds_its_parts(parts, "\n"@, 1);
    joined_text_holds_its_parts(parts, "\n"@, 2);
    joined_text_holds_its_parts(parts, "\n"@, n + 2);
    joined_text_holds_its_parts(parts, "\n"@, n + 3);
    lemma_counts_and_names("✅ **成功 "@, round.sites());
    lemma_counts_and_names("❌ **失败 "@, failed);
    lemma_counts_and_names("✅ **成功 "@, signed);
    lemma_counts_and_names("❌ **失败 "@, unsigned);
    assert(counts_and_names(a, "✅ **成功 "@, round.sites()));
    assert(counts_and_names(b, "❌ **失败 "@, failed));
    assert(counts_and_names(c, "✅ **成功 "@, signed));
    assert(counts_and_names(d, "❌ **失败 "@, unsigned));
}

/// A text holds a line that counts and names sites.
pub open spec fn has_count_line(text: Seq<char>, word: Seq<char>, names: Seq<Seq<char>>) -> bool {
    exists|line: Seq<char>| #[trigger]
        counts_and_names(line, word, names) && contains_text(text, line)
}

/// A line begins with a word and a number, and names each of so many sites.
pub open spec fn counts_and_names(line: Seq<char>, word: Seq<char>, names: Seq<Seq<char>>) -> bool {
    &&& has_prefix(line, word + decimal(names.len()) + "**："@)
    &&& forall|i: int|
        0 <= i < names.len() ==> contains_text(line, human_text(#[trigger] names[i]))
}

proof fn lemma_counts_and_names(word: Seq<char>, names: Seq<Seq<char>>)
    ensures
        counts_and_names(
            word + decimal(names.len()) + "**："@ + names_line(names),
            word,
            names,
        ),
{
    let head = word + decimal(names.len()) + "**："@;
    let list = names_line(names);
    let line = head + list;
    assert(line.take(head.len() as int) =~= head);
    sum_contains_its_middle(head, list, Seq::empty());
    assert(head + list + Seq::<char>::empty() =~= line);
    let shown = names.map_values(|n: Seq<char>| human_text(n));
    assert forall|i: int| 0 <= i < names.len() implies contains_text(
        line,
        human_text(#[trigger] names[i]),
    ) by {
        assert(shown[i] == human_text(names[i]));
        joined_text_holds_its_parts(shown, "、"@, i);
        containing_is_transitive(line, list, human_text(names[i]));
    }
}

} // verus!
