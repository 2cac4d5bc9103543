//! Signing in for the day: which way a site is signed in, what its pages say, and
//! what is reported.

use crate::list::push_text;
use crate::number::{decimal, decimal_of};
use crate::text::{
    before_any, chars_eq, chars_of, contains_str, contains_text, cut_text, ends_with_str,
    find_char, find_from, find_text_from, has_prefix, has_suffix, index_of, index_of_any, join,
    joined, joined_text_holds_its_parts, lemma_find_from, lemma_find_from_is, lemma_index_of, lemma_index_of_any,
    lemma_index_of_any_is, lemma_index_of_is, lemma_last_index_of, lemma_trim_end_is_prefix,
    lemma_trim_end_of, lemma_trim_start, lower, lowered, occurs_at, opt_clone, opt_text, rcut,
    rsplit_once, split_once_str, string_of, take_before_any, texts, to_lower, trim, trim_end_char,
    trim_end_of, trim_start, trimmed, white,
};
use vstd::prelude::*;

verus! {

/// How a sign-in ended.
#[derive(Debug, Clone, Copy, PartialEq, Eq, Structural)]
pub enum SigninStatus {
    Success,
    AlreadySigned,
    Failed,
}

/// The result of a sign-in.
#[derive(Debug, Clone)]
pub struct SigninResult {
    pub status: SigninStatus,
    pub message: String,
    pub reward: Option<String>,
    pub total_days: Option<u32>,
    pub consecutive_days: Option<u32>,
}

/// What a `SigninResult` says.
pub struct SigninView {
    pub status: SigninStatus,
    pub message: Seq<char>,
    pub reward: Option<Seq<char>>,
    pub total_days: Option<u32>,
    pub consecutive_days: Option<u32>,
}

impl View for SigninResult {
    type V = SigninView;

    open spec fn view(&self) -> SigninView {
        SigninView {
            status: self.status,
            message: self.message@,
            reward: opt_text(self.reward),
            total_days: self.total_days,
            consecutive_days: self.consecutive_days,
        }
    }
}

impl SigninView {
    pub open spec fn is_successful(self) -> bool {
        self.status != SigninStatus::Failed
    }

    /// The parts of the summary: the message, and the days and reward as far as they
    /// are known.
    pub open spec fn summary_parts(self) -> Seq<Seq<char>> {
        let first = seq![self.message];
        let second = match self.consecutive_days {
            Some(n) => first.push("连续签到 "@ + decimal(n as nat) + " 天"@),
            None => first,
        };
        let third = match self.total_days {
            Some(n) => second.push("累计签到 "@ + decimal(n as nat) + " 次"@),
            None => second,
        };
        match self.reward {
            Some(t) => if t.len() > 0 {
                third.push("本次奖励 "@ + t)
            } else {
                third
            },
            None => third,
        }
    }
}

/// A failed sign-in.
pub open spec fn signin_failure(message: Seq<char>) -> SigninView {
    SigninView {
        status: SigninStatus::Failed,
        message,
        reward: None,
        total_days: None,
        consecutive_days: None,
    }
}

impl SigninResult {
    pub fn successful(&self) -> (r: bool)
        ensures
            r == self@.is_successful(),
    {
        match self.status {
            SigninStatus::Success | SigninStatus::AlreadySigned => true,
            SigninStatus::Failed => false,
        }
    }

    /// The result in one line.
    pub fn summary(&self) -> (r: String)
        ensures
            r@ == joined(self@.summary_parts(), "，"@),
    {
        let mut parts: Vec<String> = Vec::new();
        parts.push(self.message.clone());
        assert(texts(parts@) =~= seq![self.message@]);
        if let Some(days) = self.consecutive_days {
            push_text(
                &mut parts,
                "连续签到 ".to_string().concat(decimal_of(days as u64).as_str()).concat(" 天"),
            );
        }
        if let Some(total) = self.total_days {
            push_text(
                &mut parts,
                "累计签到 ".to_string().concat(decimal_of(total as u64).as_str()).concat(" 次"),
            );
        }
        if let Some(reward) = &self.reward {
            if !reward.as_str().is_empty() {
                push_text(&mut parts, "本次奖励 ".to_string().concat(reward.as_str()));
            }
        }
        join(&parts, "，")
    }

    /// A failed sign-in.
    pub fn failure(message: &str) -> (r: SigninResult)
        ensures
            r@ == signin_failure(message@),
    {
        SigninResult {
            status: SigninStatus::Failed,
            message: message.to_string(),
            reward: None,
            total_days: None,
            consecutive_days: None,
        }
    }
}

/// What a page says of a sign-in.
#[derive(Debug)]
pub struct PageState {
    pub ready: bool,
    pub current_url: String,
    pub entry_url: Option<String>,
    pub nexusphp_like: bool,
    pub home_already_signed: bool,
    pub success: bool,
    pub already_signed: bool,
    pub has_login_form: bool,
    pub has_challenge: bool,
    pub challenge_ready: bool,
    pub has_interactive_question: bool,
    pub has_action: bool,
    pub action_label: String,
    pub action_key: String,
    pub explicit_failure: bool,
    pub message: String,
    pub reward: Option<String>,
    pub total_days: Option<u32>,
    pub consecutive_days: Option<u32>,
}

/// What the sign-in interface of a site answers.
#[derive(Debug)]
pub struct ApiSigninState {
    pub success: bool,
    pub already_signed: bool,
    pub message: String,
    pub reward: Option<String>,
    pub total_days: Option<u32>,
    pub consecutive_days: Option<u32>,
}

/// The way in which a site is signed in.
#[derive(Debug, Clone, Copy, PartialEq, Eq, Structural)]
pub enum SigninAdapter {
    Audiences,
    Hdfans,
    PterClub,
    Yema,
    Hares,
    Rousi,
    Pting,
    Generic,
}

/// A site whose sign-in interface can be called.
#[derive(Debug, Clone, Copy, PartialEq, Eq, Structural)]
pub enum ApiSigninKind {
    PterClub,
    Yema,
    Hares,
    Rousi,
    Pting,
}

/// The way in which the site at an address is signed in.
pub open spec fn signin_adapter_for(url: Seq<char>) -> SigninAdapter {
    let u = lowered(url);
    if contains_text(u, "audiences.me"@) {
        SigninAdapter::Audiences
    } else if contains_text(u, "hdfans.org"@) {
        SigninAdapter::Hdfans
    } else if contains_text(u, "pterclub."@) {
        SigninAdapter::PterClub
    } else if contains_text(u, "yemapt.org"@) {
        SigninAdapter::Yema
    } else if contains_text(u, "club.hares.top"@) {
        SigninAdapter::Hares
    } else if contains_text(u, "rousi.pro"@) {
        SigninAdapter::Rousi
    } else if contains_text(u, "pting.club"@) {
        SigninAdapter::Pting
    } else {
        SigninAdapter::Generic
    }
}

/// The name of a way to sign in.
pub open spec fn signin_label(a: SigninAdapter) -> Seq<char> {
    match a {
        SigninAdapter::Audiences => "观众站点适配"@,
        SigninAdapter::Hdfans => "红豆饭站点适配"@,
        SigninAdapter::PterClub => "PTerClub 站点适配"@,
        SigninAdapter::Yema => "野马站点适配"@,
        SigninAdapter::Hares => "白兔站点适配"@,
        SigninAdapter::Rousi => "Rousi 站点适配"@,
        SigninAdapter::Pting => "PTing 论坛适配"@,
        SigninAdapter::Generic => "通用规则"@,
    }
}

/// The interface to call where the page does not confirm a sign-in.
pub open spec fn signin_api(a: SigninAdapter) -> Option<ApiSigninKind> {
    match a {
        SigninAdapter::PterClub => Some(ApiSigninKind::PterClub),
        SigninAdapter::Yema => Some(ApiSigninKind::Yema),
        SigninAdapter::Hares => Some(ApiSigninKind::Hares),
        SigninAdapter::Rousi => Some(ApiSigninKind::Rousi),
        SigninAdapter::Pting => Some(ApiSigninKind::Pting),
        _ => None,
    }
}

/// An address without query, fragment and trailing slashes.
pub open spec fn bare_url(url: Seq<char>) -> Seq<char> {
    trim_end_of(before_any(trimmed(url), seq!['?', '#']), '/')
}

/// Where the host of an address begins.
pub open spec fn authority_start(url: Seq<char>) -> int {
    match find_from(url, "://"@, 0) {
        Some(k) => k + 3,
        None => 0,
    }
}

/// Where the path of an address begins; its length where there is none.
pub open spec fn path_start(url: Seq<char>) -> int {
    authority_start(url) + index_of(url.skip(authority_start(url)), '/')
}

/// The directory of an address: without its last part where that looks like a file.
pub open spec fn directory_of(url: Seq<char>) -> Seq<char> {
    if path_start(url) < url.len() {
        match rcut(url, '/') {
            Some((root, file)) => if file.contains('.') {
                root
            } else {
                url
            },
            None => url,
        }
    } else {
        url
    }
}

/// The sign-in page of a site that does not link to one.
pub open spec fn signin_page(a: SigninAdapter, site_url: Seq<char>) -> Seq<char> {
    let url = bare_url(site_url);
    if has_suffix(lowered(url), "attendance.php"@) {
        url
    } else if a == SigninAdapter::Rousi {
        url.take(path_start(url)) + "/account/economy"@
    } else {
        directory_of(url) + "/attendance.php"@
    }
}

fn find_path(url: &[char]) -> (r: usize)
    ensures
        r == path_start(url@),
        r <= url@.len(),
{
    let mark: Vec<char> = chars_of("://");
    proof {
        reveal_strlit("://");
    }
    let n: usize = url.len();
    let start: usize = match find_text_from(url, mark.as_slice(), 0) {
        Some(k) => k + 3,
        None => 0,
    };
    let rest: &[char] = &url[start..n];
    assert(rest@ =~= url@.skip(start as int));
    start + find_char(rest, '/')
}

fn find_directory<'a>(url: &'a [char]) -> (r: &'a [char])
    ensures
        r@ == directory_of(url@),
{
    if find_path(url) < url.len() {
        match rsplit_once(url, '/') {
            Some((root, file)) => {
                let dot: usize = find_char(file, '.');
                if dot < file.len() {
                    assert(file@[dot as int] == '.');
                    root
                } else {
                    url
                }
            },
            None => url,
        }
    } else {
        url
    }
}

impl SigninAdapter {
    /// The way in which the site at an address is signed in.
    pub fn from_url(url: &str) -> (r: SigninAdapter)
        ensures
            r == signin_adapter_for(url@),
    {
        let chars: Vec<char> = chars_of(url);
        let u: Vec<char> = to_lower(chars.as_slice());
        if contains_str(u.as_slice(), "audiences.me") {
            SigninAdapter::Audiences
        } else if contains_str(u.as_slice(), "hdfans.org") {
            SigninAdapter::Hdfans
        } else if contains_str(u.as_slice(), "pterclub.") {
            SigninAdapter::PterClub
        } else if contains_str(u.as_slice(), "yemapt.org") {
            SigninAdapter::Yema
        } else if contains_str(u.as_slice(), "club.hares.top") {
            SigninAdapter::Hares
        } else if contains_str(u.as_slice(), "rousi.pro") {
            SigninAdapter::Rousi
        } else if contains_str(u.as_slice(), "pting.club") {
            SigninAdapter::Pting
        } else {
            SigninAdapter::Generic
        }
    }

    /// The name of this way to sign in.
    pub fn label(self) -> (r: &'static str)
        ensures
            r@ == signin_label(self),
    {
        match self {
            SigninAdapter::Audiences => "观众站点适配",
            SigninAdapter::Hdfans => "红豆饭站点适配",
            SigninAdapter::PterClub => "PTerClub 站点适配",
            SigninAdapter::Yema => "野马站点适配",
            SigninAdapter::Hares => "白兔站点适配",
            SigninAdapter::Rousi => "Rousi 站点适配",
            SigninAdapter::Pting => "PTing 论坛适配",
            SigninAdapter::Generic => "通用规则",
        }
    }

    /// The interface to call where the page does not confirm a sign-in.
    pub fn api_fallback(self) -> (r: Option<ApiSigninKind>)
        ensures
            r == signin_api(self),
    {
        match self {
            SigninAdapter::PterClub => Some(ApiSigninKind::PterClub),
            SigninAdapter::Yema => Some(ApiSigninKind::Yema),
            SigninAdapter::Hares => Some(ApiSigninKind::Hares),
            SigninAdapter::Rousi => Some(ApiSigninKind::Rousi),
            SigninAdapter::Pting => Some(ApiSigninKind::Pting),
            _ => None,
        }
    }

    /// The sign-in page of a site that does not link to one.
    pub fn fallback_url(self, site_url: &str) -> (r: String)
        ensures
            r@ == signin_page(self, site_url@),
    {
        let chars: Vec<char> = chars_of(site_url);
        let mut marks: Vec<char> = Vec::new();
        marks.push('?');
        marks.push('#');
        assert(marks@ =~= seq!['?', '#']);
        let url: &[char] = trim_end_char(
            take_before_any(trim(chars.as_slice()), marks.as_slice()),
            '/',
        );
        let lower: Vec<char> = to_lower(url);
        if ends_with_str(lower.as_slice(), "attendance.php") {
            string_of(url)
        } else if self == SigninAdapter::Rousi {
            let end: usize = find_path(url);
            let origin: &[char] = &url[0..end];
            assert(origin@ =~= url@.take(end as int));
            string_of(origin).concat("/account/economy")
        } else {
            string_of(find_directory(url)).concat("/attendance.php")
        }
    }
}

/// The host in an address with a scheme, in lower case.
pub open spec fn signin_host(url: Seq<char>) -> Option<Seq<char>> {
    match cut_text(url, "://"@) {
        Some((_, rest)) => Some(
            lowered(before_any(before_any(rest, seq!['/', '?', '#']), seq![':'])),
        ),
        None => None,
    }
}

/// Whether two addresses have the same host.
pub open spec fn on_same_site(candidate: Seq<char>, site_url: Seq<char>) -> bool {
    signin_host(candidate) is Some && signin_host(candidate) == signin_host(site_url)
}

fn host_of(url: &str) -> (r: Option<Vec<char>>)
    ensures
        match r {
            Some(h) => signin_host(url@) == Some(h@),
            None => signin_host(url@) is None,
        },
{
    let chars: Vec<char> = chars_of(url);
    match split_once_str(chars.as_slice(), "://") {
        Some((_, rest)) => {
            let mut ends: Vec<char> = Vec::new();
            ends.push('/');
            ends.push('?');
            ends.push('#');
            assert(ends@ =~= seq!['/', '?', '#']);
            let mut colon: Vec<char> = Vec::new();
            colon.push(':');
            assert(colon@ =~= seq![':']);
            let host: &[char] = take_before_any(
                take_before_any(rest, ends.as_slice()),
                colon.as_slice(),
            );
            Some(to_lower(host))
        },
        None => None,
    }
}

/// Whether two addresses have the same host.
pub fn same_site(candidate: &str, site_url: &str) -> (r: bool)
    ensures
        r == on_same_site(candidate@, site_url@),
{
    match (host_of(candidate), host_of(site_url)) {
        (Some(left), Some(right)) => chars_eq(left.as_slice(), right.as_slice()),
        _ => false,
    }
}

/// The message of a sign-in on a page that has none of its own.
pub open spec fn default_message(status: SigninStatus) -> Seq<char> {
    match status {
        SigninStatus::Success => "签到成功"@,
        SigninStatus::AlreadySigned => "今日已签到"@,
        SigninStatus::Failed => "签到失败"@,
    }
}

/// The result that a page reports.
pub open spec fn page_result(status: SigninStatus, p: PageState) -> SigninView {
    SigninView {
        status,
        message: if p.message@.len() == 0 {
            default_message(status)
        } else {
            p.message@
        },
        reward: opt_text(p.reward),
        total_days: p.total_days,
        consecutive_days: p.consecutive_days,
    }
}

/// The result that a page reports.
pub fn result_from_state(status: SigninStatus, state: &PageState) -> (r: SigninResult)
    ensures
        r@ == page_result(status, *state),
{
    SigninResult {
        status,
        message: if state.message.as_str().is_empty() {
            match status {
                SigninStatus::Success => "签到成功".to_string(),
                SigninStatus::AlreadySigned => "今日已签到".to_string(),
                SigninStatus::Failed => "签到失败".to_string(),
            }
        } else {
            state.message.clone()
        },
        reward: opt_clone(&state.reward),
        total_days: state.total_days,
        consecutive_days: state.consecutive_days,
    }
}

/// The status that an interface answers with.
pub open spec fn api_status(a: ApiSigninState) -> SigninStatus {
    if a.success {
        SigninStatus::Success
    } else if a.already_signed {
        SigninStatus::AlreadySigned
    } else {
        SigninStatus::Failed
    }
}

/// The result that an interface answers with.
pub open spec fn api_result(a: ApiSigninState) -> SigninView {
    SigninView {
        status: api_status(a),
        message: if a.message@.len() == 0 {
            match api_status(a) {
                SigninStatus::Success => "接口签到成功"@,
                SigninStatus::AlreadySigned => "今日已签到"@,
                SigninStatus::Failed => "签到接口返回失败"@,
            }
        } else {
            a.message@
        },
        reward: opt_text(a.reward),
        total_days: a.total_days,
        consecutive_days: a.consecutive_days,
    }
}

/// The result that an interface answers with.
pub fn result_from_api(state: &ApiSigninState) -> (r: SigninResult)
    ensures
        r@ == api_result(*state),
{
    let status: SigninStatus = if state.success {
        SigninStatus::Success
    } else if state.already_signed {
        SigninStatus::AlreadySigned
    } else {
        SigninStatus::Failed
    };
    SigninResult {
        status,
        message: if state.message.as_str().is_empty() {
            match status {
                SigninStatus::Success => "接口签到成功".to_string(),
                SigninStatus::AlreadySigned => "今日已签到".to_string(),
                SigninStatus::Failed => "签到接口返回失败".to_string(),
            }
        } else {
            state.message.clone()
        },
        reward: opt_clone(&state.reward),
        total_days: state.total_days,
        consecutive_days: state.consecutive_days,
    }
}

/// The path and the name of a sign-in interface.
pub open spec fn api_route(kind: ApiSigninKind) -> (Seq<char>, Seq<char>) {
    match kind {
        ApiSigninKind::PterClub => ("/attendance-ajax.php"@, "pterclub"@),
        ApiSigninKind::Yema => ("/api/consumer/checkIn"@, "yema"@),
        ApiSigninKind::Hares => ("/attendance.php?action=sign"@, "hares"@),
        ApiSigninKind::Rousi => ("/api/points/attendance"@, "rousi"@),
        ApiSigninKind::Pting => ("/api/check-in"@, "pting"@),
    }
}

/// The path and the name of a sign-in interface.
pub fn api_path(kind: ApiSigninKind) -> (r: (&'static str, &'static str))
    ensures
        r.0@ == api_route(kind).0,
        r.1@ == api_route(kind).1,
{
    match kind {
        ApiSigninKind::PterClub => ("/attendance-ajax.php", "pterclub"),
        ApiSigninKind::Yema => ("/api/consumer/checkIn", "yema"),
        ApiSigninKind::Hares => ("/attendance.php?action=sign", "hares"),
        ApiSigninKind::Rousi => ("/api/points/attendance", "rousi"),
        ApiSigninKind::Pting => ("/api/check-in", "pting"),
    }
}

/// How a site is signed in at first.
#[derive(Debug, Clone, Copy, PartialEq, Eq, Structural)]
pub enum SigninRoute {
    /// By its pages.
    Page,
    /// By its interface alone.
    Api(ApiSigninKind),
}

/// How a site is signed in at first.
pub open spec fn first_route(a: SigninAdapter) -> SigninRoute {
    if a == SigninAdapter::Pting {
        SigninRoute::Api(ApiSigninKind::Pting)
    } else {
        SigninRoute::Page
    }
}

/// The interface to call after the pages of a site came to a result.
pub open spec fn fallback_after(a: SigninAdapter, page: SigninView) -> Option<ApiSigninKind> {
    if page.is_successful() || a == SigninAdapter::Rousi {
        None
    } else {
        signin_api(a)
    }
}

impl SigninAdapter {
    /// How a site is signed in at first.
    pub fn route(self) -> (r: SigninRoute)
        ensures
            r == first_route(self),
    {
        if self == SigninAdapter::Pting {
            SigninRoute::Api(ApiSigninKind::Pting)
        } else {
            SigninRoute::Page
        }
    }

    /// The interface to call after the pages of a site came to a result.
    pub fn fallback_after_page(self, page: &SigninResult) -> (r: Option<ApiSigninKind>)
        ensures
            r == fallback_after(self, page@),
    {
        if page.successful() || self == SigninAdapter::Rousi {
            None
        } else {
            self.api_fallback()
        }
    }
}

/// What an interface alone came to.
pub open spec fn api_only(api: Result<SigninView, Seq<char>>) -> SigninView {
    match api {
        Ok(v) => v,
        Err(e) => signin_failure(e),
    }
}

/// What the pages and then an interface came to: the interface where it succeeded,
/// and otherwise the messages of both.
pub open spec fn page_then_api(page: SigninView, api: Result<SigninView, Seq<char>>) -> SigninView {
    match api {
        Ok(v) => if v.is_successful() {
            v
        } else {
            signin_failure(page.message + "；接口兜底失败："@ + v.message)
        },
        Err(e) => signin_failure(page.message + "；接口兜底失败："@ + e),
    }
}

/// What a call of an interface came to.
pub open spec fn api_outcome(r: Result<SigninResult, String>) -> Result<SigninView, Seq<char>> {
    match r {
        Ok(v) => Ok(v@),
        Err(e) => Err(e@),
    }
}

/// What an interface alone came to.
pub fn result_of_api(api: Result<SigninResult, String>) -> (r: SigninResult)
    ensures
        r@ == api_only(api_outcome(api)),
{
    match api {
        Ok(v) => v,
        Err(e) => SigninResult::failure(e.as_str()),
    }
}

/// What the pages and then an interface came to.
pub fn result_of_both(page: &SigninResult, api: Result<SigninResult, String>) -> (r: SigninResult)
    ensures
        r@ == page_then_api(page@, api_outcome(api)),
{
    match api {
        Ok(v) => {
            if v.successful() {
                v
            } else {
                let text: String = page.message.clone().concat("；接口兜底失败：").concat(
                    v.message.as_str(),
                );
                SigninResult::failure(text.as_str())
            }
        },
        Err(e) => {
            let text: String = page.message.clone().concat("；接口兜底失败：").concat(
                e.as_str(),
            );
            SigninResult::failure(text.as_str())
        },
    }
}

/// An interface is only called for a site that has one and whose pages did not
/// confirm the sign-in, and its failure never hides the message of the page.
pub proof fn fallback_only_after_failure(
    a: SigninAdapter,
    page: SigninView,
    api: Result<SigninView, Seq<char>>,
)
    requires
        fallback_after(a, page) is Some,
    ensures
        page.status == SigninStatus::Failed,
        signin_api(a) == fallback_after(a, page),
        page_then_api(page, api).is_successful() <==> (api matches Ok(v) && v.is_successful()),
        !page_then_api(page, api).is_successful() ==> page_then_api(page, api).message.take(
            page.message.len() as int,
        ) == page.message,
{
    if !page_then_api(page, api).is_successful() {
        assert(page_then_api(page, api).message.take(page.message.len() as int)
            =~= page.message);
    }
}

/// The sign-in page of a site begins with the origin of the site's address.
pub proof fn signin_page_keeps_origin(a: SigninAdapter, site_url: Seq<char>)
    ensures
        ({
            let url = bare_url(site_url);
            0 <= path_start(url) <= url.len() && has_prefix(
                signin_page(a, site_url),
                url.take(path_start(url)),
            )
        }),
{
    let url = bare_url(site_url);
    let k = path_start(url);
    let start = authority_start(url);
    reveal_strlit("://");
    lemma_find_from(url, "://"@, 0);
    lemma_index_of(url.skip(start), '/');
    let page = signin_page(a, site_url);
    let origin = url.take(k);
    if has_suffix(lowered(url), "attendance.php"@) {
        assert(page.take(k) =~= origin);
    } else if a == SigninAdapter::Rousi {
        assert(page.take(k) =~= origin);
    } else {
        if k < url.len() {
            lemma_last_index_of(url, '/');
            assert(url.skip(start)[k - start] == '/');
            assert(url[k] == '/');
        }
        assert(page.take(k) =~= origin);
    }
}

proof fn lemma_bare_url(site_url: Seq<char>)
    ensures
        ({
            let url = bare_url(site_url);
            &&& url.len() > 0 ==> !white(url[0])
            &&& forall|i: int| 0 <= i < url.len() ==> #[trigger] url[i] != '?' && url[i] != '#'
        }),
{
    let marks = seq!['?', '#'];
    let clean = trimmed(site_url);
    let part = before_any(clean, marks);
    lemma_trim_start(site_url);
    lemma_trim_end_is_prefix(trim_start(site_url));
    lemma_index_of_any(clean, marks);
    lemma_trim_end_of(part, '/');
    let url = bare_url(site_url);
    assert forall|i: int| 0 <= i < url.len() implies #[trigger] url[i] != '?' && url[i] != '#' by {
        assert(url[i] == clean[i]);
        assert(marks[0] == '?' && marks[1] == '#');
        assert(!marks.contains(clean[i]));
    }
}

proof fn lemma_bare_stays(page: Seq<char>)
    requires
        page.len() > 0,
        !white(page[0]),
        !white(page.last()),
        page.last() != '/',
        forall|i: int| 0 <= i < page.len() ==> #[trigger] page[i] != '?' && page[i] != '#',
    ensures
        bare_url(page) == page,
{
    let marks = seq!['?', '#'];
    assert(trimmed(page) == page);
    assert forall|j: int| 0 <= j < page.len() implies !marks.contains(#[trigger] page[j]) by {
        assert(page[j] != '?' && page[j] != '#');
    }
    lemma_index_of_any_is(page, marks, page.len() as int);
    assert(page.take(page.len() as int) =~= page);
}

proof fn lemma_origin(url: Seq<char>)
    ensures
        0 <= authority_start(url) <= path_start(url) <= url.len(),
        path_start(url) < url.len() ==> url[path_start(url)] == '/',
        forall|j: int| authority_start(url) <= j < path_start(url) ==> #[trigger] url[j] != '/',
{
    reveal_strlit("://");
    let start = authority_start(url);
    lemma_find_from(url, "://"@, 0);
    let rest = url.skip(start);
    lemma_index_of(rest, '/');
    assert forall|j: int| start <= j < path_start(url) implies #[trigger] url[j] != '/' by {
        assert(rest[j - start] == url[j]);
    }
}

/// An address that goes on with a slash behind the origin of another one has that origin.
proof fn lemma_same_origin(url: Seq<char>, page: Seq<char>)
    requires
        path_start(url) < page.len(),
        page.take(path_start(url)) == url.take(path_start(url)),
        page[path_start(url)] == '/',
        path_start(url) + 1 < page.len() ==> (page[path_start(url) + 1] != '/' || find_from(
            url,
            "://"@,
            0,
        ) is Some),
        find_from(url, "://"@, 0) is None ==> forall|j: int|
            path_start(url) <= j < page.len() ==> #[trigger] page[j] != ':',
    ensures
        path_start(page) == path_start(url),
        authority_start(page) == authority_start(url),
        find_from(page, "://"@, 0) == find_from(url, "://"@, 0),
{
    reveal_strlit("://");
    let mark = "://"@;
    let k = path_start(url);
    let start = authority_start(url);
    lemma_origin(url);
    lemma_find_from(url, mark, 0);
    lemma_find_from(page, mark, 0);
    assert forall|j: int| 0 <= j < k implies page[j] == url[j] by {
        assert(page.take(k)[j] == url.take(k)[j]);
    }
    match find_from(url, mark, 0) {
        Some(m) => {
            assert(page.subrange(m, m + 3) =~= url.subrange(m, m + 3));
            assert forall|j: int| 0 <= j < m implies !occurs_at(page, mark, j) by {
                if occurs_at(page, mark, j) {
                    assert(page.subrange(j, j + 3) =~= url.subrange(j, j + 3));
                    assert(occurs_at(url, mark, j));
                }
            }
            lemma_find_from_is(page, mark, m);
        },
        None => {
            assert forall|j: int| 0 <= j implies !occurs_at(page, mark, j) by {
                if occurs_at(page, mark, j) {
                    let found = page.subrange(j, j + 3);
                    assert(found[0] == ':' && found[1] == '/' && found[2] == '/');
                    assert(page[j] == ':' && page[j + 1] == '/' && page[j + 2] == '/');
                    if j + 1 < k {
                        assert(url[j + 1] == '/');
                    }
                    assert(j + 1 == k || j >= k);
                    if j + 1 == k {
                        assert(page[k + 1] == '/');
                    }
                }
            }
            if find_from(page, mark, 0) is Some {
                assert(occurs_at(page, mark, find_from(page, mark, 0)->0));
            }
        },
    }
    let rest = page.skip(start);
    assert forall|j: int| 0 <= j < k - start implies rest[j] != '/' by {
        assert(rest[j] == url[j + start]);
    }
    assert(rest[k - start] == '/');
    lemma_index_of_is(rest, '/', k - start);
}

proof fn lemma_page_parts(a: SigninAdapter, site_url: Seq<char>)
    ensures
        ({
            let url = bare_url(site_url);
            let page = signin_page(a, site_url);
            let k = path_start(url);
            &&& k <= page.len()
            &&& page.take(k) == url.take(k)
            &&& k < page.len() ==> page[k] == '/'
        }),
{
    let url = bare_url(site_url);
    let page = signin_page(a, site_url);
    let k = path_start(url);
    reveal_strlit("/account/economy");
    reveal_strlit("/attendance.php");
    lemma_origin(url);
    lemma_last_index_of(url, '/');
    assert(page.take(k) =~= url.take(k));
}

/// The sign-in page of a sign-in page is that page again.
pub proof fn signin_page_is_its_own(a: SigninAdapter, site_url: Seq<char>)
    ensures
        signin_page(a, signin_page(a, site_url)) == signin_page(a, site_url),
{
    let url = bare_url(site_url);
    let page = signin_page(a, site_url);
    let file = "attendance.php"@;
    reveal_strlit("attendance.php");
    reveal_strlit("/attendance.php");
    reveal_strlit("/account/economy");
    lemma_bare_url(site_url);
    lemma_origin(url);
    lemma_last_index_of(url, '/');
    if has_suffix(lowered(url), file) {
        let low = lowered(url);
        let n = (low.len() - file.len()) as int;
        assert(low.skip(n)[13] == file[13]);
        assert(lower(url[url.len() - 1]) == 'p');
        lemma_bare_stays(url);
    } else if a == SigninAdapter::Rousi {
        let k = path_start(url);
        let tail = "/account/economy"@;
        assert(page =~= url.take(k) + tail);
        assert forall|i: int| 0 <= i < page.len() implies #[trigger] page[i] != '?' && page[i]
            != '#' by {
            if i < k {
                assert(page[i] == url[i]);
            } else {
                assert(page[i] == tail[i - k]);
            }
        }
        assert(page.last() == 'y');
        lemma_bare_stays(page);
        assert(page.take(k) =~= url.take(k));
        assert(page[k] == '/' && page[k + 1] == 'a');
        assert forall|j: int| k <= j < page.len() implies #[trigger] page[j] != ':' by {
            assert(page[j] == tail[j - k]);
        }
        lemma_same_origin(url, page);
        let low = lowered(page);
        if has_suffix(low, file) {
            let n = (low.len() - file.len()) as int;
            assert(low.skip(n)[13] == file[13]);
            assert(low[low.len() - 1] == lower('y'));
        }
    } else {
        let dir = directory_of(url);
        let tail = "/attendance.php"@;
        assert(page =~= dir + tail);
        assert(dir.len() <= url.len() && dir =~= url.take(dir.len() as int));
        assert forall|i: int| 0 <= i < page.len() implies #[trigger] page[i] != '?' && page[i]
            != '#' by {
            if i < dir.len() {
                assert(page[i] == url[i]);
            } else {
                assert(page[i] == tail[i - dir.len()]);
            }
        }
        assert(page.last() == 'p');
        lemma_bare_stays(page);
        let low = lowered(page);
        let n = (low.len() - file.len()) as int;
        assert(low.skip(n) =~= file) by {
            assert forall|j: int| 0 <= j < 14 implies low.skip(n)[j] == file[j] by {
                assert(page[n + j] == tail[j + 1]);
                assert(tail[j + 1] == file[j]);
            }
        }
    }
}

/// The sign-in page of a site that does not link to one is on the site, where its address
/// names a host.
pub proof fn signin_page_is_on_the_site(a: SigninAdapter, site_url: Seq<char>)
    requires
        signin_host(bare_url(site_url)) is Some,
    ensures
        on_same_site(signin_page(a, site_url), bare_url(site_url)),
{
    let url = bare_url(site_url);
    let page = signin_page(a, site_url);
    let k = path_start(url);
    let marks = seq!['/', '?', '#'];
    reveal_strlit("://");
    lemma_page_parts(a, site_url);
    lemma_origin(url);
    lemma_bare_url(site_url);
    if page == url {
    } else {
        assert(k < page.len()) by {
            reveal_strlit("/account/economy");
            reveal_strlit("/attendance.php");
            lemma_last_index_of(url, '/');
        }
        lemma_same_origin(url, page);
        let start = authority_start(url);
        assert forall|u: Seq<char>| (u == url || u == page) implies before_any(
            #[trigger] u.skip(start),
            marks,
        ) == url.subrange(start, k) by {
            let rest = u.skip(start);
            assert forall|j: int| 0 <= j < k - start implies !marks.contains(#[trigger] rest[j]) by {
                assert(u.take(k)[j + start] == url.take(k)[j + start]);
                assert(rest[j] == url[j + start]);
            }
            assert(marks[0] == '/');
            lemma_index_of_any_is(rest, marks, k - start);
            assert(rest.take(k - start) =~= url.subrange(start, k)) by {
                assert forall|j: int| 0 <= j < k - start implies rest[j] == url[j + start] by {
                    assert(u.take(k)[j + start] == url.take(k)[j + start]);
                }
            }
        }
        assert(before_any(url.skip(start), marks) == before_any(page.skip(start), marks));
    }
}

/// Whether an address names a host: it has no white space around it, a query or fragment does
/// not begin before the host, and the host is not empty.
pub open spec fn names_host(url: Seq<char>) -> bool {
    trimmed(url) == url && (find_from(url, "://"@, 0) matches Some(k) && k + 3 < url.len() && !seq![
        '/',
        '?',
        '#',
    ].contains(url[k + 3]) && index_of_any(url, seq!['?', '#']) > k + 3)
}

/// Leaving query, fragment and slashes at the end away does not change the host of an address
/// that names one.
pub proof fn bare_address_keeps_the_host(site_url: Seq<char>)
    requires
        names_host(site_url),
    ensures
        signin_host(bare_url(site_url)) == signin_host(site_url),
        signin_host(site_url) is Some,
{
    let mark = "://"@;
    reveal_strlit("://");
    let k = find_from(site_url, mark, 0)->0;
    let marks = seq!['?', '#'];
    let ends = seq!['/', '?', '#'];
    let url = bare_url(site_url);
    let n = index_of_any(site_url, marks);
    let part = before_any(site_url, marks);
    lemma_find_from(site_url, mark, 0);
    lemma_index_of_any(site_url, marks);
    lemma_trim_end_of(part, '/');
    assert(ends[0] == '/' && ends[1] == '?' && ends[2] == '#');
    assert(marks[0] == '?' && marks[1] == '#');
    assert(part[k + 3] == site_url[k + 3]);
    if url.len() <= k + 3 {
        assert(part[k + 3] == '/');
    }
    assert(url =~= site_url.take(url.len() as int));
    assert(url.subrange(k, k + 3) =~= site_url.subrange(k, k + 3));
    assert forall|j: int| 0 <= j < k implies !occurs_at(url, mark, j) by {
        if occurs_at(url, mark, j) {
            assert(url.subrange(j, j + 3) =~= site_url.subrange(j, j + 3));
            assert(occurs_at(site_url, mark, j));
        }
    }
    lemma_find_from_is(url, mark, k);
    let rest = url.skip(k + 3);
    let whole = site_url.skip(k + 3);
    lemma_index_of_any(rest, ends);
    let m = index_of_any(rest, ends);
    assert forall|j: int| 0 <= j < m implies !ends.contains(#[trigger] whole[j]) by {
        assert(whole[j] == rest[j]);
    }
    assert(m < whole.len() ==> ends.contains(whole[m])) by {
        if m < rest.len() {
            assert(whole[m] == rest[m]);
        } else if m < whole.len() {
            if url.len() < part.len() {
                assert(part[url.len() as int] == '/');
                assert(whole[m] == part[url.len() as int]);
            } else {
                assert(whole[m] == site_url[n]);
                assert(marks.contains(site_url[n]));
            }
        }
    }
    lemma_index_of_any_is(whole, ends, m);
    assert(rest.take(m) =~= whole.take(m));
}

/// The summary of a sign-in tells its message, and the days in a row, the days in all and the
/// reward as far as they are known.
pub proof fn summary_tells_what_is_known(v: SigninView)
    ensures
        ({
            let text = joined(v.summary_parts(), "，"@);
            &&& contains_text(text, v.message)
            &&& v.consecutive_days matches Some(n) ==> contains_text(
                text,
                "连续签到 "@ + decimal(n as nat) + " 天"@,
            )
            &&& v.total_days matches Some(n) ==> contains_text(
                text,
                "累计签到 "@ + decimal(n as nat) + " 次"@,
            )
            &&& v.reward matches Some(t) ==> (t.len() > 0 ==> contains_text(
                text,
                "本次奖励 "@ + t,
            ))
        }),
{
    let parts = v.summary_parts();
    joined_text_holds_its_parts(parts, "，"@, 0);
    assert(parts[0] == v.message);
    let second: int = if v.consecutive_days is Some {
        1
    } else {
        0
    };
    let third: int = if v.total_days is Some {
        second + 1
    } else {
        second
    };
    if let Some(n) = v.consecutive_days {
        assert(parts[1] == "连续签到 "@ + decimal(n as nat) + " 天"@);
        joined_text_holds_its_parts(parts, "，"@, 1);
    }
    if let Some(n) = v.total_days {
        assert(parts[third] == "累计签到 "@ + decimal(n as nat) + " 次"@);
        joined_text_holds_its_parts(parts, "，"@, third);
    }
    if let Some(t) = v.reward {
        if t.len() > 0 {
            assert(parts[third + 1] == "本次奖励 "@ + t);
            joined_text_holds_its_parts(parts, "，"@, third + 1);
        }
    }
}

/// The result of an interface is a success where it tells of one, and is already done where it
/// tells of that alone; what it tells of days and reward is kept, and its message where it has
/// one.
pub proof fn api_result_keeps_what_was_told(a: ApiSigninState)
    ensures
        ({
            let v = api_result(a);
            &&& v.status == SigninStatus::Success <==> a.success
            &&& v.status == SigninStatus::AlreadySigned <==> !a.success && a.already_signed
            &&& v.status == SigninStatus::Failed <==> !a.success && !a.already_signed
            &&& v.reward == opt_text(a.reward)
            &&& v.total_days == a.total_days
            &&& v.consecutive_days == a.consecutive_days
            &&& a.message@.len() > 0 ==> v.message == a.message@
        }),
{
}

/// The result that a page reports has the status that it is read for, and what the page tells
/// of days and reward; its message where it has one.
pub proof fn page_result_keeps_what_was_shown(status: SigninStatus, p: PageState)
    ensures
        ({
            let v = page_result(status, p);
            &&& v.status == status
            &&& v.reward == opt_text(p.reward)
            &&& v.total_days == p.total_days
            &&& v.consecutive_days == p.consecutive_days
            &&& p.message@.len() > 0 ==> v.message == p.message@
        }),
{
}

/// The interface of a site is asked exactly where its page failed and it has one that may be
/// asked without the page; a success there is the result, as it is.
pub proof fn failed_page_falls_back_to_the_interface(
    a: SigninAdapter,
    page: SigninView,
    v: SigninView,
)
    ensures
        fallback_after(a, page) is Some <==> page.status == SigninStatus::Failed && (a
            == SigninAdapter::PterClub || a == SigninAdapter::Yema || a == SigninAdapter::Hares || a
            == SigninAdapter::Pting),
        fallback_after(a, page) matches Some(k) ==> match k {
            ApiSigninKind::PterClub => a == SigninAdapter::PterClub,
            ApiSigninKind::Yema => a == SigninAdapter::Yema,
            ApiSigninKind::Hares => a == SigninAdapter::Hares,
            ApiSigninKind::Rousi => a == SigninAdapter::Rousi,
            ApiSigninKind::Pting => a == SigninAdapter::Pting,
        },
        v.status != SigninStatus::Failed ==> page_then_api(page, Ok(v)) == v,
        v.status == SigninStatus::Failed ==> page_then_api(page, Ok(v)).status
            == SigninStatus::Failed,
        first_route(a) is Api <==> a == SigninAdapter::Pting,
{
}

/// Which way a site is signed in does not depend on the case of its address.
pub proof fn signin_adapter_does_not_mind_case(url: Seq<char>)
    ensures
        signin_adapter_for(lowered(url)) == signin_adapter_for(url),
{
    crate::text::lower_case_changes_capitals(url);
}

} // verus!
