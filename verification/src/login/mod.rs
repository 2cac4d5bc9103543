//! Logging in to the supported kinds of sites.

pub mod common;
pub mod hdkylin;
pub mod mteam;
pub mod nexusphp;
pub mod pting;
pub mod sixcloud;

use crate::login::nexusphp::{
    nexus_failure_message, nexus_failure_text, NexusEnd, NexusFailure,
};
use crate::text::{chars_of, contains_str, contains_text, lowered, to_lower};
use vstd::prelude::*;

verus! {

/// The login flow of a site.
#[derive(Debug, Clone, Copy, PartialEq, Eq, Structural)]
pub enum SiteAdapter {
    MTeam,
    Hdkylin,
    NexusPhp,
}

/// The login flow of the site at an address: a site with a flow of its own is known
/// by its domain, all others are taken for NexusPHP.
pub open spec fn adapter_for(url: Seq<char>) -> SiteAdapter {
    if contains_text(lowered(url), "kp.m-team.cc"@) {
        SiteAdapter::MTeam
    } else if contains_text(lowered(url), "hdkyl.in"@) {
        SiteAdapter::Hdkylin
    } else {
        SiteAdapter::NexusPhp
    }
}

impl SiteAdapter {
    /// The login flow of the site at an address.
    pub fn from_url(url: &str) -> (r: SiteAdapter)
        ensures
            r == adapter_for(url@),
    {
        let chars: Vec<char> = chars_of(url);
        let normalized: Vec<char> = to_lower(chars.as_slice());
        if contains_str(normalized.as_slice(), "kp.m-team.cc") {
            SiteAdapter::MTeam
        } else if contains_str(normalized.as_slice(), "hdkyl.in") {
            SiteAdapter::Hdkylin
        } else {
            SiteAdapter::NexusPhp
        }
    }
}

/// What a login needs to know.
#[derive(Debug)]
pub struct LoginRequest<'a> {
    pub site_name: &'a str,
    pub site_url: &'a str,
    pub username: &'a str,
    pub password: &'a str,
    pub totp_secret: Option<&'a str>,
    pub min_remaining_attempts: u32,
    /// The address of the recognition service and how often to try it.
    pub ocr_config: Option<(String, u8)>,
}

#[derive(Debug, Clone, Copy, PartialEq, Eq, Structural)]
pub enum LoginState {
    LoggedIn,
    AlreadyLoggedIn,
}

#[derive(Debug, Clone, Copy, PartialEq, Eq, Structural)]
pub struct LoginOutcome {
    pub state: LoginState,
    pub remaining_attempts: Option<u32>,
}

#[derive(Debug)]
pub struct LoginError {
    pub message: String,
    pub remaining_attempts: Option<u32>,
}

/// The outcome of a login, or the text of its error and the attempts left.
pub open spec fn login_result(r: Result<LoginOutcome, LoginError>) -> Result<
    LoginOutcome,
    (Seq<char>, Option<u32>),
> {
    match r {
        Ok(o) => Ok(o),
        Err(e) => Err((e.message@, e.remaining_attempts)),
    }
}

/// The outcome of a flow that does not count attempts; `logged_in` tells whether
/// the account is newly logged in.
pub open spec fn plain_outcome(logged_in: bool) -> LoginOutcome {
    LoginOutcome {
        state: if logged_in {
            LoginState::LoggedIn
        } else {
            LoginState::AlreadyLoggedIn
        },
        remaining_attempts: None,
    }
}

/// What a flow that does not count attempts came to.
pub fn outcome_of_plain(result: Result<bool, String>) -> (r: Result<LoginOutcome, LoginError>)
    ensures
        login_result(r) == (match result {
            Ok(logged_in) => Ok(plain_outcome(logged_in)),
            Err(message) => Err((message@, None::<u32>)),
        }),
{
    match result {
        Ok(logged_in) => Ok(
            LoginOutcome {
                state: if logged_in {
                    LoginState::LoggedIn
                } else {
                    LoginState::AlreadyLoggedIn
                },
                remaining_attempts: None,
            },
        ),
        Err(message) => Err(LoginError { message, remaining_attempts: None }),
    }
}

/// What a NexusPHP login came to; `detail` is the text of a step outside it.
pub open spec fn nexus_result(
    end: NexusEnd,
    remaining: Option<u32>,
    site: Seq<char>,
    min_remaining: u32,
    detail: Seq<char>,
) -> Result<LoginOutcome, (Seq<char>, Option<u32>)> {
    match end {
        NexusEnd::LoggedIn => Ok(
            LoginOutcome { state: LoginState::LoggedIn, remaining_attempts: remaining },
        ),
        NexusEnd::AlreadyLoggedIn => Ok(
            LoginOutcome { state: LoginState::AlreadyLoggedIn, remaining_attempts: remaining },
        ),
        NexusEnd::Failed(f) => Err((nexus_failure_text(f, site, min_remaining, detail), remaining)),
    }
}

/// What a NexusPHP login came to; `detail` is the text of a step outside it.
pub fn outcome_of_nexus(
    end: NexusEnd,
    remaining: Option<u32>,
    site: &str,
    min_remaining: u32,
    detail: &str,
) -> (r: Result<LoginOutcome, LoginError>)
    ensures
        login_result(r) == nexus_result(end, remaining, site@, min_remaining, detail@),
{
    match end {
        NexusEnd::LoggedIn => Ok(
            LoginOutcome { state: LoginState::LoggedIn, remaining_attempts: remaining },
        ),
        NexusEnd::AlreadyLoggedIn => Ok(
            LoginOutcome { state: LoginState::AlreadyLoggedIn, remaining_attempts: remaining },
        ),
        NexusEnd::Failed(f) => Err(
            LoginError {
                message: nexus_failure_message(f, site, min_remaining, detail),
                remaining_attempts: remaining,
            },
        ),
    }
}

/// What filling in a login form again came to: it is done once only the captcha is
/// missing, and then tells the attempts left.
pub open spec fn refill_shown(result: Result<LoginOutcome, (Seq<char>, Option<u32>)>) -> Result<
    Option<u32>,
    Seq<char>,
> {
    match result {
        Ok(_) => Err("NexusPHP 当前不再需要图片验证码"@),
        Err((message, remaining)) => if contains_text(message, "登录信息已填写"@) {
            Ok(remaining)
        } else {
            Err("重新填写 NexusPHP 登录信息失败："@ + message)
        },
    }
}

/// What filling in a login form again came to.
pub fn refill_result(result: &Result<LoginOutcome, LoginError>) -> (r: Result<
    Option<u32>,
    String,
>)
    ensures
        match r {
            Ok(n) => refill_shown(login_result(*result)) == Ok::<Option<u32>, Seq<char>>(n),
            Err(e) => refill_shown(login_result(*result)) == Err::<Option<u32>, Seq<char>>(e@),
        },
{
    match result {
        Ok(_) => Err("NexusPHP 当前不再需要图片验证码".to_string()),
        Err(e) => {
            let chars: Vec<char> = chars_of(e.message.as_str());
            if contains_str(chars.as_slice(), "登录信息已填写") {
                Ok(e.remaining_attempts)
            } else {
                Err("重新填写 NexusPHP 登录信息失败：".to_string().concat(e.message.as_str()))
            }
        },
    }
}

/// A login form that waits for its captcha by hand counts as filled in again.
pub proof fn waiting_for_captcha_is_refilled(
    site: Seq<char>,
    min_remaining: u32,
    shown: Option<u32>,
    remaining: Option<u32>,
)
    ensures
        refill_shown(
            nexus_result(
                NexusEnd::Failed(NexusFailure::CaptchaByHand { remaining: shown }),
                remaining,
                site,
                min_remaining,
                Seq::empty(),
            ),
        ) == Ok::<Option<u32>, Seq<char>>(remaining),
{
    let f = NexusFailure::CaptchaByHand { remaining: shown };
    let message = nexus_failure_text(f, site, min_remaining, Seq::empty());
    let mark = "登录信息已填写"@;
    reveal_strlit("登录信息已填写");
    reveal_strlit(" 登录信息已填写");
    let k = site.len() + 1;
    assert(message.subrange(k as int, (k + mark.len()) as int) =~= mark);
    assert(crate::text::occurs_at(message, mark, k as int));
}

/// A login that ended well is reported as such, and one that failed is not; the number of
/// attempts left goes along in each case.
pub proof fn login_report_tells_the_end(
    end: NexusEnd,
    remaining: Option<u32>,
    site: Seq<char>,
    min_remaining: u32,
    detail: Seq<char>,
)
    ensures
        ({
            let r = nexus_result(end, remaining, site, min_remaining, detail);
            &&& r is Err <==> end is Failed
            &&& r matches Ok(o) ==> o.remaining_attempts == remaining && (o.state
                == LoginState::LoggedIn <==> end == NexusEnd::LoggedIn) && (o.state
                == LoginState::AlreadyLoggedIn <==> end == NexusEnd::AlreadyLoggedIn)
            &&& r matches Err(e) ==> e.1 == remaining
        }),
{
}

/// Which way a site is logged in to does not depend on the case of its address.
pub proof fn adapter_does_not_mind_case(url: Seq<char>, other: Seq<char>)
    requires
        lowered(url) == lowered(other),
    ensures
        adapter_for(url) == adapter_for(other),
        adapter_for(url) == SiteAdapter::MTeam <==> contains_text(lowered(url), "kp.m-team.cc"@),
        adapter_for(url) == SiteAdapter::Hdkylin ==> contains_text(lowered(url), "hdkyl.in"@),
        adapter_for(url) == SiteAdapter::NexusPhp ==> !contains_text(lowered(url), "hdkyl.in"@),
{
}

} // verus!
