//! What the login flows of all sites share: reading page states out of replies of
//! the browser, typing like a person, and waiting for a new captcha.

use crate::json::{first_entry_counts, json_quoted, opt_json, quote_json, Json, JsonView};
use crate::text::{chars_of, string_of, text_result};
use vstd::prelude::*;

verus! {

/// What a single-page login shows.
#[derive(Debug)]
pub struct LoginPageState {
    pub host: String,
    pub path: String,
    pub ready: bool,
    pub has_login_form: bool,
    pub has_otp: bool,
    pub logged_in: bool,
}

/// What the login page behind a web application firewall shows.
#[derive(Debug)]
pub struct HdkLoginPageState {
    pub path: String,
    pub ready: bool,
    pub has_login_form: bool,
    pub has_otp: bool,
    pub has_captcha: bool,
    pub challenge: bool,
    pub blocked_debug: bool,
}

/// What a NexusPHP page with a captcha shows.
#[derive(Debug)]
pub struct NexusCaptchaPageState {
    pub path: String,
    pub ready: bool,
    pub has_login_form: bool,
    pub has_captcha: bool,
    pub challenge: bool,
    pub remaining_attempts: Option<u32>,
}

/// What the login page of a NexusPHP site shows.
#[derive(Debug)]
pub struct NexusLoginPageState {
    pub path: String,
    pub ready: bool,
    pub has_login_form: bool,
    pub has_captcha: bool,
    pub has_two_factor: bool,
    pub challenge: bool,
    pub logged_in: bool,
    pub is_failure_page: bool,
    pub remaining_attempts: Option<u32>,
}

/// The state of a human verification widget on the page.
#[derive(Debug, Clone, Copy, PartialEq, Eq, Structural)]
pub struct ChallengeProbe {
    pub has_challenge: bool,
    pub solved: bool,
}

/// The fields of a plain login form.
#[derive(Debug, Clone, Copy, PartialEq, Eq, Structural)]
pub enum FormField {
    Username,
    Password,
}

/// What a login flow asks to be done next.
#[derive(Debug, Clone, Copy, PartialEq, Eq, Structural)]
pub enum FormAction {
    Sleep { millis: u64 },
    /// Read the page state after a pause.
    ReadPage { after_millis: u64 },
    /// Type into a field after a pause, with a delay between the keys.
    Type { field: FormField, pause_min: u64, pause_max: u64, key_min: u64, key_max: u64 },
    /// Click the login button after a pause.
    Click { pause_min: u64, pause_max: u64 },
    /// Compute the one-time code.
    MakeCode,
    /// Fill in and submit the one-time code after a pause.
    SubmitOtp { pause_min: u64, pause_max: u64 },
    /// Open the login page.
    OpenLogin,
    /// Go back to the page that the login was started from.
    OpenTarget,
    Finish,
}

/// What came of an action.
#[derive(Debug)]
pub enum FormEvent<P> {
    /// A step outside the flow succeeded or failed.
    Outside(bool),
    Slept,
    Page(Option<P>),
    /// Typing, clicking or submitting found its element or not.
    Acted(bool),
}

/// Whether `event` is of the kind that `action` causes.
pub open spec fn form_event_fits<P>(action: FormAction, event: FormEvent<P>) -> bool {
    match action {
        FormAction::Sleep { .. } => event is Slept,
        FormAction::ReadPage { .. } => event is Page,
        FormAction::Type { .. } => event is Acted,
        FormAction::Click { .. } => event is Acted,
        FormAction::MakeCode => event is Outside,
        FormAction::SubmitOtp { .. } => event is Acted,
        FormAction::OpenLogin => event is Outside,
        FormAction::OpenTarget => event is Outside,
        FormAction::Finish => false,
    }
}

/// The value that a `Runtime.evaluate` reply carries.
pub open spec fn evaluated(response: JsonView) -> Option<JsonView> {
    match response.at("result"@) {
        Some(outer) => match outer.at("result"@) {
            Some(inner) => inner.at("value"@),
            None => None,
        },
        None => None,
    }
}

/// The value that a `Runtime.evaluate` reply carries.
pub fn evaluated_value(response: &Json) -> (r: Option<&Json>)
    ensures
        opt_json(r) == evaluated(response@),
{
    match response.get("result") {
        Some(outer) => match outer.get("result") {
            Some(inner) => inner.get("value"),
            None => None,
        },
        None => None,
    }
}

/// The truth value under `key` in the value that a reply carries.
pub open spec fn evaluated_flag(response: JsonView, key: Seq<char>) -> Option<bool> {
    match evaluated(response) {
        Some(v) => v.truth_at(key),
        None => None,
    }
}

/// The truth value under `key` in the value that a reply carries.
pub fn runtime_object_bool(response: &Json, key: &str) -> (r: Option<bool>)
    ensures
        r == evaluated_flag(response@, key@),
{
    match evaluated_value(response) {
        Some(v) => v.bool_at(key),
        None => None,
    }
}

/// Whether a reply carries the value `true`.
pub fn runtime_bool(response: &Json) -> (r: bool)
    ensures
        r == (evaluated(response@) == Some(JsonView::Bool(true))),
{
    match evaluated_value(response) {
        Some(v) => match v.as_bool() {
            Some(b) => b,
            None => false,
        },
        None => false,
    }
}

/// The number of login attempts left that a page shows.
pub open spec fn attempts_shown(v: JsonView) -> Option<u32> {
    match v.unsigned_at("remainingAttempts"@) {
        Some(n) => Some(#[verifier::truncate] (n as u32)),
        None => None,
    }
}

fn attempts_in(v: &Json) -> (r: Option<u32>)
    ensures
        r == attempts_shown(v@),
{
    match v.u64_at("remainingAttempts") {
        Some(n) => Some(#[verifier::truncate] (n as u32)),
        None => None,
    }
}

/// Whether every mandatory field of a NexusPHP captcha page is there.
pub open spec fn nexus_captcha_page_complete(v: JsonView) -> bool {
    &&& v.text_at("path"@) is Some
    &&& v.truth_at("ready"@) is Some
    &&& v.truth_at("hasLoginForm"@) is Some
    &&& v.truth_at("hasCaptcha"@) is Some
    &&& v.truth_at("challenge"@) is Some
}

/// Whether `p` is what `v` says of a NexusPHP captcha page.
pub open spec fn nexus_captcha_page_is(v: JsonView, p: NexusCaptchaPageState) -> bool {
    &&& v.text_at("path"@) == Some(p.path@)
    &&& v.truth_at("ready"@) == Some(p.ready)
    &&& v.truth_at("hasLoginForm"@) == Some(p.has_login_form)
    &&& v.truth_at("hasCaptcha"@) == Some(p.has_captcha)
    &&& v.truth_at("challenge"@) == Some(p.challenge)
    &&& p.remaining_attempts == attempts_shown(v)
}

/// Reads the state of a NexusPHP captcha page.
pub fn nexus_captcha_page_state(response: &Json) -> (r: Option<NexusCaptchaPageState>)
    ensures
        r is Some <==> (evaluated(response@) matches Some(v) && nexus_captcha_page_complete(v)),
        r matches Some(p) ==> nexus_captcha_page_is(evaluated(response@)->0, p),
{
    let v: &Json = evaluated_value(response)?;
    let path: String = v.str_at("path")?.to_string();
    let ready: bool = v.bool_at("ready")?;
    let has_login_form: bool = v.bool_at("hasLoginForm")?;
    let has_captcha: bool = v.bool_at("hasCaptcha")?;
    let challenge: bool = v.bool_at("challenge")?;
    Some(
        NexusCaptchaPageState {
            path,
            ready,
            has_login_form,
            has_captcha,
            challenge,
            remaining_attempts: attempts_in(v),
        },
    )
}

/// Whether every mandatory field of a NexusPHP login page is there.
pub open spec fn nexus_login_page_complete(v: JsonView) -> bool {
    &&& v.text_at("path"@) is Some
    &&& v.truth_at("ready"@) is Some
    &&& v.truth_at("hasLoginForm"@) is Some
    &&& v.truth_at("hasCaptcha"@) is Some
    &&& v.truth_at("hasTwoFactor"@) is Some
    &&& v.truth_at("challenge"@) is Some
    &&& v.truth_at("loggedIn"@) is Some
    &&& v.truth_at("isFailurePage"@) is Some
}

/// Whether `p` is what `v` says of a NexusPHP login page.
pub open spec fn nexus_login_page_is(v: JsonView, p: NexusLoginPageState) -> bool {
    &&& v.text_at("path"@) == Some(p.path@)
    &&& v.truth_at("ready"@) == Some(p.ready)
    &&& v.truth_at("hasLoginForm"@) == Some(p.has_login_form)
    &&& v.truth_at("hasCaptcha"@) == Some(p.has_captcha)
    &&& v.truth_at("hasTwoFactor"@) == Some(p.has_two_factor)
    &&& v.truth_at("challenge"@) == Some(p.challenge)
    &&& v.truth_at("loggedIn"@) == Some(p.logged_in)
    &&& v.truth_at("isFailurePage"@) == Some(p.is_failure_page)
    &&& p.remaining_attempts == attempts_shown(v)
}

/// Reads the state of a NexusPHP login page.
pub fn nexus_login_page_state(response: &Json) -> (r: Option<NexusLoginPageState>)
    ensures
        r is Some <==> (evaluated(response@) matches Some(v) && nexus_login_page_complete(v)),
        r matches Some(p) ==> nexus_login_page_is(evaluated(response@)->0, p),
{
    let v: &Json = evaluated_value(response)?;
    let path: String = v.str_at("path")?.to_string();
    let ready: bool = v.bool_at("ready")?;
    let has_login_form: bool = v.bool_at("hasLoginForm")?;
    let has_captcha: bool = v.bool_at("hasCaptcha")?;
    let has_two_factor: bool = v.bool_at("hasTwoFactor")?;
    let challenge: bool = v.bool_at("challenge")?;
    let logged_in: bool = v.bool_at("loggedIn")?;
    let is_failure_page: bool = v.bool_at("isFailurePage")?;
    Some(
        NexusLoginPageState {
            path,
            ready,
            has_login_form,
            has_captcha,
            has_two_factor,
            challenge,
            logged_in,
            is_failure_page,
            remaining_attempts: attempts_in(v),
        },
    )
}

/// Whether every field of a firewalled login page is there.
pub open spec fn hdk_login_page_complete(v: JsonView) -> bool {
    &&& v.text_at("path"@) is Some
    &&& v.truth_at("ready"@) is Some
    &&& v.truth_at("hasLoginForm"@) is Some
    &&& v.truth_at("hasOtp"@) is Some
    &&& v.truth_at("hasCaptcha"@) is Some
    &&& v.truth_at("challenge"@) is Some
    &&& v.truth_at("blockedDebug"@) is Some
}

/// Whether `p` is what `v` says of a firewalled login page.
pub open spec fn hdk_login_page_is(v: JsonView, p: HdkLoginPageState) -> bool {
    &&& v.text_at("path"@) == Some(p.path@)
    &&& v.truth_at("ready"@) == Some(p.ready)
    &&& v.truth_at("hasLoginForm"@) == Some(p.has_login_form)
    &&& v.truth_at("hasOtp"@) == Some(p.has_otp)
    &&& v.truth_at("hasCaptcha"@) == Some(p.has_captcha)
    &&& v.truth_at("challenge"@) == Some(p.challenge)
    &&& v.truth_at("blockedDebug"@) == Some(p.blocked_debug)
}

/// Reads the state of a firewalled login page.
pub fn hdk_login_page_state(response: &Json) -> (r: Option<HdkLoginPageState>)
    ensures
        r is Some <==> (evaluated(response@) matches Some(v) && hdk_login_page_complete(v)),
        r matches Some(p) ==> hdk_login_page_is(evaluated(response@)->0, p),
{
    let v: &Json = evaluated_value(response)?;
    let path: String = v.str_at("path")?.to_string();
    let ready: bool = v.bool_at("ready")?;
    let has_login_form: bool = v.bool_at("hasLoginForm")?;
    let has_otp: bool = v.bool_at("hasOtp")?;
    let has_captcha: bool = v.bool_at("hasCaptcha")?;
    let challenge: bool = v.bool_at("challenge")?;
    let blocked_debug: bool = v.bool_at("blockedDebug")?;
    Some(
        HdkLoginPageState {
            path,
            ready,
            has_login_form,
            has_otp,
            has_captcha,
            challenge,
            blocked_debug,
        },
    )
}

/// Whether every field of a single-page login is there.
pub open spec fn login_page_complete(v: JsonView) -> bool {
    &&& v.text_at("host"@) is Some
    &&& v.text_at("path"@) is Some
    &&& v.truth_at("ready"@) is Some
    &&& v.truth_at("hasLoginForm"@) is Some
    &&& v.truth_at("hasOtp"@) is Some
    &&& v.truth_at("loggedIn"@) is Some
}

/// Whether `p` is what `v` says of a single-page login.
pub open spec fn login_page_is(v: JsonView, p: LoginPageState) -> bool {
    &&& v.text_at("host"@) == Some(p.host@)
    &&& v.text_at("path"@) == Some(p.path@)
    &&& v.truth_at("ready"@) == Some(p.ready)
    &&& v.truth_at("hasLoginForm"@) == Some(p.has_login_form)
    &&& v.truth_at("hasOtp"@) == Some(p.has_otp)
    &&& v.truth_at("loggedIn"@) == Some(p.logged_in)
}

/// Reads the state of a single-page login.
pub fn login_page_state(response: &Json) -> (r: Option<LoginPageState>)
    ensures
        r is Some <==> (evaluated(response@) matches Some(v) && login_page_complete(v)),
        r matches Some(p) ==> login_page_is(evaluated(response@)->0, p),
{
    let v: &Json = evaluated_value(response)?;
    let host: String = v.str_at("host")?.to_string();
    let path: String = v.str_at("path")?.to_string();
    let ready: bool = v.bool_at("ready")?;
    let has_login_form: bool = v.bool_at("hasLoginForm")?;
    let has_otp: bool = v.bool_at("hasOtp")?;
    let logged_in: bool = v.bool_at("loggedIn")?;
    Some(LoginPageState { host, path, ready, has_login_form, has_otp, logged_in })
}

/// What a reply says of the human verification: without an answer on the widget
/// there is none, and without an answer on its solution it is solved.
pub open spec fn challenge_shown(response: JsonView) -> Option<ChallengeProbe> {
    match evaluated(response) {
        Some(v) => Some(
            ChallengeProbe {
                has_challenge: v.truth_at("hasChallenge"@) == Some(true),
                solved: v.truth_at("solved"@) != Some(false),
            },
        ),
        None => None,
    }
}

/// Reads what a reply says of the human verification.
pub fn challenge_probe(response: &Json) -> (r: Option<ChallengeProbe>)
    ensures
        r == challenge_shown(response@),
{
    match evaluated_value(response) {
        Some(v) => Some(
            ChallengeProbe {
                has_challenge: match v.bool_at("hasChallenge") {
                    Some(b) => b,
                    None => false,
                },
                solved: match v.bool_at("solved") {
                    Some(b) => b,
                    None => true,
                },
            },
        ),
        None => None,
    }
}

/// The captcha image in a reply, in base64, or why there is none; `missing` is the
/// text for a reply without a value.
pub open spec fn captcha_image_shown(response: JsonView, missing: Seq<char>) -> Result<
    Seq<char>,
    Seq<char>,
> {
    match evaluated(response) {
        None => Err(missing),
        Some(v) => if v.truth_at("ok"@) != Some(true) {
            Err("验证码图片尚未加载或无法截取"@)
        } else {
            match v.text_at("image"@) {
                Some(t) => Ok(t),
                None => Err("验证码截图数据为空"@),
            }
        },
    }
}

/// Reads the captcha image in a reply.
pub fn captcha_image(response: &Json, missing: &str) -> (r: Result<String, String>)
    ensures
        text_result(r) == captcha_image_shown(response@, missing@),
{
    match evaluated_value(response) {
        None => Err(missing.to_string()),
        Some(v) => {
            let ok: bool = match v.bool_at("ok") {
                Some(b) => b,
                None => false,
            };
            if !ok {
                return Err("验证码图片尚未加载或无法截取".to_string());
            }
            match v.str_at("image") {
                Some(t) => Ok(t.to_string()),
                None => Err("验证码截图数据为空".to_string()),
            }
        },
    }
}

/// Whether a reply says that a new captcha page was asked for (`Ok(true)`), that
/// the captcha is still on the page (`Ok(false)`), or that there is none.
pub open spec fn captcha_renewal_shown(response: JsonView) -> Result<bool, Seq<char>> {
    match evaluated(response) {
        None => Err("无法读取 NexusPHP 验证码页面状态"@),
        Some(v) => if v.truth_at("ok"@) != Some(true) {
            Err("当前页面没有可识别的验证码，也不是图片代码无效页面"@)
        } else {
            Ok(v.truth_at("renewed"@) == Some(true))
        },
    }
}

/// Reads whether a new captcha page was asked for.
pub fn captcha_renewal(response: &Json) -> (r: Result<bool, String>)
    ensures
        match r {
            Ok(b) => captcha_renewal_shown(response@) == Ok::<bool, Seq<char>>(b),
            Err(e) => captcha_renewal_shown(response@) == Err::<bool, Seq<char>>(e@),
        },
{
    match evaluated_value(response) {
        None => Err("无法读取 NexusPHP 验证码页面状态".to_string()),
        Some(v) => {
            let ok: bool = match v.bool_at("ok") {
                Some(b) => b,
                None => false,
            };
            if !ok {
                return Err(
                    "当前页面没有可识别的验证码，也不是图片代码无效页面".to_string(),
                );
            }
            match v.bool_at("renewed") {
                Some(b) => Ok(b),
                None => Ok(false),
            }
        },
    }
}

/// What to do while a new captcha page loads.
#[derive(Debug, Clone, Copy, PartialEq, Eq, Structural)]
pub enum RenewalStep {
    /// Pause, then read the page.
    Wait { millis: u64 },
    Renewed,
    TimedOut,
}

/// A new captcha page is looked for at most this many times.
pub const RENEWAL_STEPS: u32 = 40;

/// What is told when a new captcha was asked for and none came.
pub const RENEWAL_TIMED_OUT: &'static str = "已请求新的图片验证码，但登录页加载超时";

/// What to do after `step` looks at the page, the last of which showed `page`.
pub open spec fn renewal_after(step: u32, page: Option<NexusCaptchaPageState>) -> RenewalStep {
    if page matches Some(p) && p.has_login_form && p.has_captcha {
        RenewalStep::Renewed
    } else if step < RENEWAL_STEPS {
        RenewalStep::Wait { millis: 250 }
    } else {
        RenewalStep::TimedOut
    }
}

/// What to do after `step` looks at the page, the last of which showed `page`.
pub fn renewal_step(step: u32, page: &Option<NexusCaptchaPageState>) -> (r: RenewalStep)
    ensures
        r == renewal_after(step, *page),
{
    let found: bool = match page {
        Some(p) => p.has_login_form && p.has_captcha,
        None => false,
    };
    if found {
        RenewalStep::Renewed
    } else if step < RENEWAL_STEPS {
        RenewalStep::Wait { millis: 250 }
    } else {
        RenewalStep::TimedOut
    }
}

/// The number of login attempts that a page shows, or why it is not known.
pub open spec fn attempts_on_page(page: Option<NexusCaptchaPageState>) -> Result<
    Option<u32>,
    Seq<char>,
> {
    match page {
        Some(p) => Ok(p.remaining_attempts),
        None => Err("无法读取 NexusPHP 剩余登录次数"@),
    }
}

/// The number of login attempts that a page shows, or why it is not known.
pub fn nexusphp_remaining_attempts(page: &Option<NexusCaptchaPageState>) -> (r: Result<
    Option<u32>,
    String,
>)
    ensures
        match r {
            Ok(n) => attempts_on_page(*page) == Ok::<Option<u32>, Seq<char>>(n),
            Err(e) => attempts_on_page(*page) == Err::<Option<u32>, Seq<char>>(e@),
        },
{
    match page {
        Some(p) => Ok(p.remaining_attempts),
        None => Err("无法读取 NexusPHP 剩余登录次数".to_string()),
    }
}

/// One key of a text that is typed: what the field holds then, and whether a longer
/// pause follows.
#[derive(Debug)]
pub struct Keystroke {
    pub typed: String,
    pub long_pause: bool,
}

/// Whether `keys` types `value` key by key, with a longer pause after every sixth
/// key but the first.
pub open spec fn types_text(keys: Seq<Keystroke>, value: Seq<char>) -> bool {
    &&& keys.len() == value.len()
    &&& forall|k: int|
        0 <= k < keys.len() ==> (#[trigger] keys[k]).typed@ == value.take(k + 1)
            && keys[k].long_pause == (k > 0 && k % 6 == 0)
}

/// The keys that type a text.
pub fn keystrokes(value: &str) -> (r: Vec<Keystroke>)
    ensures
        types_text(r@, value@),
{
    let chars: Vec<char> = chars_of(value);
    let mut out: Vec<Keystroke> = Vec::new();
    let mut i: usize = 0;
    let n: usize = chars.len();
    while i < n
        invariant
            i <= n,
            n == chars@.len(),
            chars@ == value@,
            out@.len() == i,
            forall|k: int|
                0 <= k < i ==> (#[trigger] out@[k]).typed@ == value@.take(k + 1)
                    && out@[k].long_pause == (k > 0 && k % 6 == 0),
        decreases n - i,
    {
        let part: &[char] = &chars[0..i + 1];
        assert(part@ =~= value@.take(i + 1));
        out.push(Keystroke { typed: string_of(part), long_pause: i > 0 && i % 6 == 0 });
        i = i + 1;
    }
    out
}

/// The field holds the whole text after the last key.
pub proof fn typing_ends_with_the_text(keys: Seq<Keystroke>, value: Seq<char>)
    requires
        types_text(keys, value),
        value.len() > 0,
    ensures
        keys.last().typed@ == value,
{
    assert(value.take(value.len() as int) =~= value);
}

pub const FILL_HEAD: &'static str = "(() => {\n            const input = document.querySelector(";

pub const FILL_MIDDLE: &'static str = ");\n            if (!input) return { ok: false };\n            input.focus();\n            const setter = Object.getOwnPropertyDescriptor(HTMLInputElement.prototype, 'value').set;\n            setter.call(input, ";

pub const FILL_TAIL: &'static str = ");\n            input.dispatchEvent(new Event('input', { bubbles: true }));\n            input.dispatchEvent(new Event('change', { bubbles: true }));\n            return { ok: true };\n        })()";

pub const CLICK_HEAD: &'static str = "(() => {\n            const element = document.querySelector(";

pub const CLICK_TAIL: &'static str = ");\n            if (!element) return { ok: false };\n            element.focus();\n            element.click();\n            return { ok: true };\n        })()";

/// The script that puts `value` into the field that `selector` finds.
pub fn fill_runtime_input(selector: &str, value: &str) -> (r: String)
    ensures
        r@ == FILL_HEAD@ + json_quoted(selector@) + FILL_MIDDLE@ + json_quoted(value@) + FILL_TAIL@,
{
    FILL_HEAD.to_string().concat(quote_json(selector).as_str()).concat(FILL_MIDDLE).concat(
        quote_json(value).as_str(),
    ).concat(FILL_TAIL)
}

/// The script that clicks the element that `selector` finds.
pub fn click_runtime_element(selector: &str) -> (r: String)
    ensures
        r@ == CLICK_HEAD@ + json_quoted(selector@) + CLICK_TAIL@,
{
    CLICK_HEAD.to_string().concat(quote_json(selector).as_str()).concat(CLICK_TAIL)
}

// ---------------------------------------------------------------- what a page tells

/// An entry for whether something is so.
pub open spec fn flag(key: Seq<char>, yes: bool) -> (Seq<char>, JsonView) {
    (key, JsonView::Bool(yes))
}

proof fn lemma_page_keys()
    ensures
        "path"@.len() == 4,
        "host"@.len() == 4,
        "path"@ != "host"@,
        "ready"@.len() == 5,
        "hasOtp"@.len() == 6,
        "loggedIn"@.len() == 8,
        "challenge"@.len() == 9,
        "hasCaptcha"@.len() == 10,
        "hasLoginForm"@.len() == 12,
        "hasTwoFactor"@.len() == 12,
        "blockedDebug"@.len() == 12,
        "hasLoginForm"@ != "hasTwoFactor"@,
        "hasLoginForm"@ != "blockedDebug"@,
        "isFailurePage"@.len() == 13,
        "remainingAttempts"@.len() == 17,
{
    reveal_strlit("path");
    reveal_strlit("host");
    reveal_strlit("ready");
    reveal_strlit("hasOtp");
    reveal_strlit("loggedIn");
    reveal_strlit("challenge");
    reveal_strlit("hasCaptcha");
    reveal_strlit("hasLoginForm");
    reveal_strlit("hasTwoFactor");
    reveal_strlit("blockedDebug");
    reveal_strlit("isFailurePage");
    reveal_strlit("remainingAttempts");
    assert("path"@[0] == 'p' && "host"@[0] == 'h');
    assert("hasLoginForm"@[3] == 'L' && "hasTwoFactor"@[3] == 'T' && "blockedDebug"@[3] == 'c');
}

/// What a login page of a NexusPHP site tells, in the words of the page.
pub open spec fn told_nexus_login(p: NexusLoginPageState, left: u32) -> JsonView {
    JsonView::Object(
        seq![
            ("path"@, JsonView::Text(p.path@)),
            flag("ready"@, p.ready),
            flag("hasLoginForm"@, p.has_login_form),
            flag("hasCaptcha"@, p.has_captcha),
            flag("hasTwoFactor"@, p.has_two_factor),
            flag("challenge"@, p.challenge),
            flag("loggedIn"@, p.logged_in),
            flag("isFailurePage"@, p.is_failure_page),
            ("remainingAttempts"@, JsonView::Unsigned(left as u64)),
        ],
    )
}

/// What a login page of a NexusPHP site tells is read as it was told.
pub proof fn nexus_login_page_reads_back(p: NexusLoginPageState, left: u32, q: NexusLoginPageState)
    requires
        nexus_login_page_is(told_nexus_login(p, left), q),
    ensures
        nexus_login_page_complete(told_nexus_login(p, left)),
        q.path@ == p.path@,
        q.ready == p.ready,
        q.has_login_form == p.has_login_form,
        q.has_captcha == p.has_captcha,
        q.has_two_factor == p.has_two_factor,
        q.challenge == p.challenge,
        q.logged_in == p.logged_in,
        q.is_failure_page == p.is_failure_page,
        q.remaining_attempts == Some(left),
{
    lemma_page_keys();
    let e = told_nexus_login(p, left)->Object_0;
    first_entry_counts(e, 0);
    first_entry_counts(e, 1);
    first_entry_counts(e, 2);
    first_entry_counts(e, 3);
    first_entry_counts(e, 4);
    first_entry_counts(e, 5);
    first_entry_counts(e, 6);
    first_entry_counts(e, 7);
    first_entry_counts(e, 8);
}

/// What a page with a captcha tells, in the words of the page.
pub open spec fn told_nexus_captcha(p: NexusCaptchaPageState, left: u32) -> JsonView {
    JsonView::Object(
        seq![
            ("path"@, JsonView::Text(p.path@)),
            flag("ready"@, p.ready),
            flag("hasLoginForm"@, p.has_login_form),
            flag("hasCaptcha"@, p.has_captcha),
            flag("challenge"@, p.challenge),
            ("remainingAttempts"@, JsonView::Unsigned(left as u64)),
        ],
    )
}

/// What a page with a captcha tells is read as it was told.
pub proof fn nexus_captcha_page_reads_back(
    p: NexusCaptchaPageState,
    left: u32,
    q: NexusCaptchaPageState,
)
    requires
        nexus_captcha_page_is(told_nexus_captcha(p, left), q),
    ensures
        nexus_captcha_page_complete(told_nexus_captcha(p, left)),
        q.path@ == p.path@,
        q.ready == p.ready,
        q.has_login_form == p.has_login_form,
        q.has_captcha == p.has_captcha,
        q.challenge == p.challenge,
        q.remaining_attempts == Some(left),
{
    lemma_page_keys();
    let e = told_nexus_captcha(p, left)->Object_0;
    first_entry_counts(e, 0);
    first_entry_counts(e, 1);
    first_entry_counts(e, 2);
    first_entry_counts(e, 3);
    first_entry_counts(e, 4);
    first_entry_counts(e, 5);
}

/// What a login page of HDKylin tells, in the words of the page.
pub open spec fn told_hdk_login(p: HdkLoginPageState) -> JsonView {
    JsonView::Object(
        seq![
            ("path"@, JsonView::Text(p.path@)),
            flag("ready"@, p.ready),
            flag("hasLoginForm"@, p.has_login_form),
            flag("hasOtp"@, p.has_otp),
            flag("hasCaptcha"@, p.has_captcha),
            flag("challenge"@, p.challenge),
            flag("blockedDebug"@, p.blocked_debug),
        ],
    )
}

/// What a login page of HDKylin tells is read as it was told.
pub proof fn hdk_login_page_reads_back(p: HdkLoginPageState, q: HdkLoginPageState)
    requires
        hdk_login_page_is(told_hdk_login(p), q),
    ensures
        hdk_login_page_complete(told_hdk_login(p)),
        q.path@ == p.path@,
        q.ready == p.ready,
        q.has_login_form == p.has_login_form,
        q.has_otp == p.has_otp,
        q.has_captcha == p.has_captcha,
        q.challenge == p.challenge,
        q.blocked_debug == p.blocked_debug,
{
    lemma_page_keys();
    let e = told_hdk_login(p)->Object_0;
    first_entry_counts(e, 0);
    first_entry_counts(e, 1);
    first_entry_counts(e, 2);
    first_entry_counts(e, 3);
    first_entry_counts(e, 4);
    first_entry_counts(e, 5);
    first_entry_counts(e, 6);
}

/// What a login page of M-Team tells, in the words of the page.
pub open spec fn told_login(p: LoginPageState) -> JsonView {
    JsonView::Object(
        seq![
            ("host"@, JsonView::Text(p.host@)),
            ("path"@, JsonView::Text(p.path@)),
            flag("ready"@, p.ready),
            flag("hasLoginForm"@, p.has_login_form),
            flag("hasOtp"@, p.has_otp),
            flag("loggedIn"@, p.logged_in),
        ],
    )
}

/// What a login page of M-Team tells is read as it was told.
pub proof fn login_page_reads_back(p: LoginPageState, q: LoginPageState)
    requires
        login_page_is(told_login(p), q),
    ensures
        login_page_complete(told_login(p)),
        q.host@ == p.host@,
        q.path@ == p.path@,
        q.ready == p.ready,
        q.has_login_form == p.has_login_form,
        q.has_otp == p.has_otp,
        q.logged_in == p.logged_in,
{
    lemma_page_keys();
    let e = told_login(p)->Object_0;
    first_entry_counts(e, 0);
    first_entry_counts(e, 1);
    first_entry_counts(e, 2);
    first_entry_counts(e, 3);
    first_entry_counts(e, 4);
    first_entry_counts(e, 5);
}

/// A human verification stands in the way where a page says so, and counts as solved unless
/// the page says that it is not.
pub proof fn verification_is_told(response: JsonView)
    ensures
        challenge_shown(response) is Some <==> evaluated(response) is Some,
        challenge_shown(response) matches Some(p) ==> ({
            let v = evaluated(response)->0;
            &&& p.has_challenge <==> v.truth_at("hasChallenge"@) == Some(true)
            &&& p.solved <==> v.truth_at("solved"@) != Some(false)
        }),
{
}

/// A new captcha is there exactly where a page shows it in a login form; the page is looked at
/// forty times in all, a quarter of a second apart.
pub proof fn renewal_waits_for_the_form(step: u32, page: Option<NexusCaptchaPageState>)
    ensures
        ({
            let there = page matches Some(p) && p.has_login_form && p.has_captcha;
            &&& renewal_after(step, page) is Renewed <==> there
            &&& renewal_after(step, page) == (RenewalStep::Wait { millis: 250 }) <==> !there && step
                < 40
            &&& renewal_after(step, page) is TimedOut <==> !there && step >= 40
        }),
{
}

/// The image of a captcha is handed on as the page gave it, where the page says that it is
/// good.
pub proof fn captcha_image_is_handed_on(response: JsonView, missing: Seq<char>, image: Seq<char>)
    ensures
        captcha_image_shown(response, missing) == Ok::<Seq<char>, Seq<char>>(image) <==> (evaluated(
            response,
        ) matches Some(v) && v.truth_at("ok"@) == Some(true) && v.text_at("image"@) == Some(image)),
        captcha_renewal_shown(response) is Ok <==> (evaluated(response) matches Some(v)
            && v.truth_at("ok"@) == Some(true)),
        captcha_renewal_shown(response) matches Ok(b) ==> (b <==> (evaluated(response)->0).truth_at(
            "renewed"@,
        ) == Some(true)),
{
}

} // verus!
