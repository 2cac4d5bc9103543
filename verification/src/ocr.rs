//! Reading captchas with the help of a recognition service.

use crate::cdp::http::{is_success, is_success_status};
use crate::json::{
    item_views, json_of_value, parse_value, parsed_json, rendered_json, value_model, value_text,
    Json, JsonView,
};
use crate::number::{decimal, decimal_of};
use crate::sites::{clean_address, cleaned_address};
use crate::store::clamped;
use crate::text::{
    alphanumeric, chars_of, contains_str, contains_text, cut, has_prefix, is_alphanumeric,
    is_white, lowered, opt_text, split_once, starts_with_str, str_eq, string_of, text_result,
    to_lower, trim, trim_start_char, trim_start_of, trimmed, white,
};
use base64::Engine;
use vstd::prelude::*;
use vstd::utf8::encode_utf8;

verus! {

/// The length of a captcha.
pub const CAPTCHA_LENGTH: usize = 6;

/// What is darker stays, as black; everything else becomes white.
pub const BINARY_THRESHOLD: u8 = 80;

/// The characters that a captcha can hold.
pub const CAPTCHA_CHARSET: &'static str = "abcdefghijklmnopqrstuvwxyzABCDEFGHIJKLMNOPQRSTUVWXYZ0123456789";

/// A recognised captcha.
#[derive(Debug)]
pub struct RecognitionResult {
    pub text: String,
    /// How many tries it took.
    pub attempts: u8,
}

/// What a `RecognitionResult` says.
pub struct RecognitionView {
    pub text: Seq<char>,
    pub attempts: u8,
}

impl View for RecognitionResult {
    type V = RecognitionView;

    open spec fn view(&self) -> RecognitionView {
        RecognitionView { text: self.text@, attempts: self.attempts }
    }
}

// ---------------------------------------------------------------- replies

/// Whether a value is a list that holds a text.
pub open spec fn lists_text(value: Option<JsonView>, expected: Seq<char>) -> bool {
    match value {
        Some(v) => match v.items() {
            Some(items) => exists|i: int|
                0 <= i < items.len() && (#[trigger] items[i]).text() == Some(expected),
            None => false,
        },
        None => false,
    }
}

/// Whether a value is a list that holds a text.
pub fn string_array_contains(value: Option<&Json>, expected: &str) -> (r: bool)
    ensures
        r == lists_text(crate::json::opt_json(value), expected@),
{
    let items: &Vec<Json> = match value {
        Some(v) => match v.as_array() {
            Some(items) => items,
            None => return false,
        },
        None => return false,
    };
    let ghost all = item_views(items@);
    let mut i: usize = 0;
    while i < items.len()
        invariant
            i <= items@.len(),
            all == item_views(items@),
            crate::json::opt_json(value) is Some,
            crate::json::opt_json(value)->0.items() == Some(all),
            forall|k: int| 0 <= k < i ==> (#[trigger] all[k]).text() != Some(expected@),
        decreases items@.len() - i,
    {
        assert(all[i as int] == items@[i as int]@);
        if let Some(t) = items[i].as_str() {
            if str_eq(t, expected) {
                return true;
            }
        }
        i = i + 1;
    }
    false
}

/// Whether a service is running with its model.
pub open spec fn is_ready(status: JsonView) -> bool {
    status.text_at("service_status"@) == Some("running"@) && lists_text(
        status.at("loaded_models"@),
        "ocr"@,
    ) && lists_text(status.at("enabled_features"@), "ocr"@)
}

/// Whether a service is running with its model.
pub fn ocr_ready(status: &Json) -> (r: bool)
    ensures
        r == is_ready(status@),
{
    let running: bool = match status.str_at("service_status") {
        Some(t) => str_eq(t, "running"),
        None => false,
    };
    running && string_array_contains(status.get("loaded_models"), "ocr") && string_array_contains(
        status.get("enabled_features"),
        "ocr",
    )
}

/// What a service says about a failure.
pub open spec fn message_in(payload: JsonView, fallback: Seq<char>) -> Seq<char> {
    let said = match payload.at("message"@) {
        Some(m) => Some(m),
        None => payload.at("detail"@),
    };
    match said {
        Some(m) => match m.text() {
            Some(t) => t,
            None => fallback,
        },
        None => fallback,
    }
}

/// What a service says about a failure.
pub fn api_message(payload: &Json, fallback: &str) -> (r: String)
    ensures
        r@ == message_in(payload@, fallback@),
{
    let said: Option<&Json> = match payload.get("message") {
        Some(m) => Some(m),
        None => payload.get("detail"),
    };
    match said {
        Some(m) => match m.as_str() {
            Some(t) => t.to_string(),
            None => fallback.to_string(),
        },
        None => fallback.to_string(),
    }
}

// ---------------------------------------------------------------- requests

/// The address of a part of a service.
pub open spec fn service_address(server_url: Seq<char>, path: Seq<char>) -> Result<
    Seq<char>,
    Seq<char>,
> {
    let base = clean_address(server_url);
    if has_prefix(base, "http://"@) || has_prefix(base, "https://"@) {
        Ok(base + "/"@ + trim_start_of(path, '/'))
    } else {
        Err("OCR 地址必须以 http:// 或 https:// 开头"@)
    }
}

/// The address of a part of a service.
pub fn request_url(server_url: &str, path: &str) -> (r: Result<String, String>)
    ensures
        text_result(r) == service_address(server_url@, path@),
{
    let base: String = cleaned_address(server_url);
    let base_chars: Vec<char> = chars_of(base.as_str());
    if !(starts_with_str(base_chars.as_slice(), "http://") || starts_with_str(
        base_chars.as_slice(),
        "https://",
    )) {
        return Err("OCR 地址必须以 http:// 或 https:// 开头".to_string());
    }
    let path_chars: Vec<char> = chars_of(path);
    let tail: String = string_of(trim_start_char(path_chars.as_slice(), '/'));
    Ok(base.concat("/").concat(tail.as_str()))
}

/// Why a request came to nothing.
#[derive(Debug, Clone, Copy, PartialEq, Eq, Structural)]
pub enum RequestFailure {
    Client,
    Timeout,
    Connect,
    Send,
    Read,
}

/// What is reported of a request that came to nothing.
pub fn request_failure_text(failure: RequestFailure, detail: &str) -> (r: String)
    ensures
        r@ == match failure {
            RequestFailure::Client => "OCR HTTP 客户端初始化失败："@ + detail@,
            RequestFailure::Timeout => "OCR 服务请求超时"@,
            RequestFailure::Connect => "OCR 服务连接失败："@ + detail@,
            RequestFailure::Send => "OCR 请求失败："@ + detail@,
            RequestFailure::Read => "读取 OCR 响应失败："@ + detail@,
        },
{
    match failure {
        RequestFailure::Client => "OCR HTTP 客户端初始化失败：".to_string().concat(detail),
        RequestFailure::Timeout => "OCR 服务请求超时".to_string(),
        RequestFailure::Connect => "OCR 服务连接失败：".to_string().concat(detail),
        RequestFailure::Send => "OCR 请求失败：".to_string().concat(detail),
        RequestFailure::Read => "读取 OCR 响应失败：".to_string().concat(detail),
    }
}

/// What a reply of a service with a status comes to.
pub open spec fn accepted(status: u16, payload: JsonView) -> Result<JsonView, Seq<char>> {
    if is_success_status(status) {
        Ok(payload)
    } else {
        Err(
            "OCR 服务返回 HTTP "@ + decimal(status as nat) + "："@ + message_in(
                payload,
                "请求失败"@,
            ) + " (完整响应: "@ + rendered_json(payload) + ")"@,
        )
    }
}

/// What a reply says.
pub open spec fn payload_result(r: Result<serde_json::Value, String>) -> Result<
    JsonView,
    Seq<char>,
> {
    match r {
        Ok(v) => Ok(value_model(v)),
        Err(e) => Err(e@),
    }
}

/// What a reply of a service with a status comes to.
pub fn accept_payload(status: u16, payload: serde_json::Value) -> (r: Result<
    serde_json::Value,
    String,
>)
    ensures
        payload_result(r) == accepted(status, value_model(payload)),
{
    if is_success(status) {
        return Ok(payload);
    }
    let json: Json = json_of_value(&payload);
    Err(
        "OCR 服务返回 HTTP ".to_string().concat(decimal_of(status as u64).as_str()).concat(
            "：",
        ).concat(api_message(&json, "请求失败").as_str()).concat(" (完整响应: ").concat(
            value_text(&payload).as_str(),
        ).concat(")"),
    )
}

/// What the text of a reply with a status comes to.
pub open spec fn answer_in(status: u16, text: Seq<char>) -> Result<JsonView, Seq<char>> {
    match parsed_json(text) {
        Err(e) => Err("OCR JSON 解析失败："@ + e + " (原始响应: "@ + text + ")"@),
        Ok(v) => accepted(status, v),
    }
}

/// What the text of a reply with a status comes to.
pub fn response_payload(status: u16, text: &str) -> (r: Result<serde_json::Value, String>)
    ensures
        payload_result(r) == answer_in(status, text@),
{
    match parse_value(text) {
        Err(e) => Err(
            "OCR JSON 解析失败：".to_string().concat(e.as_str()).concat(
                " (原始响应: ",
            ).concat(text).concat(")"),
        ),
        Ok(v) => accept_payload(status, v),
    }
}

// ---------------------------------------------------------------- getting a service ready

/// How far the preparation of a service has come.
#[derive(Debug, Clone, Copy, PartialEq, Eq, Structural)]
pub enum InitPhase {
    /// Its status is asked for.
    Asking,
    /// Its model is loaded.
    Loading,
    /// Its status is asked for again.
    Confirming,
    Done,
}

/// The preparation of a service.
#[derive(Debug)]
pub struct OcrInit {
    /// Whether this service was prepared before.
    pub prepared: bool,
    pub phase: InitPhase,
}

/// What is to be done next.
#[derive(Debug)]
pub enum InitAction {
    GetStatus,
    PostInitialize,
    /// The service can be used; `loaded` tells whether its model was loaded just now.
    Ready { loaded: bool },
    Failed(String),
    /// There is nothing to be done any more.
    Nothing,
}

/// What an `InitAction` says.
pub enum InitView {
    GetStatus,
    PostInitialize,
    Ready { loaded: bool },
    Failed(Seq<char>),
    Nothing,
}

impl View for InitAction {
    type V = InitView;

    open spec fn view(&self) -> InitView {
        match *self {
            InitAction::GetStatus => InitView::GetStatus,
            InitAction::PostInitialize => InitView::PostInitialize,
            InitAction::Ready { loaded } => InitView::Ready { loaded },
            InitAction::Failed(t) => InitView::Failed(t@),
            InitAction::Nothing => InitView::Nothing,
        }
    }
}

/// What follows a reply in the preparation of a service.
pub open spec fn init_next(s: OcrInit, reply: Result<JsonView, Seq<char>>) -> (OcrInit, InitView) {
    let done = OcrInit { phase: InitPhase::Done, ..s };
    match (s.phase, reply) {
        (InitPhase::Done, _) => (s, InitView::Nothing),
        (_, Err(e)) => (done, InitView::Failed(e)),
        (InitPhase::Asking, Ok(status)) => if is_ready(status) && s.prepared {
            (done, InitView::Ready { loaded: false })
        } else {
            (OcrInit { phase: InitPhase::Loading, ..s }, InitView::PostInitialize)
        },
        (InitPhase::Loading, Ok(payload)) => if payload.truth_at("success"@) == Some(true) {
            (OcrInit { phase: InitPhase::Confirming, ..s }, InitView::GetStatus)
        } else {
            (done, InitView::Failed(message_in(payload, "OCR 服务初始化失败"@)))
        },
        (InitPhase::Confirming, Ok(status)) => if is_ready(status) {
            (done, InitView::Ready { loaded: true })
        } else {
            (
                done,
                InitView::Failed("OCR 初始化完成，但状态中未发现可用的 OCR 模型"@),
            )
        },
    }
}

fn says_success(payload: &Json) -> (r: bool)
    ensures
        r == (payload@.truth_at("success"@) == Some(true)),
{
    match payload.bool_at("success") {
        Some(b) => b,
        None => false,
    }
}

impl OcrInit {
    /// Making sure that a service is ready; `prepared` tells whether it was prepared
    /// before.
    pub fn ensure_initialized(prepared: bool) -> (r: (OcrInit, InitAction))
        ensures
            r.0 == (OcrInit { prepared, phase: InitPhase::Asking }),
            r.1@ == InitView::GetStatus,
    {
        (OcrInit { prepared, phase: InitPhase::Asking }, InitAction::GetStatus)
    }

    /// Loading the model of a service in any case.
    pub fn initialize() -> (r: (OcrInit, InitAction))
        ensures
            r.0 == (OcrInit { prepared: false, phase: InitPhase::Loading }),
            r.1@ == InitView::PostInitialize,
    {
        (OcrInit { prepared: false, phase: InitPhase::Loading }, InitAction::PostInitialize)
    }

    /// Takes in a reply and tells what to do next.
    pub fn advance(&mut self, reply: &Result<serde_json::Value, String>) -> (r: InitAction)
        ensures
            (*final(self), r@) == init_next(*old(self), payload_result(*reply)),
    {
        if let InitPhase::Done = self.phase {
            return InitAction::Nothing;
        }
        let json: Json = match reply {
            Err(e) => {
                self.phase = InitPhase::Done;
                return InitAction::Failed(e.clone());
            },
            Ok(v) => json_of_value(v),
        };
        match self.phase {
            InitPhase::Asking => if ocr_ready(&json) && self.prepared {
                self.phase = InitPhase::Done;
                InitAction::Ready { loaded: false }
            } else {
                self.phase = InitPhase::Loading;
                InitAction::PostInitialize
            },
            InitPhase::Loading => if says_success(&json) {
                self.phase = InitPhase::Confirming;
                InitAction::GetStatus
            } else {
                self.phase = InitPhase::Done;
                InitAction::Failed(api_message(&json, "OCR 服务初始化失败"))
            },
            InitPhase::Confirming => {
                self.phase = InitPhase::Done;
                if ocr_ready(&json) {
                    InitAction::Ready { loaded: true }
                } else {
                    InitAction::Failed(
                        "OCR 初始化完成，但状态中未发现可用的 OCR 模型".to_string(),
                    )
                }
            },
            InitPhase::Done => InitAction::Nothing,
        }
    }
}

/// A service counts as ready only on a status that says so.
pub proof fn ready_is_confirmed(s: OcrInit, reply: Result<JsonView, Seq<char>>)
    requires
        init_next(s, reply).1 is Ready,
    ensures
        reply matches Ok(status) && is_ready(status),
{
}

// ---------------------------------------------------------------- one reply

/// Letters and digits only.
pub open spec fn all_alphanumeric(s: Seq<char>) -> bool {
    forall|i: int| 0 <= i < s.len() ==> alphanumeric(#[trigger] s[i])
}

fn is_all_alphanumeric(s: &[char]) -> (r: bool)
    ensures
        r == all_alphanumeric(s@),
{
    let mut i: usize = 0;
    while i < s.len()
        invariant
            i <= s@.len(),
            forall|k: int| 0 <= k < i ==> alphanumeric(#[trigger] s@[k]),
        decreases s@.len() - i,
    {
        if !is_alphanumeric(s[i]) {
            return false;
        }
        i = i + 1;
    }
    true
}

/// How many bytes a text takes.
pub open spec fn byte_length(s: Seq<char>) -> nat {
    encode_utf8(s).len()
}

/// A text that can be a captcha.
pub open spec fn is_captcha(s: Seq<char>) -> bool {
    byte_length(s) == CAPTCHA_LENGTH && all_alphanumeric(s)
}

/// The text that a reply holds.
pub open spec fn recognised_text(payload: JsonView) -> Option<Seq<char>> {
    match payload.at("data"@) {
        Some(data) => match data.text_at("text"@) {
            Some(t) => if trimmed(t).len() > 0 {
                Some(trimmed(t))
            } else {
                None
            },
            None => None,
        },
        None => None,
    }
}

/// How a truth value is written.
pub open spec fn bool_text(b: bool) -> Seq<char> {
    if b {
        "true"@
    } else {
        "false"@
    }
}

/// The captcha in a reply, or why there is none.
pub open spec fn captcha_in(payload: JsonView) -> Result<Seq<char>, Seq<char>> {
    if payload.truth_at("success"@) != Some(true) {
        Err(
            message_in(payload, "OCR 识别失败"@) + " (完整响应: "@ + rendered_json(payload)
                + ")"@,
        )
    } else {
        match recognised_text(payload) {
            None => Err(
                "OCR 未返回识别文本 (完整响应: "@ + rendered_json(payload) + ")"@,
            ),
            Some(text) => if is_captcha(text) {
                Ok(text)
            } else {
                Err(
                    "OCR 结果格式异常 (识别文本: \""@ + text + "\", 长度: "@ + decimal(
                        byte_length(text),
                    ) + ", 要求长度: "@ + decimal(CAPTCHA_LENGTH as nat)
                        + ", 仅含英文数字: "@ + bool_text(all_alphanumeric(text))
                        + ", 完整响应: "@ + rendered_json(payload) + ")"@,
                )
            },
        }
    }
}

/// The captcha in a reply, or why there is none.
pub fn captcha_of(payload: &serde_json::Value) -> (r: Result<String, String>)
    ensures
        text_result(r) == captcha_in(value_model(*payload)),
{
    let json: Json = json_of_value(payload);
    let shown: String = value_text(payload);
    if !says_success(&json) {
        return Err(
            api_message(&json, "OCR 识别失败").concat(" (完整响应: ").concat(
                shown.as_str(),
            ).concat(")"),
        );
    }
    let found: Option<String> = match json.get("data") {
        Some(data) => match data.str_at("text") {
            Some(t) => {
                let chars: Vec<char> = chars_of(t);
                let clean: &[char] = trim(chars.as_slice());
                if clean.len() > 0 {
                    Some(string_of(clean))
                } else {
                    None
                }
            },
            None => None,
        },
        None => None,
    };
    assert(opt_text(found) == recognised_text(json@));
    match found {
        None => Err(
            "OCR 未返回识别文本 (完整响应: ".to_string().concat(shown.as_str()).concat(
                ")",
            ),
        ),
        Some(text) => {
            let chars: Vec<char> = chars_of(text.as_str());
            let length: usize = text.as_str().as_bytes().len();
            let plain: bool = is_all_alphanumeric(chars.as_slice());
            if length == CAPTCHA_LENGTH && plain {
                return Ok(text);
            }
            let flag: &str = if plain {
                "true"
            } else {
                "false"
            };
            Err(
                "OCR 结果格式异常 (识别文本: \"".to_string().concat(text.as_str()).concat(
                    "\", 长度: ",
                ).concat(decimal_of(length as u64).as_str()).concat(", 要求长度: ").concat(
                    decimal_of(CAPTCHA_LENGTH as u64).as_str(),
                ).concat(", 仅含英文数字: ").concat(flag).concat(", 完整响应: ").concat(
                    shown.as_str(),
                ).concat(")"),
            )
        },
    }
}

// ---------------------------------------------------------------- tries

/// How far the recognition has come.
#[derive(Debug, Clone, Copy, PartialEq, Eq, Structural)]
pub enum OcrPhase {
    /// The service is made ready.
    Preparing,
    /// The image is made ready.
    Cleaning,
    /// The service is asked.
    Asking,
    /// The model is loaded anew.
    Reloading,
    /// A pause before the next try.
    Pausing,
    Done,
}

/// The recognition of a captcha.
#[derive(Debug)]
pub struct Recognition {
    /// How many tries there are.
    pub attempts: u8,
    /// The try that is under way, from zero on.
    pub attempt: u8,
    pub last_error: String,
    pub phase: OcrPhase,
}

/// What a `Recognition` says.
pub struct OcrModel {
    pub attempts: u8,
    pub attempt: u8,
    pub last_error: Seq<char>,
    pub phase: OcrPhase,
}

impl View for Recognition {
    type V = OcrModel;

    open spec fn view(&self) -> OcrModel {
        OcrModel {
            attempts: self.attempts,
            attempt: self.attempt,
            last_error: self.last_error@,
            phase: self.phase,
        }
    }
}

/// What is to be done next.
#[derive(Debug)]
pub enum OcrAction {
    /// Make sure that the service is ready.
    Prepare,
    /// Prepare the image.
    Clean,
    /// Ask for the text of the image; `png_fix` asks the service to mend it first.
    Ask { png_fix: bool },
    /// Load the model anew.
    Reload,
    /// Wait for a quarter of a second.
    Pause,
    Found(RecognitionResult),
    Failed(String),
    /// Go on with the pending action.
    Keep,
}

/// What an `OcrAction` says.
pub enum OcrView {
    Prepare,
    Clean,
    Ask { png_fix: bool },
    Reload,
    Pause,
    Found(RecognitionView),
    Failed(Seq<char>),
    Keep,
}

impl View for OcrAction {
    type V = OcrView;

    open spec fn view(&self) -> OcrView {
        match *self {
            OcrAction::Prepare => OcrView::Prepare,
            OcrAction::Clean => OcrView::Clean,
            OcrAction::Ask { png_fix } => OcrView::Ask { png_fix },
            OcrAction::Reload => OcrView::Reload,
            OcrAction::Pause => OcrView::Pause,
            OcrAction::Found(r) => OcrView::Found(r@),
            OcrAction::Failed(t) => OcrView::Failed(t@),
            OcrAction::Keep => OcrView::Keep,
        }
    }
}

/// What came of an action.
#[derive(Debug)]
pub enum OcrEvent {
    /// Whether a preparation succeeded.
    Done(Result<(), String>),
    /// The captcha in a reply, or why there is none.
    Reply(Result<String, String>),
    Paused,
}

/// What an `OcrEvent` says.
pub enum OcrEventView {
    Done(Result<(), Seq<char>>),
    Reply(Result<Seq<char>, Seq<char>>),
    Paused,
}

/// What the result of a step says.
pub open spec fn step_result(r: Result<(), String>) -> Result<(), Seq<char>> {
    match r {
        Ok(_) => Ok(()),
        Err(e) => Err(e@),
    }
}

impl View for OcrEvent {
    type V = OcrEventView;

    open spec fn view(&self) -> OcrEventView {
        match *self {
            OcrEvent::Done(r) => OcrEventView::Done(step_result(r)),
            OcrEvent::Reply(r) => OcrEventView::Reply(text_result(r)),
            OcrEvent::Paused => OcrEventView::Paused,
        }
    }
}

impl OcrModel {
    pub open spec fn at(self, phase: OcrPhase) -> OcrModel {
        OcrModel { phase, ..self }
    }

    pub open spec fn failed(self, message: Seq<char>) -> (OcrModel, OcrView) {
        (self.at(OcrPhase::Done), OcrView::Failed(message))
    }

    pub open spec fn ask(self) -> (OcrModel, OcrView) {
        (self.at(OcrPhase::Asking), OcrView::Ask { png_fix: self.attempt > 0 })
    }

    /// What follows an event: the model is loaded anew after the first try, and after the
    /// last one the recognition fails. An event that the pending action cannot cause
    /// changes nothing.
    pub open spec fn next(self, event: OcrEventView) -> (OcrModel, OcrView) {
        match (self.phase, event) {
            (OcrPhase::Preparing, OcrEventView::Done(r)) => match r {
                Err(e) => self.failed(e),
                Ok(_) => (self.at(OcrPhase::Cleaning), OcrView::Clean),
            },
            (OcrPhase::Cleaning, OcrEventView::Done(r)) => match r {
                Err(e) => self.failed(e),
                Ok(_) => self.ask(),
            },
            (OcrPhase::Asking, OcrEventView::Reply(r)) => match r {
                Ok(text) => (
                    self.at(OcrPhase::Done),
                    OcrView::Found(
                        RecognitionView { text, attempts: (self.attempt + 1) as u8 },
                    ),
                ),
                Err(e) => {
                    let s = OcrModel { last_error: e, ..self };
                    if self.attempt == 0 && self.attempts > 1 {
                        (s.at(OcrPhase::Reloading), OcrView::Reload)
                    } else {
                        (s.at(OcrPhase::Pausing), OcrView::Pause)
                    }
                },
            },
            (OcrPhase::Reloading, OcrEventView::Done(r)) => match r {
                Err(e) => self.failed(e),
                Ok(_) => (self.at(OcrPhase::Pausing), OcrView::Pause),
            },
            (OcrPhase::Pausing, OcrEventView::Paused) => if self.attempt + 1 < self.attempts {
                OcrModel { attempt: (self.attempt + 1) as u8, ..self }.ask()
            } else {
                self.failed(
                    self.last_error + "，已尝试 "@ + decimal(self.attempts as nat) + " 次"@,
                )
            },
            _ => (self, OcrView::Keep),
        }
    }

    /// Tries are counted from zero up to their number.
    pub open spec fn well_formed(self) -> bool {
        1 <= self.attempts <= 5 && self.attempt < self.attempts
    }

    /// Whether `event` is of the kind that the pending action causes.
    pub open spec fn awaits(self, event: OcrEventView) -> bool {
        match self.phase {
            OcrPhase::Preparing | OcrPhase::Cleaning | OcrPhase::Reloading => event is Done,
            OcrPhase::Asking => event is Reply,
            OcrPhase::Pausing => event is Paused,
            OcrPhase::Done => false,
        }
    }

    /// An upper bound on the number of actions that are left.
    pub open spec fn steps_left(self) -> int {
        let tries = 3 * (self.attempts - self.attempt);
        match self.phase {
            OcrPhase::Preparing => tries + 2,
            OcrPhase::Cleaning => tries + 1,
            OcrPhase::Asking => tries,
            OcrPhase::Reloading => tries - 1,
            OcrPhase::Pausing => tries - 2,
            OcrPhase::Done => 0,
        }
    }
}

impl Recognition {
    /// A recognition and what to do first; the number of tries is brought within its
    /// limits.
    pub fn begin(retry_count: u8) -> (r: (Recognition, OcrAction))
        ensures
            r.0@ == (OcrModel {
                attempts: clamped(retry_count as int, 1, 5) as u8,
                attempt: 0,
                last_error: "OCR 未返回识别文本"@,
                phase: OcrPhase::Preparing,
            }),
            r.1@ == OcrView::Prepare,
            r.0@.well_formed(),
    {
        let attempts: u8 = if retry_count < 1 {
            1
        } else if retry_count > 5 {
            5
        } else {
            retry_count
        };
        (
            Recognition {
                attempts,
                attempt: 0,
                last_error: "OCR 未返回识别文本".to_string(),
                phase: OcrPhase::Preparing,
            },
            OcrAction::Prepare,
        )
    }

    fn failed(&mut self, message: String) -> (r: OcrAction)
        ensures
            (final(self)@, r@) == old(self)@.failed(message@),
    {
        self.phase = OcrPhase::Done;
        OcrAction::Failed(message)
    }

    fn ask(&mut self) -> (r: OcrAction)
        ensures
            (final(self)@, r@) == old(self)@.ask(),
    {
        self.phase = OcrPhase::Asking;
        OcrAction::Ask { png_fix: self.attempt > 0 }
    }

    /// Takes in what came of the pending action and tells what to do next.
    pub fn advance(&mut self, event: OcrEvent) -> (r: OcrAction)
        requires
            old(self)@.well_formed(),
        ensures
            (final(self)@, r@) == old(self)@.next(event@),
            final(self)@.well_formed(),
    {
        match (self.phase, event) {
            (OcrPhase::Preparing, OcrEvent::Done(r)) => match r {
                Err(e) => self.failed(e),
                Ok(_) => {
                    self.phase = OcrPhase::Cleaning;
                    OcrAction::Clean
                },
            },
            (OcrPhase::Cleaning, OcrEvent::Done(r)) => match r {
                Err(e) => self.failed(e),
                Ok(_) => self.ask(),
            },
            (OcrPhase::Asking, OcrEvent::Reply(r)) => match r {
                Ok(text) => {
                    self.phase = OcrPhase::Done;
                    OcrAction::Found(RecognitionResult { text, attempts: self.attempt + 1 })
                },
                Err(e) => {
                    self.last_error = e;
                    if self.attempt == 0 && self.attempts > 1 {
                        self.phase = OcrPhase::Reloading;
                        OcrAction::Reload
                    } else {
                        self.phase = OcrPhase::Pausing;
                        OcrAction::Pause
                    }
                },
            },
            (OcrPhase::Reloading, OcrEvent::Done(r)) => match r {
                Err(e) => self.failed(e),
                Ok(_) => {
                    self.phase = OcrPhase::Pausing;
                    OcrAction::Pause
                },
            },
            (OcrPhase::Pausing, OcrEvent::Paused) => if self.attempt + 1 < self.attempts {
                self.attempt = self.attempt + 1;
                self.ask()
            } else {
                let message: String = self.last_error.clone().concat("，已尝试 ").concat(
                    decimal_of(self.attempts as u64).as_str(),
                ).concat(" 次");
                self.failed(message)
            },
            _ => OcrAction::Keep,
        }
    }
}

/// Every answered action brings the recognition closer to its end, which takes as many
/// tries as are allowed at most.
pub proof fn recognition_ends(s: OcrModel, event: OcrEventView)
    requires
        s.well_formed(),
        s.awaits(event),
    ensures
        s.next(event).0.well_formed(),
        0 <= s.next(event).0.steps_left() < s.steps_left(),
        s.next(event).1 matches OcrView::Found(r) ==> 1 <= r.attempts <= s.attempts,
{
}

/// What is found is what a reply held, and a reply holds only texts that can be a
/// captcha.
pub proof fn found_text_is_a_captcha(s: OcrModel, payload: JsonView)
    requires
        s.next(OcrEventView::Reply(captcha_in(payload))).1 is Found,
    ensures
        is_captcha(s.next(OcrEventView::Reply(captcha_in(payload))).1->Found_0.text),
{
}

// ---------------------------------------------------------------- images

/// What `base64`'s standard engine reads from bytes, or the text of its error.
pub uninterp spec fn base64_decoded(b: Seq<u8>) -> Result<Seq<u8>, Seq<char>>;

/// What `base64`'s standard engine writes for bytes.
pub uninterp spec fn base64_encoded(b: Seq<u8>) -> Seq<char>;

/// Calls `base64::Engine::decode` of the standard engine. Claimed is only that the bytes,
/// or the text of the error, depend on the input alone.
#[verifier::external_body]
fn decode_base64(b: &[u8]) -> (r: Result<Vec<u8>, String>)
    ensures
        match r {
            Ok(v) => base64_decoded(b@) == Ok::<Seq<u8>, Seq<char>>(v@),
            Err(e) => base64_decoded(b@) == Err::<Seq<u8>, Seq<char>>(e@),
        },
{
    base64::engine::general_purpose::STANDARD.decode(b).map_err(|err| err.to_string())
}

/// Calls `base64::Engine::encode` of the standard engine. Claimed is that the text depends
/// on the bytes alone, and that the same engine reads the bytes back from it. A slice is
/// never so long that the length of its encoding overflows.
#[verifier::external_body]
fn encode_base64(b: &[u8]) -> (r: String)
    ensures
        r@ == base64_encoded(b@),
        (base64_decoded(encode_utf8(r@)) == Ok::<Seq<u8>, Seq<char>>(b@)),
{
    base64::engine::general_purpose::STANDARD.encode(b)
}

/// The data of an image address, or the whole text where it is none.
pub open spec fn image_data(value: Seq<char>) -> Seq<char> {
    match cut(trimmed(value), ',') {
        Some((prefix, data)) => if contains_text(lowered(prefix), ";base64"@) {
            data
        } else {
            value
        },
        None => value,
    }
}

/// A character of the standard alphabet for one of the alphabet for addresses.
pub open spec fn standard_char(c: char) -> char {
    if c == '-' {
        '+'
    } else if c == '_' {
        '/'
    } else {
        c
    }
}

/// The text without white space and in the standard alphabet.
pub open spec fn standard_text(s: Seq<char>) -> Seq<char>
    decreases s.len(),
{
    if s.len() == 0 {
        Seq::empty()
    } else if white(s.last()) {
        standard_text(s.drop_last())
    } else {
        standard_text(s.drop_last()).push(standard_char(s.last()))
    }
}

fn standard_string(s: &[char]) -> (r: String)
    ensures
        r@ == standard_text(s@),
{
    let mut out: String = String::new();
    let mut i: usize = 0;
    assert(s@.take(0) =~= Seq::<char>::empty());
    while i < s.len()
        invariant
            i <= s@.len(),
            out@ == standard_text(s@.take(i as int)),
        decreases s@.len() - i,
    {
        assert(s@.take(i + 1).drop_last() =~= s@.take(i as int));
        let c: char = s[i];
        if !is_white(c) {
            out.push(
                if c == '-' {
                    '+'
                } else if c == '_' {
                    '/'
                } else {
                    c
                },
            );
        }
        i = i + 1;
    }
    assert(s@.take(i as int) =~= s@);
    out
}

/// How many signs are missing at the end of an encoded text.
pub open spec fn missing_padding(s: Seq<char>) -> nat {
    ((4 - byte_length(s) % 4) % 4) as nat
}

/// An encoded text with the signs at its end that it lacks.
pub open spec fn padded(s: Seq<char>) -> Seq<char> {
    s + Seq::new(missing_padding(s), |i: int| '=')
}

fn pad(s: String) -> (r: String)
    ensures
        r@ == padded(s@),
{
    let left: usize = s.as_str().as_bytes().len() % 4;
    let ghost start = s@;
    let mut out: String = s;
    if left > 0 {
        out.push('=');
        if left < 3 {
            out.push('=');
            if left < 2 {
                out.push('=');
            }
        }
    }
    assert(out@ =~= padded(start));
    out
}

/// The encoded text of an image, as it is decoded.
pub open spec fn image_text(value: Seq<char>) -> Seq<char> {
    padded(standard_text(image_data(value)))
}

/// The bytes of an encoded image.
pub open spec fn image_bytes(value: Seq<char>) -> Result<Seq<u8>, Seq<char>> {
    match base64_decoded(encode_utf8(image_text(value))) {
        Err(e) => Err("验证码截图 Base64 格式无效："@ + e),
        Ok(b) => if b.len() == 0 {
            Err("验证码截图为空"@)
        } else {
            Ok(b)
        },
    }
}

/// The encoded text of an image in its plain form.
pub open spec fn normal_image(value: Seq<char>) -> Result<Seq<char>, Seq<char>> {
    match image_bytes(value) {
        Ok(b) => Ok(base64_encoded(b)),
        Err(e) => Err(e),
    }
}

/// The text that is decoded for an encoded image.
pub fn clean_image_text(value: &str) -> (r: String)
    ensures
        r@ == image_text(value@),
{
    let chars: Vec<char> = chars_of(value);
    let data: &[char] = match split_once(trim(chars.as_slice()), ',') {
        Some((prefix, data)) => {
            let lower: Vec<char> = to_lower(prefix);
            if contains_str(lower.as_slice(), ";base64") {
                data
            } else {
                chars.as_slice()
            }
        },
        None => chars.as_slice(),
    };
    pad(standard_string(data))
}

/// The encoded text of an image in its plain form. What is written can be decoded again.
pub fn normalize_image_base64(value: &str) -> (r: Result<String, String>)
    ensures
        text_result(r) == normal_image(value@),
        r matches Ok(t) ==> base64_decoded(encode_utf8(t@)) == image_bytes(value@),
{
    let text: String = clean_image_text(value);
    match decode_base64(text.as_str().as_bytes()) {
        Err(e) => Err("验证码截图 Base64 格式无效：".to_string().concat(e.as_str())),
        Ok(image) => if image.len() == 0 {
            Err("验证码截图为空".to_string())
        } else {
            Ok(encode_base64(image.as_slice()))
        },
    }
}

/// The width, the height and the brightness of the pixels that `image` reads from an
/// encoded image, or the text of its error.
pub uninterp spec fn gray_pixels(b: Seq<u8>) -> Result<(u32, u32, Seq<u8>), Seq<char>>;

/// The PNG file that `image` writes for an image of brightnesses, or the text of its error.
pub uninterp spec fn png_file(width: u32, height: u32, pixels: Seq<u8>) -> Result<
    Seq<u8>,
    Seq<char>,
>;

/// A grey image.
#[derive(Debug)]
pub struct GrayImage {
    pub width: u32,
    pub height: u32,
    /// One byte for each pixel, line by line.
    pub pixels: Vec<u8>,
}

/// Calls `image::load_from_memory` and `DynamicImage::to_luma8`. Claimed is that the size
/// and the pixels, or the text of the error, depend on the bytes alone, and that there is a
/// byte for each pixel.
#[verifier::external_body]
fn load_gray(b: &[u8]) -> (r: Result<GrayImage, String>)
    ensures
        match r {
            Ok(i) => gray_pixels(b@) == Ok::<(u32, u32, Seq<u8>), Seq<char>>(
                (i.width, i.height, i.pixels@),
            ),
            Err(e) => gray_pixels(b@) == Err::<(u32, u32, Seq<u8>), Seq<char>>(e@),
        },
        r matches Ok(i) ==> i.pixels@.len() == i.width * i.height,
{
    let gray = image::load_from_memory(b).map_err(|err| err.to_string())?.to_luma8();
    Ok(GrayImage { width: gray.width(), height: gray.height(), pixels: gray.into_raw() })
}

/// Calls `image::GrayImage::write_to` for a PNG file. Claimed is only that the file, or the
/// text of the error, depends on the size and the pixels alone.
#[verifier::external_body]
fn write_png(i: GrayImage) -> (r: Result<Vec<u8>, String>)
    requires
        i.pixels@.len() == i.width * i.height,
    ensures
        match r {
            Ok(v) => png_file(i.width, i.height, i.pixels@) == Ok::<Seq<u8>, Seq<char>>(v@),
            Err(e) => png_file(i.width, i.height, i.pixels@) == Err::<Seq<u8>, Seq<char>>(e@),
        },
{
    let mut out = std::io::Cursor::new(Vec::new());
    let buffer = image::GrayImage::from_raw(i.width, i.height, i.pixels)
        .ok_or_else(String::new)?;
    image::DynamicImage::ImageLuma8(buffer)
        .write_to(&mut out, image::ImageFormat::Png)
        .map_err(|err| err.to_string())?;
    Ok(out.into_inner())
}

/// What a pixel becomes: black where it is dark, and white elsewhere.
pub open spec fn binary_pixel(p: u8) -> u8 {
    if p <= BINARY_THRESHOLD {
        0
    } else {
        255
    }
}

/// Brightnesses in black and white.
pub open spec fn binary_pixels(pixels: Seq<u8>) -> Seq<u8> {
    pixels.map_values(|p: u8| binary_pixel(p))
}

/// Makes brightnesses black and white.
pub fn binarize(pixels: &mut Vec<u8>)
    ensures
        final(pixels)@ == binary_pixels(old(pixels)@),
{
    let ghost start = pixels@;
    let n: usize = pixels.len();
    let mut i: usize = 0;
    while i < n
        invariant
            i <= n,
            n == start.len(),
            pixels@.len() == n,
            forall|k: int| 0 <= k < i ==> pixels@[k] == binary_pixel(start[k]),
            forall|k: int| i <= k < n ==> pixels@[k] == start[k],
        decreases n - i,
    {
        let value: u8 = if pixels[i] <= BINARY_THRESHOLD {
            0
        } else {
            255
        };
        pixels.set(i, value);
        i = i + 1;
    }
    assert(pixels@ =~= binary_pixels(start));
}

/// The encoded black and white PNG file of an image that is there.
pub open spec fn cleaned_image(b: Seq<u8>) -> Result<Seq<char>, Seq<char>> {
    match gray_pixels(b) {
        Err(e) => Err("验证码图片解码失败："@ + e),
        Ok((width, height, pixels)) => match png_file(width, height, binary_pixels(pixels)) {
            Err(e) => Err("验证码图片预处理失败："@ + e),
            Ok(file) => Ok(base64_encoded(file)),
        },
    }
}

/// The encoded black and white PNG file of an image that is there.
pub fn clean_image(b: &[u8]) -> (r: Result<String, String>)
    ensures
        text_result(r) == cleaned_image(b@),
{
    let mut gray: GrayImage = match load_gray(b) {
        Ok(gray) => gray,
        Err(e) => return Err("验证码图片解码失败：".to_string().concat(e.as_str())),
    };
    binarize(&mut gray.pixels);
    match write_png(gray) {
        Err(e) => Err("验证码图片预处理失败：".to_string().concat(e.as_str())),
        Ok(file) => Ok(encode_base64(file.as_slice())),
    }
}

/// The image that is sent to the service for an encoded image: in black and white, as a
/// PNG file.
pub fn preprocess_captcha(value: &str) -> (r: Result<String, String>)
    ensures
        text_result(r) == match image_bytes(value@) {
            Err(e) => Err(e),
            Ok(b) => cleaned_image(b),
        },
{
    let normalized: String = match normalize_image_base64(value) {
        Ok(t) => t,
        Err(e) => return Err(e),
    };
    match decode_base64(normalized.as_str().as_bytes()) {
        Err(e) => Err("验证码图片 Base64 格式无效：".to_string().concat(e.as_str())),
        Ok(bytes) => clean_image(bytes.as_slice()),
    }
}

/// A cleaned image is black and white, and cleaning it again changes no pixel.
pub proof fn cleaning_is_idempotent(pixels: Seq<u8>)
    ensures
        forall|i: int|
            0 <= i < pixels.len() ==> #[trigger] binary_pixels(pixels)[i] == 0 || binary_pixels(
                pixels,
            )[i] == 255,
        binary_pixels(binary_pixels(pixels)) == binary_pixels(pixels),
{
    assert(binary_pixels(binary_pixels(pixels)) =~= binary_pixels(pixels));
}

/// A recognition goes its way: the service and the image are made ready once, the service is
/// asked at most as often as there are tries, the model is loaded anew after the first miss
/// where a second try follows, and a pause stands before each further try.
pub proof fn recognition_goes_its_way(s: OcrModel, event: OcrEventView)
    requires
        s.well_formed(),
        s.awaits(event),
    ensures
        ({
            let (t, action) = s.next(event);
            let done = event matches OcrEventView::Done(r) && r is Ok;
            let missed = event matches OcrEventView::Reply(r) && r is Err;
            let last = s.attempt + 1 == s.attempts;
            &&& action is Clean <==> s.phase == OcrPhase::Preparing && done
            &&& action == (OcrView::Ask { png_fix: false }) <==> s.phase == OcrPhase::Cleaning
                && done && s.attempt == 0
            &&& action is Ask <==> s.phase == OcrPhase::Cleaning && done || event
                == OcrEventView::Paused && !last
            &&& event == OcrEventView::Paused && !last ==> action == (OcrView::Ask {
                png_fix: true,
            })
            &&& action is Reload <==> missed && s.attempt == 0 && s.attempts > 1
            &&& action is Pause <==> missed && (s.attempt > 0 || s.attempts == 1) || s.phase
                == OcrPhase::Reloading && done
            &&& action is Found <==> event is Reply && !missed
            &&& action is Failed <==> event == OcrEventView::Paused && last || event is Done
                && !done
            &&& t.attempt == (if event == OcrEventView::Paused && !last {
                s.attempt + 1
            } else {
                s.attempt as int
            })
            &&& t.attempts == s.attempts
        }),
{
}

/// What a recognition finds is the text of the reply, with the number of tries that it took;
/// the error that it ends with is that of the step that failed, or begins with that of the
/// last reply.
pub proof fn recognition_tells_what_came(s: OcrModel, event: OcrEventView)
    requires
        s.well_formed(),
        s.awaits(event),
    ensures
        event matches OcrEventView::Reply(Ok(text)) ==> (s.next(event).1 matches OcrView::Found(f)
            && f.text == text && f.attempts == s.attempt + 1),
        event matches OcrEventView::Reply(Err(e)) ==> s.next(event).0.last_error == e,
        !(event is Reply) ==> s.next(event).0.last_error == s.last_error,
        event matches OcrEventView::Done(Err(e)) ==> s.next(event).1 == OcrView::Failed(e),
        event == OcrEventView::Paused ==> (s.next(event).1 matches OcrView::Failed(e)
            ==> has_prefix(e, s.last_error)),
{
    if event == OcrEventView::Paused && s.attempt + 1 >= s.attempts {
        let e = s.next(event).1->Failed_0;
        assert(e.take(s.last_error.len() as int) =~= s.last_error);
    }
}

/// A service counts as ready without further ado only where it was prepared before and says
/// so; otherwise its model is loaded, and it has to say so afterwards.
pub proof fn service_is_made_ready(s: OcrInit, reply: Result<JsonView, Seq<char>>)
    requires
        s.phase != InitPhase::Done,
    ensures
        ({
            let (t, action) = init_next(s, reply);
            let ready = reply matches Ok(v) && v.text_at("service_status"@) == Some("running"@)
                && lists_text(v.at("loaded_models"@), "ocr"@) && lists_text(
                v.at("enabled_features"@),
                "ocr"@,
            );
            &&& action == (InitView::Ready { loaded: false }) <==> s.phase == InitPhase::Asking
                && ready && s.prepared
            &&& action == (InitView::Ready { loaded: true }) <==> s.phase == InitPhase::Confirming
                && ready
            &&& action is PostInitialize <==> s.phase == InitPhase::Asking && reply is Ok && !(ready
                && s.prepared)
            &&& action is GetStatus <==> s.phase == InitPhase::Loading && (reply matches Ok(v)
                && v.truth_at("success"@) == Some(true))
            &&& reply matches Err(e) ==> action == InitView::Failed(e)
            &&& action is Ready || action is Failed <==> t.phase == InitPhase::Done
            &&& action is PostInitialize ==> t.phase == InitPhase::Loading
            &&& action is GetStatus ==> t.phase == InitPhase::Confirming
            &&& t.prepared == s.prepared
        }),
{
}

/// A captcha is read out of a reply exactly where the reply tells of success and carries a
/// text of six letters and digits, white space around it aside.
pub proof fn captcha_is_six_letters_and_digits(payload: JsonView, text: Seq<char>)
    ensures
        captcha_in(payload) == Ok::<Seq<char>, Seq<char>>(text) <==> payload.truth_at("success"@)
            == Some(true) && (payload.at("data"@) matches Some(data) && (data.text_at(
            "text"@,
        ) matches Some(raw) && trimmed(raw) == text)) && text.len() > 0 && byte_length(text) == 6
            && forall|i: int| 0 <= i < text.len() ==> alphanumeric(#[trigger] text[i]),
{
}

/// The message of a reply is told in preference to its detail, and the fallback where it has
/// neither as a text.
pub proof fn message_comes_before_detail(payload: JsonView, fallback: Seq<char>)
    ensures
        payload.at("message"@) matches Some(m) ==> message_in(payload, fallback) == (
        match m.text() {
            Some(t) => t,
            None => fallback,
        }),
        payload.at("message"@) is None && payload.at("detail"@) is None ==> message_in(
            payload,
            fallback,
        ) == fallback,
        payload.at("message"@) is None ==> (payload.text_at("detail"@) matches Some(t)
            ==> message_in(payload, fallback) == t),
{
}

/// The slashes in front of a path make no difference to the address of a service.
pub proof fn service_path_may_begin_with_slash(server_url: Seq<char>, path: Seq<char>)
    ensures
        service_address(server_url, "/"@ + path) == service_address(server_url, path),
{
    reveal_strlit("/");
    assert(("/"@ + path).skip(1) =~= path);
}

/// A pixel becomes black up to a brightness of eighty, and white above it.
pub proof fn dark_pixels_become_black(pixels: Seq<u8>, i: int)
    requires
        0 <= i < pixels.len(),
    ensures
        binary_pixels(pixels).len() == pixels.len(),
        binary_pixels(pixels)[i] == 0 <==> pixels[i] <= 80,
        binary_pixels(pixels)[i] == 255 <==> pixels[i] > 80,
{
}

/// The text of an image keeps its characters but for the white space, and is written with the
/// signs of the standard alphabet.
pub proof fn image_text_is_standard(s: Seq<char>)
    ensures
        standard_text(s).len() <= s.len(),
        forall|i: int|
            0 <= i < standard_text(s).len() ==> !white(#[trigger] standard_text(s)[i])
                && standard_text(s)[i] != '-' && standard_text(s)[i] != '_',
        (forall|i: int|
            0 <= i < s.len() ==> !white(#[trigger] s[i]) && s[i] != '-' && s[i] != '_')
            ==> standard_text(s) == s,
    decreases s.len(),
{
    if s.len() > 0 {
        let head = s.drop_last();
        image_text_is_standard(head);
        if forall|i: int| 0 <= i < s.len() ==> !white(#[trigger] s[i]) && s[i] != '-' && s[i] != '_' {
            assert forall|i: int| 0 <= i < head.len() implies !white(#[trigger] head[i]) && head[i]
                != '-' && head[i] != '_' by {
                assert(s[i] == head[i]);
            }
            assert(s[s.len() - 1] == s.last());
            assert(standard_text(s) =~= s);
        }
    }
}

/// The data of an image are what stands behind the comma of a prefix that tells of base64, and
/// a text without a comma is taken as it is.
pub proof fn image_prefix_is_taken_off(prefix: Seq<char>, data: Seq<char>)
    requires
        prefix.len() > 0,
        !white(prefix[0]),
        !prefix.contains(','),
        data.len() > 0,
        !white(data.last()),
    ensures
        contains_text(lowered(prefix), ";base64"@) ==> image_data(prefix + ","@ + data) == data,
        !data.contains(',') ==> image_data(data) == data,
{
    reveal_strlit(",");
    let value = prefix + ","@ + data;
    let n = prefix.len() as int;
    assert(value[0] == prefix[0] && value.last() == data.last());
    crate::text::trimming_keeps_what_is_bare(value);
    assert forall|j: int| 0 <= j < n implies value[j] != ',' by {
        assert(value[j] == prefix[j]);
        assert(prefix.contains(prefix[j]));
    }
    assert(value[n] == ',');
    crate::text::lemma_index_of_is(value, ',', n);
    assert(value.take(n) =~= prefix);
    assert(value.skip(n + 1) =~= data);
    if !data.contains(',') {
        let t = trimmed(data);
        crate::text::cut_is_at_the_first(t, ',');
        crate::text::trimming_takes_white_space_off(data);
        let (a, b) = choose|a: int, b: int|
            0 <= a <= b <= data.len() && t == #[trigger] data.subrange(a, b);
        if t.contains(',') {
            let j = choose|j: int| 0 <= j < t.len() && t[j] == ',';
            assert(data[a + j] == ',');
        }
    }
}

} // verus!
