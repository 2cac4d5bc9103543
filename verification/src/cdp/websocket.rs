//! The message channel of the browser: frames, the handshake and the replies to calls.

use crate::bytes::{
    big_endian, big_endian_reads_back, byte_limit, from_big_endian, header_end, header_end_index,
    push_big_endian, read_big_endian, text_of_bytes, utf8_text,
};
use crate::json::{
    find_value, json_of_value, parse_value, parsed_json, rendered_json, value_model, value_text,
    Json, JsonView,
};
use crate::number::{decimal, decimal_of, number_in, parse_number, NumberError};
use crate::text::{
    after_prefix, chars_eq, chars_of, cut, cut_text, has_prefix, lowered, rcut, rsplit_once,
    split_once, split_once_str, starts_with_str, string_of, strip_prefix, to_lower,
};
use vstd::prelude::*;

verus! {

// ---------------------------------------------------------------- frames

/// The bytes with which the payload of a sent frame is masked.
pub open spec fn frame_mask() -> Seq<u8> {
    seq![0x13u8, 0x57u8, 0x9bu8, 0xdfu8]
}

/// A payload under a mask of four bytes.
pub open spec fn masked(payload: Seq<u8>, mask: Seq<u8>) -> Seq<u8> {
    Seq::new(payload.len(), |i: int| payload[i] ^ mask[i % 4])
}

/// The length part of a masked frame.
pub open spec fn length_part(len: nat) -> Seq<u8> {
    if len < 126 {
        seq![(128 + len) as u8]
    } else if len <= 0xffff {
        seq![254u8] + big_endian(len, 2)
    } else {
        seq![255u8] + big_endian(len, 8)
    }
}

/// The frame that carries a payload.
pub open spec fn frame_of(opcode: u8, payload: Seq<u8>) -> Seq<u8> {
    seq![0x80u8 | opcode] + length_part(payload.len()) + frame_mask() + masked(
        payload,
        frame_mask(),
    )
}

fn unmask(payload: &[u8], mask: &[u8]) -> (r: Vec<u8>)
    requires
        mask@.len() == 4,
    ensures
        r@ == masked(payload@, mask@),
{
    let mut out: Vec<u8> = Vec::new();
    let mut i: usize = 0;
    while i < payload.len()
        invariant
            i <= payload@.len(),
            mask@.len() == 4,
            out@.len() == i,
            forall|k: int| 0 <= k < i ==> out@[k] == payload@[k] ^ mask@[k % 4],
        decreases payload@.len() - i,
    {
        out.push(payload[i] ^ mask[i % 4]);
        i = i + 1;
    }
    assert(out@ =~= masked(payload@, mask@));
    out
}

/// The frame that carries a payload.
pub fn write_frame(opcode: u8, payload: &[u8]) -> (r: Vec<u8>)
    ensures
        r@ == frame_of(opcode, payload@),
{
    let mut frame: Vec<u8> = Vec::new();
    frame.push(0x80u8 | opcode);
    let len: usize = payload.len();
    if len < 126 {
        frame.push(128 + len as u8);
    } else if len <= 0xffff {
        frame.push(254);
        push_big_endian(&mut frame, len as u64, 2);
    } else {
        frame.push(255);
        push_big_endian(&mut frame, len as u64, 8);
    }
    let ghost head = seq![0x80u8 | opcode] + length_part(payload@.len());
    assert(frame@ =~= head);
    let mut mask: Vec<u8> = Vec::new();
    mask.push(0x13);
    mask.push(0x57);
    mask.push(0x9b);
    mask.push(0xdf);
    assert(mask@ =~= frame_mask());
    let mut body: Vec<u8> = unmask(payload, mask.as_slice());
    frame.append(&mut mask);
    frame.append(&mut body);
    assert(frame@ =~= frame_of(opcode, payload@));
    frame
}

/// How many bytes beyond the second tell the length.
pub open spec fn extra_length(second: u8) -> int {
    if second % 128 == 126 {
        2
    } else if second % 128 == 127 {
        8
    } else {
        0
    }
}

/// How many bytes the mask has.
pub open spec fn mask_length(second: u8) -> int {
    if second >= 128 {
        4
    } else {
        0
    }
}

/// The length of the payload of a frame of which the head is there.
pub open spec fn payload_length(b: Seq<u8>) -> int {
    if extra_length(b[1]) == 0 {
        (b[1] % 128) as int
    } else {
        from_big_endian(b.subrange(2, 2 + extra_length(b[1]))) as int
    }
}

/// Where the payload of a frame begins.
pub open spec fn payload_start(b: Seq<u8>) -> int {
    2 + extra_length(b[1]) + mask_length(b[1])
}

/// A received frame.
pub struct FrameView {
    pub opcode: u8,
    pub payload: Seq<u8>,
    /// How many bytes the frame takes.
    pub size: int,
}

/// The frame at the start of what has been received, once all of it is there.
pub open spec fn frame_in(b: Seq<u8>) -> Option<FrameView> {
    if b.len() < 2 || b.len() < 2 + extra_length(b[1]) || b.len() < payload_start(b)
        + payload_length(b) {
        None
    } else {
        let start = payload_start(b);
        let data = b.subrange(start, start + payload_length(b));
        Some(
            FrameView {
                opcode: b[0] % 16,
                payload: if mask_length(b[1]) == 4 {
                    masked(data, b.subrange(start - 4, start))
                } else {
                    data
                },
                size: start + payload_length(b),
            },
        )
    }
}

/// A received frame.
#[derive(Debug)]
pub struct Frame {
    pub opcode: u8,
    pub payload: Vec<u8>,
    /// How many bytes the frame takes.
    pub size: usize,
}

impl View for Frame {
    type V = FrameView;

    open spec fn view(&self) -> FrameView {
        FrameView { opcode: self.opcode, payload: self.payload@, size: self.size as int }
    }
}

/// What an optional frame says.
pub open spec fn opt_frame(f: Option<Frame>) -> Option<FrameView> {
    match f {
        Some(x) => Some(x@),
        None => None,
    }
}

/// The frame at the start of what has been received, once all of it is there.
pub fn read_frame(b: &[u8]) -> (r: Option<Frame>)
    ensures
        opt_frame(r) == frame_in(b@),
        r matches Some(f) ==> f.size <= b@.len(),
{
    let n: usize = b.len();
    if n < 2 {
        return None;
    }
    let second: u8 = b[1];
    let short: u8 = second % 128;
    let extra: usize = if short == 126 {
        2
    } else if short == 127 {
        8
    } else {
        0
    };
    if n < 2 + extra {
        return None;
    }
    let len: u64 = if extra == 0 {
        short as u64
    } else {
        read_big_endian(&b[2..2 + extra])
    };
    let mask: usize = if second >= 128 {
        4
    } else {
        0
    };
    let start: usize = 2 + extra + mask;
    if n < start || ((n - start) as u64) < len {
        return None;
    }
    let size: usize = start + len as usize;
    let data: &[u8] = &b[start..size];
    let payload: Vec<u8> = if mask == 4 {
        unmask(data, &b[start - 4..start])
    } else {
        let mut copy: Vec<u8> = Vec::new();
        copy.extend_from_slice(data);
        assert(copy@ =~= data@);
        copy
    };
    Some(Frame { opcode: b[0] % 16, payload, size })
}

proof fn lemma_mask_twice(payload: Seq<u8>, mask: Seq<u8>)
    ensures
        masked(masked(payload, mask), mask) == payload,
{
    assert forall|i: int| 0 <= i < payload.len() implies masked(masked(payload, mask), mask)[i]
        == payload[i] by {
        let a = payload[i];
        let m = mask[i % 4];
        assert((a ^ m) ^ m == a) by (bit_vector);
    }
    assert(masked(masked(payload, mask), mask) =~= payload);
}

/// What a frame carries is read back from it, whatever follows, and not before the
/// frame is complete.
pub proof fn frame_reads_back(opcode: u8, payload: Seq<u8>, rest: Seq<u8>, n: int)
    requires
        opcode < 16,
        payload.len() <= u64::MAX,
        0 <= n < frame_of(opcode, payload).len(),
    ensures
        frame_in(frame_of(opcode, payload) + rest) == Some(
            FrameView { opcode, payload, size: frame_of(opcode, payload).len() as int },
        ),
        frame_in(frame_of(opcode, payload).take(n)) is None,
{
    let len = payload.len();
    let frame = frame_of(opcode, payload);
    let all = frame + rest;
    let part = frame.take(n);
    reveal_with_fuel(byte_limit, 10);
    assert((0x80u8 | opcode) % 16 == opcode) by (bit_vector)
        requires
            opcode < 16,
    ;
    if 126 <= len <= 0xffff {
        big_endian_reads_back(len, 2);
        assert(all.subrange(2, 4) =~= big_endian(len, 2));
        assert(n >= 4 ==> part.subrange(2, 4) =~= big_endian(len, 2));
    } else if len > 0xffff {
        big_endian_reads_back(len, 8);
        assert(all.subrange(2, 10) =~= big_endian(len, 8));
        assert(n >= 10 ==> part.subrange(2, 10) =~= big_endian(len, 8));
    }
    let start = payload_start(all);
    assert(all[1] == length_part(len)[0]);
    assert(frame.len() == start + len);
    assert(all.subrange(start, start + len) =~= masked(payload, frame_mask()));
    assert(all.subrange(start - 4, start) =~= frame_mask());
    lemma_mask_twice(payload, frame_mask());
    assert(n >= 2 ==> part[1] == all[1]);
}

/// What a received frame leads to.
#[derive(Debug)]
pub enum Received {
    Message(String),
    Failed(String),
    /// The frame to send back.
    Reply(Vec<u8>),
    Nothing,
}

/// What a `Received` says.
pub enum ReceivedView {
    Message(Seq<char>),
    Failed(Seq<char>),
    Reply(Seq<u8>),
    Nothing,
}

impl View for Received {
    type V = ReceivedView;

    open spec fn view(&self) -> ReceivedView {
        match *self {
            Received::Message(t) => ReceivedView::Message(t@),
            Received::Failed(t) => ReceivedView::Failed(t@),
            Received::Reply(b) => ReceivedView::Reply(b@),
            Received::Nothing => ReceivedView::Nothing,
        }
    }
}

/// What a received frame leads to: a text is a message, a close ends the channel, and a
/// ping is answered with its own payload.
pub open spec fn meaning(opcode: u8, payload: Seq<u8>) -> ReceivedView {
    if opcode == 0x1 {
        match utf8_text(payload) {
            Ok(t) => ReceivedView::Message(t),
            Err(e) => ReceivedView::Failed("CDP WebSocket 文本不是 UTF-8："@ + e),
        }
    } else if opcode == 0x8 {
        ReceivedView::Failed("CDP WebSocket 已关闭"@)
    } else if opcode == 0x9 {
        ReceivedView::Reply(frame_of(0xA, payload))
    } else {
        ReceivedView::Nothing
    }
}

/// What a received frame leads to.
pub fn frame_meaning(frame: Frame) -> (r: Received)
    ensures
        r@ == meaning(frame.opcode, frame.payload@),
{
    if frame.opcode == 0x1 {
        match text_of_bytes(frame.payload) {
            Ok(t) => Received::Message(t),
            Err(e) => Received::Failed(
                "CDP WebSocket 文本不是 UTF-8：".to_string().concat(e.as_str()),
            ),
        }
    } else if frame.opcode == 0x8 {
        Received::Failed("CDP WebSocket 已关闭".to_string())
    } else if frame.opcode == 0x9 {
        Received::Reply(write_frame(0xA, frame.payload.as_slice()))
    } else {
        Received::Nothing
    }
}

/// What is reported when reading fails while a frame is incomplete.
pub fn read_failure(received: usize, err: &str) -> (r: String)
    ensures
        r@ == if received < 2 {
            "读取 CDP WebSocket 帧失败："@ + err@
        } else {
            err@
        },
{
    if received < 2 {
        "读取 CDP WebSocket 帧失败：".to_string().concat(err)
    } else {
        err.to_string()
    }
}

// ---------------------------------------------------------------- the address

/// The place of a message channel.
#[derive(Debug)]
pub struct WsEndpoint {
    pub host: String,
    pub port: u16,
    pub path: String,
}

/// What a `WsEndpoint` says.
pub struct EndpointView {
    pub host: Seq<char>,
    pub port: u16,
    pub path: Seq<char>,
}

impl View for WsEndpoint {
    type V = EndpointView;

    open spec fn view(&self) -> EndpointView {
        EndpointView { host: self.host@, port: self.port, path: self.path@ }
    }
}

/// How the standard library words the error of a decimal number.
pub open spec fn number_error(e: NumberError) -> Seq<char> {
    match e {
        NumberError::Empty => "cannot parse integer from empty string"@,
        NumberError::InvalidDigit => "invalid digit found in string"@,
        NumberError::TooLarge => "number too large to fit in target type"@,
    }
}

/// The port that a text names.
pub open spec fn ws_port(s: Seq<char>) -> Result<u16, Seq<char>> {
    match number_in(s, 10, 0xffff) {
        Ok(v) => Ok(v as u16),
        Err(e) => Err("CDP WebSocket 端口无效："@ + number_error(e)),
    }
}

fn read_port(s: &[char]) -> (r: Result<u16, String>)
    ensures
        match r {
            Ok(p) => ws_port(s@) == Ok::<u16, Seq<char>>(p),
            Err(e) => ws_port(s@) == Err::<u16, Seq<char>>(e@),
        },
{
    match parse_number(s, 10, 0xffff) {
        Ok(v) => Ok(v as u16),
        Err(e) => {
            let text: &str = match e {
                NumberError::Empty => "cannot parse integer from empty string",
                NumberError::InvalidDigit => "invalid digit found in string",
                NumberError::TooLarge => "number too large to fit in target type",
            };
            Err("CDP WebSocket 端口无效：".to_string().concat(text))
        },
    }
}

/// The host and the port of an authority; an address in brackets has colons of its own.
pub open spec fn ws_authority(s: Seq<char>) -> Result<(Seq<char>, u16), Seq<char>> {
    match after_prefix(s, "["@) {
        Some(rest) => match cut_text(rest, "]:"@) {
            None => Err("CDP WebSocket IPv6 地址格式无效"@),
            Some((host, port)) => match ws_port(port) {
                Ok(p) => Ok((host, p)),
                Err(e) => Err(e),
            },
        },
        None => match rcut(s, ':') {
            None => Ok((s, 80u16)),
            Some((host, port)) => match ws_port(port) {
                Ok(p) => Ok((host, p)),
                Err(e) => Err(e),
            },
        },
    }
}

/// The host and the port of an authority.
pub fn parse_ws_host_port<'a>(host_port: &'a [char]) -> (r: Result<(&'a [char], u16), String>)
    ensures
        match r {
            Ok((h, p)) => ws_authority(host_port@) == Ok::<(Seq<char>, u16), Seq<char>>((h@, p)),
            Err(e) => ws_authority(host_port@) == Err::<(Seq<char>, u16), Seq<char>>(e@),
        },
{
    match strip_prefix(host_port, "[") {
        Some(rest) => match split_once_str(rest, "]:") {
            None => Err("CDP WebSocket IPv6 地址格式无效".to_string()),
            Some((host, port)) => match read_port(port) {
                Ok(p) => Ok((host, p)),
                Err(e) => Err(e),
            },
        },
        None => match rsplit_once(host_port, ':') {
            None => Ok((host_port, 80)),
            Some((host, port)) => match read_port(port) {
                Ok(p) => Ok((host, p)),
                Err(e) => Err(e),
            },
        },
    }
}

/// A square bracket.
pub open spec fn bracket(c: char) -> bool {
    c == '[' || c == ']'
}

/// A text without the brackets around it.
pub open spec fn unbracketed(s: Seq<char>) -> Seq<char>
    decreases s.len(),
{
    if s.len() > 0 && bracket(s[0]) {
        unbracketed(s.skip(1))
    } else if s.len() > 0 && bracket(s.last()) {
        unbracketed(s.drop_last())
    } else {
        s
    }
}

fn strip_brackets<'a>(s: &'a [char]) -> (r: &'a [char])
    ensures
        r@ == unbracketed(s@),
    decreases s@.len(),
{
    let n: usize = s.len();
    if n > 0 && (s[0] == '[' || s[0] == ']') {
        assert(s@.subrange(1, n as int) =~= s@.skip(1));
        strip_brackets(&s[1..n])
    } else if n > 0 && (s[n - 1] == '[' || s[n - 1] == ']') {
        assert(s@.subrange(0, n - 1) =~= s@.drop_last());
        strip_brackets(&s[0..n - 1])
    } else {
        s
    }
}

/// Whether a host is this machine.
pub open spec fn is_local(host: Seq<char>) -> bool {
    let h = lowered(unbracketed(host));
    h == "127.0.0.1"@ || h == "localhost"@ || h == "::1"@
}

fn local_host(host: &[char]) -> (r: bool)
    ensures
        r == is_local(host@),
{
    let h: Vec<char> = to_lower(strip_brackets(host));
    let ip: Vec<char> = chars_of("127.0.0.1");
    let name: Vec<char> = chars_of("localhost");
    let ip6: Vec<char> = chars_of("::1");
    chars_eq(h.as_slice(), ip.as_slice()) || chars_eq(h.as_slice(), name.as_slice()) || chars_eq(
        h.as_slice(),
        ip6.as_slice(),
    )
}

/// The place that an address names; only this machine is accepted.
pub open spec fn endpoint_of(url: Seq<char>) -> Result<EndpointView, Seq<char>> {
    match after_prefix(url, "ws://"@) {
        None => Err("仅支持本地 ws:// CDP 地址"@),
        Some(rest) => match cut(rest, '/') {
            None => Err("CDP WebSocket 地址缺少路径"@),
            Some((authority, path)) => match ws_authority(authority) {
                Err(e) => Err(e),
                Ok((host, port)) => if !is_local(host) {
                    Err("只允许连接本机 CDP WebSocket"@)
                } else {
                    Ok(EndpointView { host: "127.0.0.1"@, port, path: "/"@ + path })
                },
            },
        },
    }
}

/// What the reading of an address says.
pub open spec fn endpoint_result(r: Result<WsEndpoint, String>) -> Result<EndpointView, Seq<char>> {
    match r {
        Ok(e) => Ok(e@),
        Err(e) => Err(e@),
    }
}

/// The place that an address names.
pub fn parse_ws_url(url: &str) -> (r: Result<WsEndpoint, String>)
    ensures
        endpoint_result(r) == endpoint_of(url@),
{
    let chars: Vec<char> = chars_of(url);
    let rest: &[char] = match strip_prefix(chars.as_slice(), "ws://") {
        Some(rest) => rest,
        None => return Err("仅支持本地 ws:// CDP 地址".to_string()),
    };
    match split_once(rest, '/') {
        None => Err("CDP WebSocket 地址缺少路径".to_string()),
        Some((authority, path)) => match parse_ws_host_port(authority) {
            Err(e) => Err(e),
            Ok((host, port)) => if !local_host(host) {
                Err("只允许连接本机 CDP WebSocket".to_string())
            } else {
                Ok(
                    WsEndpoint {
                        host: "127.0.0.1".to_string(),
                        port,
                        path: "/".to_string().concat(string_of(path).as_str()),
                    },
                )
            },
        },
    }
}

/// Whatever address is accepted, the connection goes to this machine.
pub proof fn connections_stay_local(url: Seq<char>)
    ensures
        endpoint_of(url) matches Ok(e) ==> e.host == "127.0.0.1"@,
{
}

// ---------------------------------------------------------------- the handshake

/// The request that opens the channel.
pub fn handshake_request(endpoint: &WsEndpoint) -> (r: String)
    ensures
        r@ == "GET "@ + endpoint.path@ + " HTTP/1.1\r\nHost: "@ + endpoint.host@ + ":"@ + decimal(
            endpoint.port as nat,
        )
            + "\r\nUpgrade: websocket\r\nConnection: Upgrade\r\nSec-WebSocket-Key: cHRtYW5hZ2VyY2RwMTIzNA==\r\nSec-WebSocket-Version: 13\r\n\r\n"@,
{
    "GET ".to_string().concat(endpoint.path.as_str()).concat(" HTTP/1.1\r\nHost: ").concat(
        endpoint.host.as_str(),
    ).concat(":").concat(decimal_of(endpoint.port as u64).as_str()).concat(
        "\r\nUpgrade: websocket\r\nConnection: Upgrade\r\nSec-WebSocket-Key: cHRtYW5hZ2VyY2RwMTIzNA==\r\nSec-WebSocket-Version: 13\r\n\r\n",
    )
}

/// A longer answer to the handshake is refused.
pub const MAX_HANDSHAKE_BYTES: usize = 65536;

/// What another piece of the answer to the handshake leads to.
#[derive(Debug)]
pub enum Handshake {
    More,
    Done,
    Failed(String),
}

/// What a `Handshake` says.
pub enum HandshakeView {
    More,
    Done,
    Failed(Seq<char>),
}

impl View for Handshake {
    type V = HandshakeView;

    open spec fn view(&self) -> HandshakeView {
        match *self {
            Handshake::More => HandshakeView::More,
            Handshake::Done => HandshakeView::Done,
            Handshake::Failed(t) => HandshakeView::Failed(t@),
        }
    }
}

/// What the answer to the handshake says.
pub open spec fn handshake_answer(raw: Seq<u8>) -> HandshakeView {
    match utf8_text(raw) {
        Err(e) => HandshakeView::Failed("CDP WebSocket 握手响应不是 UTF-8："@ + e),
        Ok(t) => if has_prefix(t, "HTTP/1.1 101"@) {
            HandshakeView::Done
        } else {
            HandshakeView::Failed("CDP WebSocket 握手失败"@)
        },
    }
}

/// What the answer to the handshake leads to, as far as it has been read; `ended` tells
/// that no more can be read.
pub open spec fn handshake_after(raw: Seq<u8>, ended: bool) -> HandshakeView {
    if ended || header_end(raw) is Some {
        handshake_answer(raw)
    } else if raw.len() > MAX_HANDSHAKE_BYTES {
        HandshakeView::Failed("CDP WebSocket 握手响应过大"@)
    } else {
        HandshakeView::More
    }
}

/// What the answer to the handshake leads to, as far as it has been read.
pub fn read_handshake(raw: &Vec<u8>, ended: bool) -> (r: Handshake)
    ensures
        r@ == handshake_after(raw@, ended),
{
    if ended || header_end_index(raw.as_slice()).is_some() {
        match text_of_bytes(raw.clone()) {
            Err(e) => Handshake::Failed(
                "CDP WebSocket 握手响应不是 UTF-8：".to_string().concat(e.as_str()),
            ),
            Ok(t) => {
                let chars: Vec<char> = chars_of(t.as_str());
                if starts_with_str(chars.as_slice(), "HTTP/1.1 101") {
                    Handshake::Done
                } else {
                    Handshake::Failed("CDP WebSocket 握手失败".to_string())
                }
            },
        }
    } else if raw.len() > MAX_HANDSHAKE_BYTES {
        Handshake::Failed("CDP WebSocket 握手响应过大".to_string())
    } else {
        Handshake::More
    }
}

// ---------------------------------------------------------------- calls

/// What a message says about a call.
pub enum Reply {
    /// The message belongs to something else.
    Other,
    Answer(serde_json::Value),
    Failed(String),
}

/// What a `Reply` says.
pub enum ReplyView {
    Other,
    Answer(JsonView),
    Failed(Seq<char>),
}

impl View for Reply {
    type V = ReplyView;

    open spec fn view(&self) -> ReplyView {
        match *self {
            Reply::Other => ReplyView::Other,
            Reply::Answer(v) => ReplyView::Answer(value_model(v)),
            Reply::Failed(t) => ReplyView::Failed(t@),
        }
    }
}

/// What a message says about the call of a method under an id.
pub open spec fn reply_in(message: JsonView, id: u64, method: Seq<char>) -> ReplyView {
    if message.unsigned_at("id"@) != Some(id) {
        ReplyView::Other
    } else {
        match message.at("error"@) {
            Some(error) => ReplyView::Failed(
                "CDP 方法 "@ + method + " 调用失败："@ + rendered_json(error),
            ),
            None => ReplyView::Answer(message),
        }
    }
}

/// What a message says about the call of a method under an id.
pub fn reply_of_value(message: serde_json::Value, id: u64, method: &str) -> (r: Reply)
    ensures
        r@ == reply_in(value_model(message), id, method@),
{
    let json: Json = json_of_value(&message);
    match json.u64_at("id") {
        Some(n) => if n != id {
            return Reply::Other;
        },
        None => return Reply::Other,
    }
    let failure: Option<String> = match find_value(&message, "error") {
        Some(error) => Some(value_text(error)),
        None => None,
    };
    match failure {
        Some(error) => Reply::Failed(
            "CDP 方法 ".to_string().concat(method).concat(" 调用失败：").concat(
                error.as_str(),
            ),
        ),
        None => Reply::Answer(message),
    }
}

/// What a received text says about the call of a method under an id.
pub open spec fn reply_to(message: Seq<char>, id: u64, method: Seq<char>) -> ReplyView {
    match parsed_json(message) {
        Err(e) => ReplyView::Failed("CDP WebSocket 响应解析失败："@ + e),
        Ok(v) => reply_in(v, id, method),
    }
}

/// What a received text says about the call of a method under an id.
pub fn reply_of(message: &str, id: u64, method: &str) -> (r: Reply)
    ensures
        r@ == reply_to(message@, id, method@),
{
    match parse_value(message) {
        Err(e) => Reply::Failed("CDP WebSocket 响应解析失败：".to_string().concat(e.as_str())),
        Ok(v) => reply_of_value(v, id, method),
    }
}

/// A ping is answered with the same payload in a pong, a text is a message, the end of the
/// connection is told, and nothing else means anything.
pub proof fn ping_is_answered_with_its_payload(opcode: u8, payload: Seq<u8>)
    requires
        payload.len() <= u64::MAX,
    ensures
        meaning(opcode, payload) is Reply <==> opcode == 9,
        meaning(opcode, payload) matches ReceivedView::Reply(b) ==> frame_in(b) == Some(
            FrameView { opcode: 10, payload, size: b.len() as int },
        ),
        opcode == 1 ==> (utf8_text(payload) matches Ok(t) ==> meaning(opcode, payload)
            == ReceivedView::Message(t)),
        meaning(opcode, payload) is Message ==> opcode == 1,
        opcode == 8 ==> meaning(opcode, payload) is Failed,
        meaning(opcode, payload) is Nothing <==> opcode != 1 && opcode != 8 && opcode != 9,
{
    let b = frame_of(10, payload);
    frame_reads_back(10, payload, Seq::empty(), 0);
    assert(b + Seq::<u8>::empty() =~= b);
}

/// A frame that carries no mask carries its payload as it is; what the library sends carries a
/// mask.
pub proof fn unmasked_frame_is_read(opcode: u8, payload: Seq<u8>, rest: Seq<u8>)
    requires
        opcode < 16,
        payload.len() < 126,
    ensures
        frame_in(seq![(128 + opcode) as u8, payload.len() as u8] + payload + rest) == Some(
            FrameView { opcode, payload, size: 2 + payload.len() as int },
        ),
        frame_of(opcode, payload)[1] >= 128,
{
    let b = seq![(128 + opcode) as u8, payload.len() as u8] + payload + rest;
    assert(b[0] == (128 + opcode) as u8);
    assert(b[1] == payload.len() as u8);
    assert(b.subrange(2, 2 + payload.len() as int) =~= payload);
}

/// A message answers a call exactly where it has the number of the call and tells of no error;
/// one with another number belongs to something else.
pub proof fn reply_has_the_number_of_the_call(message: JsonView, id: u64, method: Seq<char>)
    ensures
        reply_in(message, id, method) is Other <==> message.unsigned_at("id"@) != Some(id),
        reply_in(message, id, method) is Failed <==> message.unsigned_at("id"@) == Some(id)
            && message.at("error"@) is Some,
        reply_in(message, id, method) matches ReplyView::Answer(v) ==> v == message,
{
}

/// The address of a channel is read for what it names: it is accepted exactly where its host
/// is this machine, with its port and its path.
pub proof fn channel_address_is_read(h: Seq<char>, port: u16, path: Seq<char>)
    requires
        h.len() > 0,
        forall|i: int|
            0 <= i < h.len() ==> (#[trigger] h[i]) != '/' && h[i] != ':' && h[i] != '[' && h[i]
                != ']',
    ensures
        ({
            let r = endpoint_of("ws://"@ + (h + ":"@ + decimal(port as nat) + "/"@ + path));
            &&& r is Ok <==> lowered(h) == "127.0.0.1"@ || lowered(h) == "localhost"@
            &&& r matches Ok(e) ==> e.port == port && e.path == "/"@ + path
        }),
{
    reveal_strlit("ws://");
    reveal_strlit(":");
    reveal_strlit("/");
    reveal_strlit("[");
    reveal_strlit("::1");
    let digits = decimal(port as nat);
    crate::number::decimal_is_digits(port as nat);
    crate::number::decimal_reads_back(port as nat, 0xffff);
    let rest = h + ":"@ + digits + "/"@ + path;
    let url = "ws://"@ + rest;
    let place = h + ":"@ + digits;
    let n = place.len() as int;
    assert(url.take(5) =~= "ws://"@);
    assert(url.skip(5) =~= rest);
    assert forall|j: int| 0 <= j < n implies rest[j] != '/' by {
        if j < h.len() {
            assert(rest[j] == h[j]);
        } else if j > h.len() {
            assert(rest[j] == digits[j - h.len() - 1]);
        }
    }
    assert(rest[n] == '/');
    crate::text::lemma_index_of_is(rest, '/', n);
    assert(rest.take(n) =~= place);
    assert(rest.skip(n + 1) =~= path);
    assert(place[0] == h[0]);
    if has_prefix(place, "["@) {
        assert(place.take(1)[0] == '[');
    }
    crate::text::lemma_last_index_of(place, ':');
    let k = crate::text::last_index_of(place, ':');
    assert(place[h.len() as int] == ':');
    if k > h.len() {
        assert(place[k] == digits[k - h.len() - 1]);
    }
    assert(k == h.len());
    assert(place.take(k) =~= h);
    assert(place.skip(k + 1) =~= digits);
    assert(!bracket(h[0]) && !bracket(h[h.len() - 1]));
    assert(unbracketed(h) == h);
    if lowered(h) == "::1"@ {
        assert(lowered(h)[0] == ':');
        assert(crate::text::lower(h[0]) == ':');
    }
}

/// A handshake is done exactly where its whole answer begins with the status that switches
/// protocols.
pub proof fn handshake_needs_its_status(raw: Seq<u8>, ended: bool)
    ensures
        handshake_after(raw, ended) is Done <==> (ended || header_end(raw) is Some) && (utf8_text(
            raw,
        ) matches Ok(t) && has_prefix(t, "HTTP/1.1 101"@)),
        handshake_after(raw, ended) is More <==> !ended && header_end(raw) is None && raw.len()
            <= 65536,
{
}

} // verus!
