use pt_manager::cdp::http::{
    content_length_from_headers, find_status, is_success, parse_http_response, request_text,
    status_error, HttpReader, ReadStep, MAX_CDP_HTTP_RESPONSE_BYTES,
};
use pt_manager::cdp::websocket::{
    frame_meaning, handshake_request, parse_ws_host_port, parse_ws_url, read_failure, read_frame,
    read_handshake, reply_of, write_frame, Frame, Handshake, Received, Reply,
};
use pt_manager::cdp::{
    chrome_installed, clear_calls, close_tab_path, connected_message, cookie_was_stored,
    devtools_port, find_chrome_executable, find_page_websocket_url, find_tab_for_url,
    launch_arguments, launch_urls, new_tab_path, nonblank_urls, page_websocket_step, tab_has_host,
    tab_host, tabs_to_reload, unique_urls, websocket_url_for_tab, CdpClient, CdpTab, ChannelStep,
    ChromeCandidate, ClearCall,
};
use pt_manager::json::parse_json;
use pt_manager::text::{chars_of, string_of};

fn tab(id: &str, url: &str, kind: &str, channel: Option<&str>) -> CdpTab {
    CdpTab {
        id: id.to_string(),
        url: Some(url.to_string()),
        tab_type: Some(kind.to_string()),
        web_socket_debugger_url: channel.map(|s| s.to_string()),
    }
}

fn tabs() -> Vec<CdpTab> {
    vec![
        CdpTab {
            id: "0".to_string(),
            url: None,
            tab_type: None,
            web_socket_debugger_url: Some("ws://x/0".to_string()),
        },
        tab("1", "https://a.b/worker", "worker", Some("ws://x/1")),
        tab("2", "https://A.b:443/x", "page", None),
        tab("3", "http://c.d/", "page", Some("ws://x/3")),
        tab("4", "about:blank", "page", Some("ws://x/4")),
    ]
}

fn strings(list: &[&str]) -> Vec<String> {
    list.iter().map(|s| s.to_string()).collect()
}

#[test]
fn tabs_are_found_by_host() {
    assert_eq!(find_tab_for_url(&tabs(), "https://a.b/other"), Some("2".to_string()));
    assert_eq!(find_tab_for_url(&tabs(), "https://e.f"), None);
    assert_eq!(find_tab_for_url(&tabs(), "a.b"), None);
    assert_eq!(tab_host(&tabs(), "1"), Some("a.b".to_string()));
    assert_eq!(tab_host(&tabs(), "4"), None);
    assert!(tab_has_host(&tabs(), "3", "c.d"));
    assert!(!tab_has_host(&tabs(), "9", "c.d"));
}

#[test]
fn channels_are_found() {
    assert_eq!(find_page_websocket_url(&tabs()), Some("ws://x/3".to_string()));
    assert_eq!(websocket_url_for_tab(&tabs(), "0"), Some("ws://x/0".to_string()));
    assert_eq!(websocket_url_for_tab(&tabs(), "2"), None);
    assert!(matches!(page_websocket_step(&vec![], false), ChannelStep::OpenBlank));
    match page_websocket_step(&vec![], true) {
        ChannelStep::Failed(message) => assert_eq!(message, "未找到可用的 Chrome 页面调试通道"),
        other => panic!("{:?}", other),
    }
    assert!(matches!(page_websocket_step(&tabs(), false), ChannelStep::Use(u) if u == "ws://x/3"));
}

#[test]
fn pages_of_sites_are_reloaded() {
    assert_eq!(
        tabs_to_reload(&tabs(), &strings(&["https://a.b", "http://c.d/x"])),
        strings(&["ws://x/3"])
    );
    assert!(tabs_to_reload(&tabs(), &vec![]).is_empty());
}

#[test]
fn cookies_cache_and_origins_are_cleared() {
    let calls = clear_calls(&strings(&["https://A.b/x", "https://a.b/y", "http://c.d:1/"]));
    assert_eq!(calls.len(), 4);
    assert!(matches!(calls[0], ClearCall::Cookies));
    assert!(matches!(calls[1], ClearCall::Cache));
    assert!(matches!(&calls[2], ClearCall::Origin(o) if o == "https://a.b"));
    assert!(matches!(&calls[3], ClearCall::Origin(o) if o == "http://c.d:1"));
}

#[test]
fn cookies_are_stored_when_the_browser_says_so() {
    assert!(cookie_was_stored(&parse_json(r#"{"result":{"success":true}}"#).unwrap()));
    for text in [r#"{"result":{"success":false}}"#, r#"{"result":{"success":1}}"#, "{}"] {
        assert!(!cookie_was_stored(&parse_json(text).unwrap()));
    }
}

#[test]
fn requests_to_the_browser_are_written_out() {
    assert_eq!(CdpClient::new(9333).port(), 9333);
    assert_eq!(
        request_text("GET", "/json/list", 9222),
        "GET /json/list HTTP/1.1\r\nHost: localhost:9222\r\nConnection: close\r\n\r\n"
    );
    assert_eq!(new_tab_path(" https://a.b/?x=1 y "), "/json/new?https://a.b/?x=1%20y");
    assert_eq!(close_tab_path("T"), "/json/close/T");
}

#[test]
fn the_first_browser_at_hand_is_taken() {
    let none = ChromeCandidate { path: "a".to_string(), exists: false, in_path: None };
    let found = ChromeCandidate {
        path: "b".to_string(),
        exists: false,
        in_path: Some("/bin/b".to_string()),
    };
    let there = ChromeCandidate {
        path: "c".to_string(),
        exists: true,
        in_path: Some("/bin/c".to_string()),
    };
    assert!(!chrome_installed(&vec![]));
    let list = vec![none, found, there];
    assert_eq!(find_chrome_executable(&list), Some("/bin/b".to_string()));
    assert!(chrome_installed(&list));
    assert_eq!(find_chrome_executable(&list.into_iter().skip(2).collect()), Some("c".to_string()));
}

#[test]
fn addresses_to_open_are_distinct() {
    let urls = strings(&[" a ", "", "b", "a"]);
    assert_eq!(nonblank_urls(&urls), strings(&["a", "b", "a"]));
    assert_eq!(unique_urls(&urls), strings(&["a", "b"]));
    assert_eq!(launch_urls(&urls), strings(&["a", "b"]));
    assert_eq!(launch_urls(&strings(&["  "])), strings(&["about:blank"]));
}

#[test]
fn connections_are_told_with_their_pages() {
    assert_eq!(connected_message("P", 1, 0), "P：localhost:1");
    assert_eq!(
        connected_message("P", 1, 1),
        "P：localhost:1，已打开 1 个站点。首次使用请在该窗口登录站点。"
    );
    assert_eq!(
        connected_message("P", 1, 12),
        "P：localhost:1，已打开 12 个站点。首次使用请在该窗口登录站点。"
    );
}

#[test]
fn the_port_stands_in_the_first_line() {
    assert_eq!(devtools_port(" 9222 \r\n/devtools/x"), Some(9222));
    assert_eq!(devtools_port(""), None);
    assert_eq!(devtools_port("\n9222"), None);
    assert_eq!(devtools_port("99999"), None);
}

#[test]
fn browsers_are_started_with_a_profile() {
    assert_eq!(
        launch_arguments("/p", strings(&["u", "v"]), Some(9222)),
        strings(&[
            "--remote-debugging-port=9222",
            "--remote-debugging-address=127.0.0.1",
            "--user-data-dir=/p",
            "--no-first-run",
            "--no-default-browser-check",
            "--new-window",
            "u",
            "v",
        ])
    );
    assert_eq!(launch_arguments("/p", vec![], None)[0], "--remote-debugging-port=0");
}

#[test]
fn replies_have_a_status_and_a_body() {
    let reply = parse_http_response("HTTP/1.1 200 OK\r\nA: b\r\n\r\nx\r\n\r\ny").unwrap();
    assert_eq!((reply.status, reply.body.as_str()), (200, "x\r\n\r\ny"));
    let reply = parse_http_response("HTTP/1.1 404").unwrap();
    assert_eq!((reply.status, reply.body.as_str()), (404, ""));
    for raw in ["", "HTTP/1.1", "HTTP/1.1 abc", "\r\n\r\nx", "HTTP/1.1 70000 X"] {
        assert_eq!(
            parse_http_response(raw).err(),
            Some("无法解析 CDP HTTP 响应".to_string())
        );
    }
    assert_eq!(find_status(&chars_of("HTTP/1.1 302 Found\nx")), Some(302));
    assert!(is_success(200) && is_success(299) && !is_success(300) && !is_success(199));
    assert_eq!(status_error(500), "CDP 返回 HTTP 500");
}

#[test]
fn lengths_are_read_from_headers() {
    assert_eq!(content_length_from_headers("H\r\ncontent-LENGTH:  12 \r\n"), Some(12));
    assert_eq!(content_length_from_headers("Content-Length: x\nContent-Length: 3"), Some(3));
    assert_eq!(content_length_from_headers("Content-Length : 3"), None);
    assert_eq!(content_length_from_headers(""), None);
}

fn done(step: ReadStep) -> String {
    match step {
        ReadStep::Done(text) => text,
        other => panic!("{:?}", other),
    }
}

fn failed(step: ReadStep) -> String {
    match step {
        ReadStep::Failed(text) => text,
        other => panic!("{:?}", other),
    }
}

#[test]
fn replies_are_read_up_to_their_length() {
    let raw = b"HTTP/1.1 200 OK\r\nContent-Length: 3\r\n\r\nabcd";
    let mut whole = HttpReader::new();
    let text = done(whole.feed(raw));
    assert!(text.ends_with("\r\n\r\nabc"));
    let mut reader = HttpReader::new();
    for byte in &raw[..raw.len() - 2] {
        assert!(matches!(reader.feed(&[*byte]), ReadStep::More));
    }
    assert_eq!(done(reader.feed(&raw[raw.len() - 2..])), text);
}

#[test]
fn replies_without_a_length_end_with_their_headers() {
    let mut reader = HttpReader::new();
    assert!(matches!(reader.feed(b"HTTP/1.1 200 OK\r\n"), ReadStep::More));
    assert_eq!(done(reader.feed(b"\r\nab")), "HTTP/1.1 200 OK\r\n\r\nab");
}

#[test]
fn broken_replies_are_refused() {
    let mut reader = HttpReader::new();
    assert_eq!(failed(reader.feed(b"")), "CDP HTTP 响应缺少响应头");
    let mut reader = HttpReader::new();
    assert!(matches!(reader.feed(b"H\r\nContent-Length: 3\r\n\r\na"), ReadStep::More));
    assert_eq!(failed(reader.feed(b"")), "CDP HTTP 响应体提前结束");
    let mut reader = HttpReader::new();
    let large = vec![b'a'; MAX_CDP_HTTP_RESPONSE_BYTES + 1];
    assert_eq!(failed(reader.feed(&large)), "CDP HTTP 响应过大");
    let mut reader = HttpReader::new();
    assert!(failed(reader.feed(b"\xff\r\n\r\n")).starts_with("CDP HTTP 响应头不是 UTF-8："));
    let mut reader = HttpReader::new();
    assert!(failed(reader.feed(b"H\r\n\r\n\xff")).starts_with("CDP HTTP 响应不是 UTF-8："));
}

#[test]
fn short_frames_are_masked() {
    assert_eq!(
        write_frame(0x1, b"ab"),
        vec![0x81, 0x82, 0x13, 0x57, 0x9b, 0xdf, b'a' ^ 0x13, b'b' ^ 0x57]
    );
}

#[test]
fn frames_read_back() {
    for n in [0usize, 1, 125, 126, 127, 65535, 65536, 70000] {
        let payload: Vec<u8> = (0..n).map(|i| (i % 251) as u8).collect();
        let raw = write_frame(0xA, &payload);
        let frame = read_frame(&raw).unwrap();
        assert_eq!(frame.opcode, 0xA);
        assert_eq!(frame.payload, payload);
        assert_eq!(frame.size, raw.len());
        let mut more = raw.clone();
        more.push(7);
        assert_eq!(read_frame(&more).unwrap().size, raw.len());
        assert!(read_frame(&raw[..raw.len() - 1]).is_none());
    }
    assert!(read_frame(&[]).is_none());
    let plain = read_frame(&[0x81, 0x02, b'h', b'i']).unwrap();
    assert_eq!(plain.payload, b"hi".to_vec());
    assert!(read_frame(&[0x81, 0xff, 0xff, 0xff, 0xff, 0xff, 0xff, 0xff, 0xff, 0xff]).is_none());
}

fn frame(opcode: u8, payload: &[u8]) -> Frame {
    Frame { opcode, payload: payload.to_vec(), size: payload.len() + 2 }
}

#[test]
fn frames_have_meanings() {
    assert!(matches!(frame_meaning(frame(1, b"x")), Received::Message(m) if m == "x"));
    assert!(matches!(frame_meaning(frame(8, b"")), Received::Failed(m) if m == "CDP WebSocket 已关闭"));
    assert!(matches!(frame_meaning(frame(9, b"p")), Received::Reply(r) if r == write_frame(0xA, b"p")));
    assert!(matches!(frame_meaning(frame(2, b"")), Received::Nothing));
    match frame_meaning(frame(1, &[0xff])) {
        Received::Failed(m) => assert!(m.starts_with("CDP WebSocket 文本不是 UTF-8：")),
        other => panic!("{:?}", other),
    }
    assert_eq!(read_failure(0, "e"), "读取 CDP WebSocket 帧失败：e");
    assert_eq!(read_failure(2, "e"), "e");
}

#[test]
fn channels_lead_to_this_machine() {
    let endpoint = parse_ws_url("ws://localhost:9222/devtools/page/1").unwrap();
    assert_eq!(
        (endpoint.host.as_str(), endpoint.port, endpoint.path.as_str()),
        ("127.0.0.1", 9222, "/devtools/page/1")
    );
    assert_eq!(parse_ws_url("ws://[::1]:1/").unwrap().port, 1);
    assert_eq!(parse_ws_url("ws://LOCALHOST/x").unwrap().port, 80);
    assert_eq!(
        handshake_request(&endpoint),
        "GET /devtools/page/1 HTTP/1.1\r\nHost: 127.0.0.1:9222\r\nUpgrade: websocket\r\nConnection: Upgrade\r\nSec-WebSocket-Key: cHRtYW5hZ2VyY2RwMTIzNA==\r\nSec-WebSocket-Version: 13\r\n\r\n"
    );
}

#[test]
fn other_channels_are_refused() {
    let error = |url: &str| parse_ws_url(url).err().unwrap();
    assert_eq!(error("wss://localhost/x"), "仅支持本地 ws:// CDP 地址");
    assert_eq!(error("ws://localhost"), "CDP WebSocket 地址缺少路径");
    assert_eq!(error("ws://example.com:1/x"), "只允许连接本机 CDP WebSocket");
    assert_eq!(error("ws://[::1/x"), "CDP WebSocket IPv6 地址格式无效");
    assert_eq!(
        error("ws://localhost:x/y"),
        format!("CDP WebSocket 端口无效：{}", "x".parse::<u16>().unwrap_err())
    );
    assert_eq!(
        error("ws://localhost:/y"),
        format!("CDP WebSocket 端口无效：{}", "".parse::<u16>().unwrap_err())
    );
    assert_eq!(
        error("ws://localhost:70000/y"),
        format!("CDP WebSocket 端口无效：{}", "70000".parse::<u16>().unwrap_err())
    );
    let text = chars_of("h:1:2");
    let (host, port) = parse_ws_host_port(&text).unwrap();
    assert_eq!((string_of(host), port), ("h:1".to_string(), 2));
}

#[test]
fn handshakes_are_awaited() {
    assert!(matches!(read_handshake(&b"HTTP/1.1 101".to_vec(), false), Handshake::More));
    assert!(matches!(read_handshake(&b"HTTP/1.1 101".to_vec(), true), Handshake::Done));
    assert!(matches!(read_handshake(&b"HTTP/1.1 101 X\r\n\r\n".to_vec(), false), Handshake::Done));
    match read_handshake(&b"HTTP/1.1 404 X\r\n\r\n".to_vec(), false) {
        Handshake::Failed(m) => assert_eq!(m, "CDP WebSocket 握手失败"),
        other => panic!("{:?}", other),
    }
    match read_handshake(&vec![b'a'; 65537], false) {
        Handshake::Failed(m) => assert_eq!(m, "CDP WebSocket 握手响应过大"),
        other => panic!("{:?}", other),
    }
    assert!(matches!(read_handshake(&vec![b'a'; 65536], false), Handshake::More));
    match read_handshake(&vec![0xff], true) {
        Handshake::Failed(m) => assert!(m.starts_with("CDP WebSocket 握手响应不是 UTF-8：")),
        other => panic!("{:?}", other),
    }
}

#[test]
fn answers_are_told_by_their_number() {
    match reply_of(r#"{"id":3,"result":{"a":1}}"#, 3, "M") {
        Reply::Answer(value) => assert_eq!(value["result"]["a"], 1),
        _ => panic!("another reply"),
    }
    assert!(matches!(reply_of(r#"{"id":2}"#, 3, "M"), Reply::Other));
    assert!(matches!(reply_of(r#"{"method":"x"}"#, 3, "M"), Reply::Other));
    match reply_of(r#"{"id":3,"error":{"code":-1,"message":"m"}}"#, 3, "M") {
        Reply::Failed(m) => {
            assert_eq!(m, r#"CDP 方法 M 调用失败：{"code":-1,"message":"m"}"#)
        }
        _ => panic!("another reply"),
    }
    match reply_of(r#"{"id":3,"error":[null,true,{"b":1.5,"a":[]},"x\"y",-2]}"#, 3, "M") {
        Reply::Failed(m) => {
            assert_eq!(m, r#"CDP 方法 M 调用失败：[null,true,{"a":[],"b":1.5},"x\"y",-2]"#)
        }
        _ => panic!("another reply"),
    }
    match reply_of("{", 3, "M") {
        Reply::Failed(m) => assert!(m.starts_with("CDP WebSocket 响应解析失败：")),
        _ => panic!("another reply"),
    }
}
