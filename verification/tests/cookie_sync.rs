use pt_manager::cdp::{CdpCookieParam, CdpLocalStorageEntry, CdpLocalStorageParam};
use pt_manager::cookiecloud::{
    build_endpoint_candidates, content_of, cookie_url, cookies_for_sites, decode_chunked_body,
    domain_matches, fallback_url, handed_data, http_request_text, local_storages_for_sites,
    mask_uuid, normalize_same_site, parse_http_response, parse_http_url, parse_payload,
    read_item_groups, readable_network_error, take_piece,
    CookieCloudCookie, Fetch, FetchAction, Payload, RawHttpResponse,
    MAX_COOKIECLOUD_RESPONSE_BYTES,
};
use pt_manager::json::json_of_value;
use pt_manager::scheduler::LogLevel;
use pt_manager::store::{CookieCloudConfig, Site};
use pt_manager::sync::{
    closed_tabs_text, cookie_host, cookie_summary, is_connection_refused,
    local_storage_item_count, local_storage_summary, site_has_sync_match, site_match_summary,
    sync_counts, sync_report, SyncAction, SyncEvent, SyncRun,
};

fn config(server_url: &str, uuid: &str, password: &str) -> CookieCloudConfig {
    CookieCloudConfig {
        server_url: server_url.to_string(),
        uuid: uuid.to_string(),
        password: password.to_string(),
    }
}

fn site(name: &str, url: &str) -> Site {
    Site {
        id: name.to_string(),
        name: name.to_string(),
        url: url.to_string(),
        username: String::new(),
        password: String::new(),
        totp_secret: String::new(),
        auto_login: false,
        login_attempts_remaining: None,
        auto_keepalive: true,
    }
}

fn cookie(name: &str, domain: Option<&str>) -> CookieCloudCookie {
    CookieCloudCookie {
        name: name.to_string(),
        value: "v".to_string(),
        domain: domain.map(|s| s.to_string()),
        host_only: None,
        path: None,
        secure: None,
        http_only: None,
        expiration_date: None,
        same_site: None,
    }
}

fn param(name: &str, domain: Option<&str>, url: &str) -> CdpCookieParam {
    CdpCookieParam {
        name: name.to_string(),
        value: "v".to_string(),
        url: url.to_string(),
        domain: domain.map(|s| s.to_string()),
        path: None,
        secure: None,
        http_only: None,
        same_site: None,
        expires: None,
    }
}

fn storage(host: &str, names: &[&str]) -> CdpLocalStorageParam {
    CdpLocalStorageParam {
        host: host.to_string(),
        origin: format!("https://{host}"),
        items: names
            .iter()
            .map(|n| CdpLocalStorageEntry { name: n.to_string(), value: String::new() })
            .collect(),
    }
}

#[test]
fn endpoints_are_built_from_the_address() {
    let one = |server: &str| build_endpoint_candidates(server, "u/1");
    assert_eq!(one("http://h:1/"), vec!["http://h:1/get/u%2F1"]);
    assert_eq!(one(" h "), vec!["http://h/get/u%2F1"]);
    assert_eq!(one("https://h/GET"), vec!["https://h/GET/u%2F1"]);
    assert_eq!(one("http://h/get/x"), vec!["http://h/get/x"]);
    assert_eq!(
        build_endpoint_candidates("cookie.example.com", "abc"),
        vec!["https://cookie.example.com/get/abc", "http://cookie.example.com/get/abc"]
    );
    assert_eq!(
        one(" Cookie.Example.com/base/ "),
        vec!["https://Cookie.Example.com/base/get/u%2F1", "http://Cookie.Example.com/base/get/u%2F1"]
    );
    assert_eq!(one("https://cookie.example.com"), vec!["https://cookie.example.com/get/u%2F1"]);
    for local in ["localhost", "192.168.1.2", "nas.LOCAL", "cookie.example.com:8088", "127.0.0.1:8088", "[::1]:8088"] {
        assert_eq!(one(local), vec![format!("http://{local}/get/u%2F1")]);
    }
    assert_eq!(fallback_url("http://h/get/x", "a b"), "http://h/get/x?password=a%20b");
    assert_eq!(fallback_url("http://h/get/x?y", "p"), "http://h/get/x?y&password=p");
}

#[test]
fn addresses_are_taken_apart() {
    let url = parse_http_url("http://h:81/a/b").unwrap();
    assert_eq!((url.host.as_str(), url.port, url.path.as_str()), ("h", 81, "/a/b"));
    let url = parse_http_url("http://h").unwrap();
    assert_eq!((url.host.as_str(), url.port, url.path.as_str()), ("h", 80, "/"));
    assert!(!url.secure);
    let safe = parse_http_url("https://h/x").unwrap();
    assert!(safe.secure);
    assert_eq!((safe.host.as_str(), safe.port, safe.path.as_str()), ("h", 443, "/x"));
    assert_eq!(parse_http_url("https://h:8443").unwrap().port, 8443);
    assert_eq!(
        http_request_text(&url, "POST", "中"),
        "POST / HTTP/1.1\r\nHost: h\r\nContent-Type: application/json\r\nContent-Length: 3\r\nConnection: close\r\n\r\n中"
    );
    assert_eq!(
        parse_http_url("ftp://h").err(),
        Some("当前内置同步仅支持 http:// 或 https:// CookieCloud 地址".to_string())
    );
    assert_eq!(
        parse_http_url("http://h:x/").err(),
        Some("CookieCloud 端口格式不正确".to_string())
    );
    assert_eq!(
        parse_http_url("http:///x").err(),
        Some("CookieCloud 服务地址缺少主机名".to_string())
    );
}

#[test]
fn refused_connections_are_told_in_words() {
    assert_eq!(readable_network_error("os error 10061"), "目标地址没有 CookieCloud 服务在监听");
    assert_eq!(readable_network_error("计算机积极拒绝"), "目标地址没有 CookieCloud 服务在监听");
    assert_eq!(readable_network_error("timed out"), "timed out");
}

#[test]
fn pieces_are_gathered_up_to_a_limit() {
    let mut raw = Vec::new();
    assert_eq!(take_piece(&mut raw, b"ab"), Ok(()));
    assert_eq!(take_piece(&mut raw, b"c"), Ok(()));
    assert_eq!(raw, b"abc".to_vec());
    let large = vec![0u8; MAX_COOKIECLOUD_RESPONSE_BYTES];
    assert_eq!(
        take_piece(&mut raw, &large),
        Err("CookieCloud 响应过大，已停止读取".to_string())
    );
}

#[test]
fn chunks_are_joined() {
    assert_eq!(
        decode_chunked_body(b"3\r\nabc\r\nA;x=y\r\n0123456789\r\n0\r\n\r\n"),
        Ok(b"abc0123456789".to_vec())
    );
    assert_eq!(decode_chunked_body(b" 0 \r\n"), Ok(vec![]));
}

#[test]
fn broken_chunks_are_refused() {
    let error = |body: &[u8]| decode_chunked_body(body).err().unwrap();
    assert_eq!(error(b"3"), "CookieCloud 分块响应格式不完整");
    assert_eq!(error(b"x\r\n"), "CookieCloud 分块大小格式不正确");
    assert_eq!(error(b"3\r\nab"), "CookieCloud 分块响应长度不完整");
    assert_eq!(error(b"3\r\nabc"), "CookieCloud 分块响应结尾不完整");
    assert_eq!(error(b"3\r\nabc\r\n"), "CookieCloud 分块响应格式不完整");
}

#[test]
fn replies_of_the_service_are_read() {
    let raw = b"HTTP/1.1 200 OK\r\nTransfer-Encoding: Chunked\r\n\r\n2\r\nhi\r\n0\r\n\r\n".to_vec();
    let reply = parse_http_response(&raw).unwrap();
    assert_eq!((reply.status, reply.body.as_str()), (200, "hi"));
    let raw = b"HTTP/1.1 500 X\r\n\r\nbody".to_vec();
    let reply = parse_http_response(&raw).unwrap();
    assert_eq!((reply.status, reply.body.as_str()), (500, "body"));
    assert_eq!(
        parse_http_response(&b"HTTP/1.1 200".to_vec()).err(),
        Some("CookieCloud 返回了无效 HTTP 响应".to_string())
    );
    assert_eq!(
        parse_http_response(&b"HTTP/1.1\r\n\r\n".to_vec()).err(),
        Some("CookieCloud 返回了无效 HTTP 状态".to_string())
    );
    assert_eq!(
        parse_http_response(&b"HTTP/1.1 200 X\r\n\r\n\xff".to_vec()).err(),
        Some(String::from_utf8(vec![0xff]).unwrap_err().to_string())
    );
}

#[test]
fn payloads_may_be_quoted_once() {
    assert_eq!(parse_payload(r#""{\"a\":1}""#).unwrap().to_string(), r#"{"a":1}"#);
    assert_eq!(parse_payload("[1]").unwrap().to_string(), "[1]");
    assert!(parse_payload("{").err().unwrap().starts_with("CookieCloud 返回 JSON 解析失败："));
    assert!(parse_payload(r#""{""#).err().unwrap().starts_with("CookieCloud 内层 JSON 解析失败："));
}

#[test]
fn payloads_are_told_apart() {
    let content = |text: &str| content_of(&parse_payload(text).unwrap());
    match content(r#"{"cookie_data":{"x":[]},"encrypted":"e"}"#) {
        Payload::Data { cookies, storages } => {
            assert_eq!(cookies.to_string(), r#"{"x":[]}"#);
            assert!(storages.is_none());
        }
        _ => panic!("no data"),
    }
    match content(r#"{"cookie_data":{},"local_storage_data":{"h":{"k":"v"}}}"#) {
        Payload::Data { storages, .. } => {
            assert_eq!(storages.unwrap().to_string(), r#"{"h":{"k":"v"}}"#)
        }
        _ => panic!("no data"),
    }
    assert!(matches!(content(r#"{"encrypted":"e"}"#), Payload::Encrypted));
    assert!(matches!(content("{}"), Payload::Missing));
    assert_eq!(mask_uuid("http://h/get/abc?abc", "abc"), "http://h/get/<uuid>?<uuid>");
}

fn answer(status: u16, body: &str) -> Result<RawHttpResponse, String> {
    Ok(RawHttpResponse { status, body: body.to_string() })
}

fn fetch() -> Fetch {
    let (fetch, action) = Fetch::begin(&config(" http://h ", " abc ", "p w")).unwrap();
    match action {
        FetchAction::Post(url) => assert_eq!(url, "http://h/get/abc"),
        _ => panic!("nothing posted"),
    }
    fetch
}

fn failed(action: FetchAction) -> String {
    match action {
        FetchAction::Failed(message) => message,
        _ => panic!("no failure"),
    }
}

#[test]
fn fetching_needs_an_address_an_id_and_a_password() {
    for c in [config(" ", "u", "p"), config("s", " ", "p"), config("s", "u", "")] {
        assert_eq!(
            Fetch::begin(&c).err(),
            Some("请先填写 CookieCloud 地址、UUID 和密码".to_string())
        );
    }
}

#[test]
fn the_password_is_posted_and_then_asked_with() {
    match fetch().advance(&answer(200, r#"{"cookie_data":{}}"#)) {
        FetchAction::Data { cookies, storages } => {
            assert_eq!(cookies.to_string(), "{}");
            assert!(storages.is_none());
        }
        _ => panic!("no data"),
    }
    let mut run = fetch();
    match run.advance(&answer(405, "")) {
        FetchAction::Get(url) => assert_eq!(url, "http://h/get/abc?password=p%20w"),
        _ => panic!("nothing asked"),
    }
    assert_eq!(
        failed(run.advance(&answer(404, ""))),
        "CookieCloud 无法连接，请确认服务地址和协议是否与浏览器插件一致。最近一次错误：http://h/get/<uuid>：HTTP 404"
    );
}

#[test]
fn failed_fetches_are_told() {
    assert_eq!(
        failed(fetch().advance(&answer(200, r#"{"encrypted":"x"}"#))),
        "CookieCloud 服务端返回了密文，请确认服务端支持 password 解密接口"
    );
    assert_eq!(
        failed(fetch().advance(&answer(200, "{}"))),
        "CookieCloud 无法连接，请确认服务地址和协议是否与浏览器插件一致。最近一次错误：http://h/get/<uuid>：返回数据缺少 cookie_data"
    );
    assert_eq!(
        failed(fetch().advance(&Err("down".to_string()))),
        "CookieCloud 无法连接，请确认服务地址和协议是否与浏览器插件一致。最近一次错误：http://h/get/<uuid>：down"
    );
}

fn public_fetch() -> Fetch {
    let (fetch, action) = Fetch::begin(&config("a.example", "abc", "p")).unwrap();
    match action {
        FetchAction::Post(url) => assert_eq!(url, "https://a.example/get/abc"),
        _ => panic!("nothing posted"),
    }
    fetch
}

#[test]
fn the_next_place_is_asked_after_a_failure() {
    for reply in [Err("down".to_string()), answer(200, "{}"), answer(200, "no json")] {
        let mut run = public_fetch();
        match run.advance(&reply) {
            FetchAction::Post(url) => assert_eq!(url, "http://a.example/get/abc"),
            _ => panic!("nothing posted"),
        }
        assert_eq!(
            failed(run.advance(&Err("last".to_string()))),
            "CookieCloud 无法连接，请确认服务地址和协议是否与浏览器插件一致。最近一次错误：http://a.example/get/<uuid>：last"
        );
        assert!(matches!(run.advance(&Err("more".to_string())), FetchAction::Nothing));
    }
    let mut run = public_fetch();
    match run.advance(&answer(500, "")) {
        FetchAction::Get(url) => assert_eq!(url, "https://a.example/get/abc?password=p"),
        _ => panic!("nothing asked"),
    }
    assert!(matches!(run.advance(&answer(500, "")), FetchAction::Post(_)));
}

#[test]
fn an_encrypted_payload_ends_a_fetch_at_once() {
    let mut run = public_fetch();
    assert_eq!(
        failed(run.advance(&answer(200, r#"{"encrypted":"x"}"#))),
        "CookieCloud 服务端返回了密文，请确认服务端支持 password 解密接口"
    );
    assert!(matches!(run.advance(&answer(200, "{}")), FetchAction::Nothing));
}

#[test]
fn data_may_be_handed_over_whole_or_as_cookies() {
    let parse = |text: &str| parse_payload(text).unwrap();
    let (cookies, storages) =
        handed_data(parse(r#"{"cookie_data":{"c":[]},"local_storage_data":{"h":{}}}"#));
    assert_eq!(cookies.to_string(), r#"{"c":[]}"#);
    assert_eq!(storages.unwrap().to_string(), r#"{"h":{}}"#);
    let (cookies, storages) = handed_data(parse(r#"{"c":[]}"#));
    assert_eq!(cookies.to_string(), r#"{"c":[]}"#);
    assert!(storages.is_none());
}

#[test]
fn storages_of_sites_are_picked() {
    let text = r#"{"a.b":{"k":"1","n":5},"other.c":{"k":"2"},"www.a.b":{"j":"3","k":"4"},"x":7}"#;
    let groups = read_item_groups(&json_of_value(&parse_payload(text).unwrap()));
    assert_eq!(groups.len(), 3);
    let sites = vec![
        site("s", "https://www.a.b/index"),
        site("t", "https://WWW.a.b/other"),
        site("u", "http://a.b:81"),
        site("v", "nonsense"),
        site("w", "https://e.f"),
    ];
    let picked = local_storages_for_sites(&groups, &sites);
    assert_eq!(picked.len(), 2);
    assert_eq!((picked[0].host.as_str(), picked[0].origin.as_str()), ("www.a.b", "https://www.a.b"));
    let items: Vec<(&str, &str)> =
        picked[0].items.iter().map(|i| (i.name.as_str(), i.value.as_str())).collect();
    assert_eq!(items, vec![("j", "3"), ("k", "1")]);
    assert_eq!((picked[1].host.as_str(), picked[1].origin.as_str()), ("a.b", "http://a.b:81"));
    assert_eq!(picked[1].items.len(), 1);
    assert!(local_storages_for_sites(&groups, &vec![]).is_empty());
    assert!(read_item_groups(&json_of_value(&parse_payload("[]").unwrap())).is_empty());
}

#[test]
fn domains_cover_their_hosts() {
    assert!(domain_matches("www.a.b", " .A.b "));
    assert!(domain_matches("a.b", "a.b"));
    assert!(!domain_matches("xa.b", "a.b"));
    assert!(!domain_matches("a.b", "www.a.b"));
    assert!(!domain_matches("a.b", " . "));
    assert_eq!(cookie_url(".a.b", true, &Some("/x".to_string())), Some("https://a.b/x".to_string()));
    assert_eq!(cookie_url("a.b", false, &None), Some("http://a.b/".to_string()));
    assert_eq!(cookie_url(" . ", false, &None), None);
    let same = |s: &str| normalize_same_site(&Some(s.to_string()));
    assert_eq!(same("LAX"), Some("Lax".to_string()));
    assert_eq!(same("strict"), Some("Strict".to_string()));
    assert_eq!(same("no_restriction"), Some("None".to_string()));
    assert_eq!(same("unspecified"), None);
    assert_eq!(normalize_same_site(&None), None);
}

#[test]
fn cookies_of_sites_are_picked() {
    let mut only = cookie("only", None);
    only.host_only = Some(true);
    only.secure = Some(true);
    only.path = Some("/p".to_string());
    only.expiration_date = Some(7);
    let data = vec![
        ("a.b".to_string(), vec![cookie("one", Some(".a.b")), only]),
        ("c.d".to_string(), vec![cookie("other", None)]),
    ];
    let sites = vec![site("s", "https://www.a.b/index"), site("t", "nonsense")];
    let picked = cookies_for_sites(&data, &sites).unwrap();
    assert_eq!(picked.len(), 2);
    assert_eq!(picked[0].name, "one");
    assert_eq!(picked[0].url, "http://a.b/");
    assert_eq!(picked[0].domain.as_deref(), Some(".a.b"));
    assert_eq!(picked[1].url, "https://a.b/p");
    assert_eq!(picked[1].domain, None);
    assert_eq!(picked[1].expires, Some(7));
    assert_eq!(
        cookies_for_sites(&data, &vec![site("t", "nonsense")]).err(),
        Some("请先配置至少一个有效站点 URL".to_string())
    );
}

#[test]
fn sites_are_matched_by_host() {
    let cookies = vec![param("c", Some(".a.b"), "http://a.b/")];
    let storages = vec![storage("e.f", &["k"])];
    assert_eq!(cookie_host(&param("c", None, "https://X.y:1/z")), Some("x.y".to_string()));
    assert!(site_has_sync_match(&site("s", "https://www.a.b"), &cookies, &storages));
    assert!(site_has_sync_match(&site("s", "https://e.f/x"), &cookies, &storages));
    assert!(!site_has_sync_match(&site("s", "https://g.h"), &cookies, &storages));
    let sites = vec![site("一", "https://a.b"), site("二", "https://g.h"), site("三", "https://e.f")];
    let summary = site_match_summary(&sites, &cookies, &storages);
    assert_eq!(summary.matched_count, 2);
    assert_eq!(summary.detail, "匹配站点：一, 三；未匹配站点：二");
}

#[test]
fn what_was_written_is_grouped_by_host() {
    let cookies = vec![
        param("z", Some(".B.c"), ""),
        param("a", None, "https://b.c/x"),
        param("z", Some("b.c"), ""),
        param("q", Some("a.b"), ""),
    ];
    assert_eq!(
        cookie_summary(&cookies),
        (2, "导入 Cookie：a.b：q；b.c：a, z".to_string())
    );
    assert_eq!(cookie_summary(&vec![]), (0, "导入 Cookie：无".to_string()));
    assert_eq!(local_storage_summary(&vec![]), "导入 Local Storage：无");
    let storages = vec![storage("h", &["b", "a", "b"]), storage("g", &[])];
    assert_eq!(local_storage_summary(&storages), "导入 Local Storage：h：a, b；g：");
    assert_eq!(local_storage_item_count(&storages), 3);
}

#[test]
fn syncs_are_reported() {
    let cookies = vec![param("c", Some("a.b"), ""), param("d", Some("a.b"), "")];
    let written = vec![param("c", Some("a.b"), "")];
    let storages = vec![storage("a.b", &["k", "l"])];
    let sites = vec![site("站", "https://a.b")];
    let (result, text) = sync_report(&sites, &cookies, &storages, &written, &vec![]);
    assert_eq!(result.matched_cookies, 2);
    assert_eq!(result.imported_cookies, 1);
    assert_eq!(result.matched_local_storages, 2);
    assert_eq!(result.imported_local_storages, 0);
    assert_eq!(
        text,
        "CookieCloud 同步完成：匹配 1 个站点，共解析 2 条 Cookie / 2 条 Local Storage，成功写入 1 条 Cookie / 0 条 Local Storage；匹配站点：站；导入 Cookie：a.b：c；导入 Local Storage：无"
    );
    assert_eq!(sync_counts(&cookies, &storages, 1, &storages), (4, 3));
}

#[test]
fn refused_connections_are_recognised() {
    assert!(is_connection_refused("os error 10061"));
    assert!(is_connection_refused("积极拒绝"));
    assert!(is_connection_refused("Connection Refused (111)"));
    assert!(!is_connection_refused("timed out"));
    assert_eq!(closed_tabs_text(0), None);
    assert_eq!(
        closed_tabs_text(2),
        Some("Cookie 同步自动打开的 2 个标签页已关闭".to_string())
    );
}

#[test]
fn nothing_to_write_ends_a_sync() {
    let (_, turn) = SyncRun::begin(false, true, false);
    match turn.action {
        SyncAction::Failed(message) => {
            assert_eq!(message, "CookieCloud 未解析到可同步的 Cookie 或 Local Storage")
        }
        other => panic!("{:?}", other),
    }
    assert_eq!(turn.notes.len(), 1);
    assert_eq!(turn.notes[0].0, LogLevel::Error);
}

#[test]
fn cookies_storages_and_pages_follow() {
    let (mut run, turn) = SyncRun::begin(true, true, false);
    assert!(matches!(turn.action, SyncAction::FindPort));
    let turn = run.advance(SyncEvent::Port(Some(5)));
    assert!(matches!(turn.action, SyncAction::WriteCookies { port: 5 }));
    let turn = run.advance(SyncEvent::CookiesWritten(Ok(())));
    assert!(matches!(turn.action, SyncAction::WriteStorages { port: 5 }));
    let turn = run.advance(SyncEvent::StoragesWritten(Ok(2)));
    assert!(matches!(turn.action, SyncAction::Reload { port: 5 }));
    let turn = run.advance(SyncEvent::Reloaded);
    assert!(matches!(turn.action, SyncAction::Written { port: 5, close_tabs: true }));
}

#[test]
fn a_lost_connection_is_mended_once() {
    let (mut run, _) = SyncRun::begin(true, false, false);
    let turn = run.advance(SyncEvent::Port(None));
    assert!(matches!(turn.action, SyncAction::Launch));
    let turn = run.advance(SyncEvent::Launched(Ok((6, "m".to_string()))));
    assert!(matches!(turn.action, SyncAction::WriteCookies { port: 6 }));
    assert_eq!(turn.notes, vec![(LogLevel::Info, "m".to_string())]);
    let turn = run.advance(SyncEvent::CookiesWritten(Err("connection refused".to_string())));
    assert!(matches!(turn.action, SyncAction::Launch));
    assert_eq!(
        turn.notes,
        vec![(
            LogLevel::Info,
            "Cookie 已拉取，但 Chrome CDP 连接失效，正在重新准备后重试".to_string()
        )]
    );
    let turn = run.advance(SyncEvent::Launched(Ok((7, "m".to_string()))));
    assert!(matches!(turn.action, SyncAction::WriteCookies { port: 7 }));
    let turn = run.advance(SyncEvent::CookiesWritten(Err("connection refused".to_string())));
    match turn.action {
        SyncAction::Failed(message) => {
            assert_eq!(message, "Cookie 已拉取，但写入 Chrome 失败：connection refused")
        }
        other => panic!("{:?}", other),
    }
}

#[test]
fn storages_that_cannot_be_written_end_a_sync() {
    let (mut run, _) = SyncRun::begin(true, false, false);
    run.advance(SyncEvent::Port(Some(5)));
    run.advance(SyncEvent::CookiesWritten(Ok(())));
    let turn = run.advance(SyncEvent::StoragesWritten(Err("e".to_string())));
    match turn.action {
        SyncAction::Failed(message) => {
            assert_eq!(message, "Local Storage 已拉取，但写入 Chrome 失败：e")
        }
        other => panic!("{:?}", other),
    }
}

#[test]
fn a_complete_endpoint_is_used_as_it_is() {
    for server in ["http://h:1/", "https://h/GET", "http://h/get/x", "a.example", "http://h/get"] {
        for uuid in ["u/1", ""] {
            for endpoint in build_endpoint_candidates(server, uuid) {
                assert_eq!(build_endpoint_candidates(&endpoint, uuid), vec![endpoint]);
            }
        }
    }
}
