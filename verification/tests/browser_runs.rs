use pt_manager::cdp::launch::{
    launch_note_text, launch_result, Launch, LaunchAction, LaunchEnd, LaunchEvent, LaunchNote,
    PortAction, PortSearch, Start,
};
use pt_manager::cdp::storage::{
    current_storage_key, dom_storage_ids, dom_storage_response_has_item, merge_items,
    missing_items, names_of, page_is_storage_host_ready, runtime_value_matches,
    runtime_written_names, storage_item_script, storage_items_script, written_items, written_now,
    ItemAction, ItemEvent, ItemWrite, StorageId, STORE_TAIL,
};
use pt_manager::cdp::storage_run::{StorageRun, VisitAction, VisitEvent, PAGE_TRIES};
use pt_manager::cdp::{CdpLocalStorageEntry, CdpLocalStorageParam};
use pt_manager::json::parse_json;

fn item(name: &str, value: &str) -> CdpLocalStorageEntry {
    CdpLocalStorageEntry { name: name.to_string(), value: value.to_string() }
}

fn pairs(items: &[CdpLocalStorageEntry]) -> Vec<(String, String)> {
    items.iter().map(|e| (e.name.clone(), e.value.clone())).collect()
}

#[test]
fn an_answering_browser_is_used() {
    let (mut launch, turn) = Launch::begin(9222, 2, 2);
    assert_eq!(turn.notes, vec![LaunchNote::Detecting { port: 9222 }]);
    assert_eq!(turn.action, LaunchAction::Probe { port: 9222, quick: false });
    let turn = launch.advance(LaunchEvent::Available(true), false, false);
    assert_eq!(turn.action, LaunchAction::Find { site: 0 });
    let turn = launch.advance(LaunchEvent::Tab(true), false, false);
    assert_eq!(turn.action, LaunchAction::Find { site: 1 });
    let turn = launch.advance(LaunchEvent::Tab(false), false, false);
    assert_eq!(turn.action, LaunchAction::Open { site: 1 });
    let turn = launch.advance(LaunchEvent::Opened(true), false, false);
    let end = LaunchEnd::Found { port: 9222, opened: 2 };
    assert_eq!(turn.action, LaunchAction::Finish { end });
    let result = launch_result(end, 9222, "", "").unwrap();
    assert_eq!(result.port, 9222);
    assert_eq!(result.opened_initial_urls, 2);
    assert_eq!(
        result.message,
        "Chrome CDP 已连接：localhost:9222，已打开 2 个站点。首次使用请在该窗口登录站点。"
    );
}

#[test]
fn pages_that_cannot_be_opened_end_the_launch() {
    let (mut launch, _) = Launch::begin(9222, 1, 1);
    launch.advance(LaunchEvent::Available(true), false, false);
    launch.advance(LaunchEvent::Tab(false), false, false);
    let turn = launch.advance(LaunchEvent::Opened(false), false, false);
    let end = LaunchEnd::OpenFailed { site: 0 };
    assert_eq!(turn.action, LaunchAction::Finish { end });
    assert_eq!(
        launch_result(end, 9222, "U", "E").err(),
        Some("CDP 已连接，但打开站点 U 失败：E".to_string())
    );
}

#[test]
fn a_free_port_is_tried_first() {
    let (mut launch, _) = Launch::begin(9222, 1, 1);
    let turn = launch.advance(LaunchEvent::Available(false), false, false);
    assert_eq!(turn.action, LaunchAction::CheckProfile);
    let turn = launch.advance(LaunchEvent::InUse(false), false, false);
    assert_eq!(turn.action, LaunchAction::CheckPort);
    let turn = launch.advance(LaunchEvent::Free(true), false, false);
    let start = Start { recovery: false, port: Some(9222) };
    assert_eq!(turn.action, LaunchAction::Start { start });
    let turn = launch.advance(LaunchEvent::Started(true), false, false);
    assert_eq!(turn.action, LaunchAction::Pause);
    let turn = launch.advance(LaunchEvent::Paused, false, false);
    assert_eq!(turn.action, LaunchAction::Probe { port: 9222, quick: true });
    let turn = launch.advance(LaunchEvent::Available(true), false, false);
    assert_eq!(
        turn.action,
        LaunchAction::Finish { end: LaunchEnd::Started { recovery: false, port: 9222, opened: 1 } }
    );
}

fn run_to_failure(port_free: bool) -> (LaunchEnd, Vec<Start>) {
    let (mut launch, mut turn) = Launch::begin(9222, 1, 1);
    let mut starts = Vec::new();
    loop {
        let mut expired = false;
        let event = match turn.action {
            LaunchAction::Probe { .. } => {
                expired = true;
                LaunchEvent::Available(false)
            }
            LaunchAction::CheckProfile => LaunchEvent::InUse(false),
            LaunchAction::CheckPort => LaunchEvent::Free(port_free),
            LaunchAction::Start { start } => {
                starts.push(start);
                LaunchEvent::Started(true)
            }
            LaunchAction::Pause => LaunchEvent::Paused,
            LaunchAction::ReadPort { .. } => {
                expired = true;
                LaunchEvent::Port(None)
            }
            LaunchAction::Finish { end } => return (end, starts),
            other => panic!("{:?}", other),
        };
        turn = launch.advance(event, false, expired);
    }
}

#[test]
fn the_spare_profile_is_the_last_try() {
    let (end, starts) = run_to_failure(true);
    assert_eq!(end, LaunchEnd::NoAnswer);
    assert_eq!(
        starts,
        vec![
            Start { recovery: false, port: Some(9222) },
            Start { recovery: true, port: None },
        ]
    );
    let (end, starts) = run_to_failure(false);
    assert_eq!(
        starts,
        vec![
            Start { recovery: false, port: None },
            Start { recovery: true, port: None },
        ]
    );
    assert_eq!(
        launch_result(end, 9222, "", "").err(),
        Some("已尝试自动启动 Chrome，但 CDP 仍未连接。请关闭刚打开的专用 Chrome 后重试，或在设置里更换 CDP 端口。原端口：9222".to_string())
    );
}

#[test]
fn launches_can_be_stopped() {
    let (mut launch, _) = Launch::begin(9222, 1, 1);
    let turn = launch.advance(LaunchEvent::Available(false), true, false);
    assert_eq!(turn.action, LaunchAction::Finish { end: LaunchEnd::Cancelled });
    assert_eq!(
        launch_result(LaunchEnd::Cancelled, 1, "", "").err(),
        Some("CDP 操作已终止".to_string())
    );
    assert_eq!(
        launch_result(LaunchEnd::StartFailed, 1, "", "why").err(),
        Some("why".to_string())
    );
}

#[test]
fn launch_steps_are_told() {
    assert_eq!(
        launch_note_text(LaunchNote::Detecting { port: 1 }, "", ""),
        "检测配置端口 localhost:1 是否已有 CDP 响应"
    );
    assert_eq!(
        launch_note_text(
            LaunchNote::Starting { start: Start { recovery: true, port: None }, pages: 3 },
            "/p",
            ""
        ),
        "准备启动备用专用 Chrome，Profile：/p，端口：随机，初始页面 3 个"
    );
    assert_eq!(
        launch_note_text(LaunchNote::CheckingTab { site: 0 }, "", "U"),
        "检查站点标签页：U"
    );
    assert_eq!(
        launch_note_text(LaunchNote::TimedOut { recovery: false }, "", ""),
        "专用 Chrome 在 15 秒内未提供可用 CDP"
    );
}

#[test]
fn ports_are_searched_in_order() {
    let (mut search, action) = PortSearch::begin(9222);
    assert_eq!(action, PortAction::Probe { port: 9222 });
    let action = search.advance(LaunchEvent::Available(false));
    assert_eq!(action, PortAction::ReadPort { recovery: false });
    let action = search.advance(LaunchEvent::Port(Some(5)));
    assert_eq!(action, PortAction::Probe { port: 5 });
    let action = search.advance(LaunchEvent::Available(false));
    assert_eq!(action, PortAction::ReadPort { recovery: true });
    let action = search.advance(LaunchEvent::Port(Some(6)));
    assert_eq!(action, PortAction::Probe { port: 6 });
    let action = search.advance(LaunchEvent::Available(true));
    assert_eq!(action, PortAction::Finish { found: Some(6) });
    let (mut search, _) = PortSearch::begin(9222);
    search.advance(LaunchEvent::Available(false));
    search.advance(LaunchEvent::Port(None));
    let action = search.advance(LaunchEvent::Port(None));
    assert_eq!(action, PortAction::Finish { found: None });
    let (mut search, _) = PortSearch::begin(9222);
    let action = search.advance(LaunchEvent::Available(true));
    assert_eq!(action, PortAction::Finish { found: Some(9222) });
}

#[test]
fn replies_of_the_storage_are_read() {
    let key = parse_json(r#"{"result":{"storageKey":"k"}}"#).unwrap();
    assert_eq!(current_storage_key(&key), Some("k".to_string()));
    let names =
        parse_json(r#"{"result":{"result":{"value":{"written":["a",1,"b"]}}}}"#).unwrap();
    assert_eq!(
        runtime_written_names(&names),
        Some(vec!["a".to_string(), "b".to_string()])
    );
    let thrown = parse_json(
        r#"{"result":{"exceptionDetails":{},"result":{"value":{"written":["a"]}}}}"#,
    )
    .unwrap();
    assert_eq!(runtime_written_names(&thrown), None);
    let entries = parse_json(r#"{"result":{"entries":[["x"],["a","1"],[1,"2"]]}}"#).unwrap();
    assert!(dom_storage_response_has_item(&entries, &item("a", "1")));
    assert!(!dom_storage_response_has_item(&entries, &item("a", "2")));
    let value = parse_json(r#"{"result":{"result":{"value":"1"}}}"#).unwrap();
    assert!(runtime_value_matches(&value, &item("a", "1")));
    assert!(!runtime_value_matches(&value, &item("a", "2")));
}

#[test]
fn pages_are_ready_on_their_host() {
    let page = |host: &str, state: &str| {
        parse_json(&format!(
            r#"{{"result":{{"result":{{"value":{{"host":"{host}","readyState":"{state}"}}}}}}}}"#
        ))
        .unwrap()
    };
    assert!(page_is_storage_host_ready(&page("a.b", "interactive"), "a.b"));
    assert!(page_is_storage_host_ready(&page("a.b", "complete"), "a.b"));
    assert!(!page_is_storage_host_ready(&page("a.b", "loading"), "a.b"));
    assert!(!page_is_storage_host_ready(&page("c.d", "complete"), "a.b"));
}

#[test]
fn scripts_hold_quoted_values() {
    assert_eq!(storage_item_script("a\"b"), "localStorage.getItem(\"a\\\"b\")");
    let script = storage_items_script("a.b", &vec![item("n", "v\"w"), item("m", "")]);
    assert_eq!(
        script,
        format!(
            "(() => {{\n            const targetHost = \"a.b\";\n            const entries = {}{}",
            r#"[{"name":"n","value":"v\"w"},{"name":"m","value":""}]"#,
            STORE_TAIL
        )
    );
}

fn keys(ids: Vec<StorageId>) -> Vec<String> {
    ids.into_iter()
        .map(|id| match id {
            StorageId::Key(k) => format!("key {k}"),
            StorageId::Origin(o) => format!("origin {o}"),
        })
        .collect()
}

#[test]
fn storages_have_two_or_three_names() {
    assert_eq!(
        keys(dom_storage_ids(Some("k".to_string()), "https://a.b")),
        vec!["key k", "origin https://a.b", "key https://a.b/"]
    );
    assert_eq!(
        keys(dom_storage_ids(Some("https://a.b/".to_string()), "https://a.b//")),
        vec!["key https://a.b/", "origin https://a.b//"]
    );
    assert_eq!(
        keys(dom_storage_ids(None, "https://a.b")),
        vec!["origin https://a.b", "key https://a.b/"]
    );
}

#[test]
fn written_items_are_read_back() {
    let (mut write, action) = ItemWrite::begin("https://a.b");
    assert_eq!(action, ItemAction::GetKey);
    assert_eq!(write.advance(ItemEvent::Key(None)), ItemAction::Write { name: 0 });
    assert_eq!(write.advance(ItemEvent::Answer(true)), ItemAction::GetKey);
    assert_eq!(write.advance(ItemEvent::Key(None)), ItemAction::Read { read: 0 });
    assert_eq!(write.advance(ItemEvent::Answer(false)), ItemAction::Read { read: 1 });
    assert_eq!(write.advance(ItemEvent::Answer(false)), ItemAction::Evaluate);
    assert_eq!(
        write.advance(ItemEvent::Answer(true)),
        ItemAction::Finish { written: true }
    );
}

#[test]
fn every_name_of_the_storage_is_tried() {
    let (mut write, _) = ItemWrite::begin("https://a.b");
    write.advance(ItemEvent::Key(None));
    assert_eq!(write.advance(ItemEvent::Answer(false)), ItemAction::Write { name: 1 });
    assert_eq!(
        write.advance(ItemEvent::Answer(false)),
        ItemAction::Finish { written: false }
    );
}

#[test]
fn items_are_sorted_into_written_and_missing() {
    let items = vec![item("b", "1"), item("a", "2"), item("c", "3")];
    let names = vec!["a".to_string(), "b".to_string()];
    let written = written_items(&items, &names);
    assert_eq!(names_of(&written), vec!["b".to_string(), "a".to_string()]);
    assert_eq!(pairs(&missing_items(&items, &written)), pairs(&[item("c", "3")]));
}

#[test]
fn merged_items_rise_and_the_first_of_a_name_stays() {
    let merged = merge_items(vec![item("b", "1"), item("a", "2"), item("b", "3")]);
    assert_eq!(pairs(&merged), pairs(&[item("a", "2"), item("b", "1")]));
    assert!(merge_items(vec![]).is_empty());
}

#[test]
fn pages_are_opened_and_written_in_turn() {
    let (mut run, action) = StorageRun::begin(1);
    assert!(matches!(action, VisitAction::Find { at: 0 }));
    assert!(matches!(run.advance(VisitEvent::Seen(false)), VisitAction::Open { at: 0 }));
    assert!(matches!(
        run.advance(VisitEvent::Opened(Ok(()))),
        VisitAction::CheckHost { at: 0 }
    ));
    assert!(matches!(run.advance(VisitEvent::Seen(true)), VisitAction::Connect { at: 0 }));
    assert!(matches!(
        run.advance(VisitEvent::Connected(Ok(true))),
        VisitAction::CheckReady { at: 0 }
    ));
    assert!(matches!(
        run.advance(VisitEvent::Seen(true)),
        VisitAction::Write { at: 0, again: false }
    ));
    assert!(matches!(
        run.advance(VisitEvent::Written { missing: true }),
        VisitAction::LongPause
    ));
    assert!(matches!(
        run.advance(VisitEvent::Paused),
        VisitAction::Write { at: 0, again: true }
    ));
    assert!(matches!(
        run.advance(VisitEvent::Written { missing: true }),
        VisitAction::Finish(Ok(()))
    ));
}

#[test]
fn pages_without_a_channel_are_passed_over() {
    let (mut run, _) = StorageRun::begin(2);
    assert!(matches!(run.advance(VisitEvent::Seen(true)), VisitAction::CheckHost { at: 0 }));
    let mut checks: u32 = 1;
    loop {
        match run.advance(VisitEvent::Seen(false)) {
            VisitAction::Pause => {}
            other => panic!("{:?}", other),
        }
        match run.advance(VisitEvent::Paused) {
            VisitAction::CheckHost { at: 0 } => checks += 1,
            VisitAction::Connect { at: 0 } => break,
            other => panic!("{:?}", other),
        }
    }
    assert_eq!(checks, PAGE_TRIES);
    assert!(matches!(
        run.advance(VisitEvent::Connected(Ok(false))),
        VisitAction::Find { at: 1 }
    ));
    match run.advance(VisitEvent::Seen(false)) {
        VisitAction::Open { at: 1 } => {}
        other => panic!("{:?}", other),
    }
    match run.advance(VisitEvent::Opened(Err("e".to_string()))) {
        VisitAction::Finish(Err(e)) => assert_eq!(e, "e"),
        other => panic!("{:?}", other),
    }
}

#[test]
fn slow_pages_are_sent_to_their_origin_once() {
    let (mut run, _) = StorageRun::begin(1);
    run.advance(VisitEvent::Seen(true));
    run.advance(VisitEvent::Seen(true));
    let mut action = run.advance(VisitEvent::Connected(Ok(true)));
    let mut sent: u32 = 0;
    loop {
        action = match action {
            VisitAction::CheckReady { .. } => run.advance(VisitEvent::Seen(false)),
            VisitAction::Pause => run.advance(VisitEvent::Paused),
            VisitAction::Send { .. } => {
                sent += 1;
                run.advance(VisitEvent::Sent)
            }
            VisitAction::Write { again: false, .. } => break,
            other => panic!("{:?}", other),
        };
    }
    assert_eq!(sent, 1);
    let (_, action) = StorageRun::begin(0);
    assert!(matches!(action, VisitAction::Finish(Ok(()))));
}

#[test]
fn a_storage_counts_once_nothing_more_is_tried() {
    let storage = CdpLocalStorageParam {
        host: "h".to_string(),
        origin: "https://h".to_string(),
        items: vec![item("b", "1"), item("a", "2")],
    };
    assert!(written_now(&storage, vec![], false).is_none());
    assert!(written_now(&storage, vec![], true).is_none());
    assert!(written_now(&storage, vec![item("b", "1")], false).is_none());
    let partly = written_now(&storage, vec![item("b", "1"), item("b", "1")], true).unwrap();
    assert_eq!(pairs(&partly.items), pairs(&[item("b", "1")]));
    let whole = written_now(&storage, vec![item("b", "1"), item("a", "2")], false).unwrap();
    assert_eq!((whole.host.as_str(), whole.origin.as_str()), ("h", "https://h"));
    assert_eq!(pairs(&whole.items), pairs(&[item("a", "2"), item("b", "1")]));
}
