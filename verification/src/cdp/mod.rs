//! The browser and its debugging protocol: tabs, addresses and what is handed to it.

pub mod http;
pub mod launch;
pub mod storage;
pub mod storage_run;
pub mod websocket;

use crate::host::{host_from_url, url_host};
use crate::json::Json;
use crate::list::{distinct, push_new, push_text};
use crate::number::{decimal, decimal_of, parse_u16, u16_in};
use crate::text::{
    chars_of, lines, lines_of, opt_clone, opt_text, pieces, str_eq, string_of, texts, trim, trimmed,
};
use vstd::prelude::*;

verus! {

/// A tab of the browser.
#[derive(Debug)]
pub struct CdpTab {
    pub id: String,
    pub url: Option<String>,
    pub tab_type: Option<String>,
    pub web_socket_debugger_url: Option<String>,
}

/// What a `CdpTab` says.
pub struct TabView {
    pub id: Seq<char>,
    pub url: Option<Seq<char>>,
    pub tab_type: Option<Seq<char>>,
    pub web_socket_debugger_url: Option<Seq<char>>,
}

impl View for CdpTab {
    type V = TabView;

    open spec fn view(&self) -> TabView {
        TabView {
            id: self.id@,
            url: opt_text(self.url),
            tab_type: opt_text(self.tab_type),
            web_socket_debugger_url: opt_text(self.web_socket_debugger_url),
        }
    }
}

/// What a list of tabs says.
pub open spec fn tab_views(tabs: Seq<CdpTab>) -> Seq<TabView> {
    tabs.map_values(|t: CdpTab| t@)
}

/// The browser behind a debugging port.
#[derive(Debug, Clone, Copy)]
pub struct CdpClient {
    port: u16,
}

impl View for CdpClient {
    type V = u16;

    closed spec fn view(&self) -> u16 {
        self.port
    }
}

impl CdpClient {
    pub fn new(port: u16) -> (r: CdpClient)
        ensures
            r@ == port,
    {
        CdpClient { port }
    }

    pub fn port(&self) -> (r: u16)
        ensures
            r == self@,
    {
        self.port
    }
}

/// A browser that was found or started.
#[derive(Debug)]
pub struct CdpLaunchResult {
    pub port: u16,
    pub message: String,
    pub opened_initial_urls: usize,
}

/// What a `CdpLaunchResult` says.
pub struct LaunchView {
    pub port: u16,
    pub message: Seq<char>,
    pub opened_initial_urls: usize,
}

impl View for CdpLaunchResult {
    type V = LaunchView;

    open spec fn view(&self) -> LaunchView {
        LaunchView {
            port: self.port,
            message: self.message@,
            opened_initial_urls: self.opened_initial_urls,
        }
    }
}

/// A cookie as the browser takes it. The moment at which it expires is carried through
/// as it came, by its bits.
#[derive(Debug)]
pub struct CdpCookieParam {
    pub name: String,
    pub value: String,
    pub url: String,
    pub domain: Option<String>,
    pub path: Option<String>,
    pub secure: Option<bool>,
    pub http_only: Option<bool>,
    pub same_site: Option<String>,
    pub expires: Option<u64>,
}

/// What a `CdpCookieParam` says.
pub struct CookieView {
    pub name: Seq<char>,
    pub value: Seq<char>,
    pub url: Seq<char>,
    pub domain: Option<Seq<char>>,
    pub path: Option<Seq<char>>,
    pub secure: Option<bool>,
    pub http_only: Option<bool>,
    pub same_site: Option<Seq<char>>,
    pub expires: Option<u64>,
}

impl View for CdpCookieParam {
    type V = CookieView;

    open spec fn view(&self) -> CookieView {
        CookieView {
            name: self.name@,
            value: self.value@,
            url: self.url@,
            domain: opt_text(self.domain),
            path: opt_text(self.path),
            secure: self.secure,
            http_only: self.http_only,
            same_site: opt_text(self.same_site),
            expires: self.expires,
        }
    }
}

impl Clone for CdpCookieParam {
    fn clone(&self) -> (r: CdpCookieParam)
        ensures
            r@ == self@,
    {
        CdpCookieParam {
            name: self.name.clone(),
            value: self.value.clone(),
            url: self.url.clone(),
            domain: opt_clone(&self.domain),
            path: opt_clone(&self.path),
            secure: self.secure,
            http_only: self.http_only,
            same_site: opt_clone(&self.same_site),
            expires: self.expires,
        }
    }
}

/// What a list of cookies says.
pub open spec fn cookie_views(cookies: Seq<CdpCookieParam>) -> Seq<CookieView> {
    cookies.map_values(|c: CdpCookieParam| c@)
}

/// An entry of the storage of a page.
#[derive(Debug)]
pub struct CdpLocalStorageEntry {
    pub name: String,
    pub value: String,
}

/// What a `CdpLocalStorageEntry` says.
pub struct EntryView {
    pub name: Seq<char>,
    pub value: Seq<char>,
}

impl View for CdpLocalStorageEntry {
    type V = EntryView;

    open spec fn view(&self) -> EntryView {
        EntryView { name: self.name@, value: self.value@ }
    }
}

impl Clone for CdpLocalStorageEntry {
    fn clone(&self) -> (r: CdpLocalStorageEntry)
        ensures
            r@ == self@,
    {
        CdpLocalStorageEntry { name: self.name.clone(), value: self.value.clone() }
    }
}

/// What a list of storage entries says.
pub open spec fn entry_views(items: Seq<CdpLocalStorageEntry>) -> Seq<EntryView> {
    items.map_values(|e: CdpLocalStorageEntry| e@)
}

/// What is to be stored for an origin.
#[derive(Debug, Clone)]
pub struct CdpLocalStorageParam {
    pub host: String,
    pub origin: String,
    pub items: Vec<CdpLocalStorageEntry>,
}

/// What a `CdpLocalStorageParam` says.
pub struct StorageView {
    pub host: Seq<char>,
    pub origin: Seq<char>,
    pub items: Seq<EntryView>,
}

impl View for CdpLocalStorageParam {
    type V = StorageView;

    open spec fn view(&self) -> StorageView {
        StorageView { host: self.host@, origin: self.origin@, items: entry_views(self.items@) }
    }
}

/// What a list of storages says.
pub open spec fn storage_views(storages: Seq<CdpLocalStorageParam>) -> Seq<StorageView> {
    storages.map_values(|s: CdpLocalStorageParam| s@)
}

// ---------------------------------------------------------------- tabs

/// A tab that shows a page.
pub open spec fn is_page(t: TabView) -> bool {
    t.tab_type == Some("page"@)
}

/// The host that a tab shows.
pub open spec fn tab_shows(t: TabView) -> Option<Seq<char>> {
    match t.url {
        Some(url) => url_host(url),
        None => None,
    }
}

fn shows_page(tab: &CdpTab) -> (r: bool)
    ensures
        r == is_page(tab@),
{
    match &tab.tab_type {
        Some(t) => str_eq(t.as_str(), "page"),
        None => false,
    }
}

fn shown_host(tab: &CdpTab) -> (r: Option<String>)
    ensures
        opt_text(r) == tab_shows(tab@),
{
    match &tab.url {
        Some(url) => host_from_url(url.as_str()),
        None => None,
    }
}

/// The id of the first page that shows a host.
pub open spec fn tab_for_host(tabs: Seq<TabView>, host: Seq<char>) -> Option<Seq<char>>
    decreases tabs.len(),
{
    if tabs.len() == 0 {
        None
    } else if is_page(tabs[0]) && tab_shows(tabs[0]) == Some(host) {
        Some(tabs[0].id)
    } else {
        tab_for_host(tabs.skip(1), host)
    }
}

/// The id of the first page that shows the host of an address.
pub open spec fn tab_for_url(tabs: Seq<TabView>, url: Seq<char>) -> Option<Seq<char>> {
    match url_host(url) {
        Some(host) => tab_for_host(tabs, host),
        None => None,
    }
}

/// The id of the first page that shows the host of an address.
pub fn find_tab_for_url(tabs: &Vec<CdpTab>, url: &str) -> (r: Option<String>)
    ensures
        opt_text(r) == tab_for_url(tab_views(tabs@), url@),
{
    let host: String = match host_from_url(url) {
        Some(host) => host,
        None => return None,
    };
    let ghost all = tab_views(tabs@);
    let mut i: usize = 0;
    assert(all.skip(0) =~= all);
    while i < tabs.len()
        invariant
            i <= tabs@.len(),
            all == tab_views(tabs@),
            url_host(url@) == Some(host@),
            tab_for_host(all.skip(i as int), host@) == tab_for_host(all, host@),
        decreases tabs@.len() - i,
    {
        assert(all.skip(i as int)[0] == tabs@[i as int]@);
        assert(all.skip(i as int).skip(1) =~= all.skip(i + 1));
        if shows_page(&tabs[i]) {
            if let Some(shown) = shown_host(&tabs[i]) {
                if str_eq(shown.as_str(), host.as_str()) {
                    return Some(tabs[i].id.clone());
                }
            }
        }
        i = i + 1;
    }
    None
}

/// A tab that is found for an address is a page of the same host, and none is found only
/// where there is none.
pub proof fn found_tab_shows_the_host(tabs: Seq<TabView>, url: Seq<char>)
    ensures
        match tab_for_url(tabs, url) {
            Some(id) => exists|i: int|
                0 <= i < tabs.len() && (#[trigger] tabs[i]).id == id && is_page(tabs[i])
                    && tab_shows(tabs[i]) == url_host(url),
            None => url_host(url) is Some ==> forall|i: int|
                0 <= i < tabs.len() ==> !(is_page(#[trigger] tabs[i]) && tab_shows(tabs[i])
                    == url_host(url)),
        },
    decreases tabs.len(),
{
    if url_host(url) is Some && tabs.len() > 0 {
        let host = url_host(url)->0;
        let rest = tabs.skip(1);
        if is_page(tabs[0]) && tab_shows(tabs[0]) == Some(host) {
            assert(tabs[0].id == tab_for_url(tabs, url)->0);
        } else {
            found_tab_shows_the_host(rest, url);
            assert(tab_for_url(tabs, url) == tab_for_url(rest, url));
            if tab_for_url(rest, url) is Some {
                let k = choose|i: int|
                    0 <= i < rest.len() && (#[trigger] rest[i]).id == tab_for_url(rest, url)->0
                        && is_page(rest[i]) && tab_shows(rest[i]) == url_host(url);
                assert(tabs[k + 1] == rest[k]);
            } else {
                assert forall|i: int| 0 <= i < tabs.len() implies !(is_page(#[trigger] tabs[i])
                    && tab_shows(tabs[i]) == url_host(url)) by {
                    if i > 0 {
                        assert(tabs[i] == rest[i - 1]);
                    }
                }
            }
        }
    }
}

/// The message channel of the first page that has one.
pub open spec fn page_channel(tabs: Seq<TabView>) -> Option<Seq<char>>
    decreases tabs.len(),
{
    if tabs.len() == 0 {
        None
    } else if is_page(tabs[0]) && tabs[0].web_socket_debugger_url is Some {
        tabs[0].web_socket_debugger_url
    } else {
        page_channel(tabs.skip(1))
    }
}

/// The message channel of the first page that has one.
pub fn find_page_websocket_url(tabs: &Vec<CdpTab>) -> (r: Option<String>)
    ensures
        opt_text(r) == page_channel(tab_views(tabs@)),
{
    let ghost all = tab_views(tabs@);
    let mut i: usize = 0;
    assert(all.skip(0) =~= all);
    while i < tabs.len()
        invariant
            i <= tabs@.len(),
            all == tab_views(tabs@),
            page_channel(all.skip(i as int)) == page_channel(all),
        decreases tabs@.len() - i,
    {
        assert(all.skip(i as int)[0] == tabs@[i as int]@);
        assert(all.skip(i as int).skip(1) =~= all.skip(i + 1));
        if shows_page(&tabs[i]) && tabs[i].web_socket_debugger_url.is_some() {
            return opt_clone(&tabs[i].web_socket_debugger_url);
        }
        i = i + 1;
    }
    None
}

/// The first tab with an id.
pub open spec fn tab_with_id(tabs: Seq<TabView>, id: Seq<char>) -> Option<TabView>
    decreases tabs.len(),
{
    if tabs.len() == 0 {
        None
    } else if tabs[0].id == id {
        Some(tabs[0])
    } else {
        tab_with_id(tabs.skip(1), id)
    }
}

fn find_tab<'a>(tabs: &'a Vec<CdpTab>, id: &str) -> (r: Option<&'a CdpTab>)
    ensures
        match r {
            Some(t) => tab_with_id(tab_views(tabs@), id@) == Some(t@),
            None => tab_with_id(tab_views(tabs@), id@) is None,
        },
{
    let ghost all = tab_views(tabs@);
    let mut i: usize = 0;
    assert(all.skip(0) =~= all);
    while i < tabs.len()
        invariant
            i <= tabs@.len(),
            all == tab_views(tabs@),
            tab_with_id(all.skip(i as int), id@) == tab_with_id(all, id@),
        decreases tabs@.len() - i,
    {
        assert(all.skip(i as int)[0] == tabs@[i as int]@);
        assert(all.skip(i as int).skip(1) =~= all.skip(i + 1));
        if str_eq(tabs[i].id.as_str(), id) {
            return Some(&tabs[i]);
        }
        i = i + 1;
    }
    None
}

/// The message channel of a tab.
pub fn websocket_url_for_tab(tabs: &Vec<CdpTab>, id: &str) -> (r: Option<String>)
    ensures
        opt_text(r) == match tab_with_id(tab_views(tabs@), id@) {
            Some(t) => t.web_socket_debugger_url,
            None => None,
        },
{
    match find_tab(tabs, id) {
        Some(t) => opt_clone(&t.web_socket_debugger_url),
        None => None,
    }
}

/// The host that the tab with an id shows.
pub open spec fn host_of_tab(tabs: Seq<TabView>, id: Seq<char>) -> Option<Seq<char>> {
    match tab_with_id(tabs, id) {
        Some(t) => tab_shows(t),
        None => None,
    }
}

/// The host that the tab with an id shows.
pub fn tab_host(tabs: &Vec<CdpTab>, id: &str) -> (r: Option<String>)
    ensures
        opt_text(r) == host_of_tab(tab_views(tabs@), id@),
{
    match find_tab(tabs, id) {
        Some(t) => shown_host(t),
        None => None,
    }
}

/// Whether the tab with an id shows the host that is waited for.
pub fn tab_has_host(tabs: &Vec<CdpTab>, id: &str, expected_host: &str) -> (r: bool)
    ensures
        r == (host_of_tab(tab_views(tabs@), id@) == Some(expected_host@)),
{
    match tab_host(tabs, id) {
        Some(host) => str_eq(host.as_str(), expected_host),
        None => false,
    }
}

/// Whether one of the sites has a host.
pub open spec fn among_sites(sites: Seq<Seq<char>>, host: Seq<char>) -> bool {
    exists|i: int| 0 <= i < sites.len() && url_host(#[trigger] sites[i]) == Some(host)
}

fn is_among_sites(sites: &Vec<String>, host: &str) -> (r: bool)
    ensures
        r == among_sites(texts(sites@), host@),
{
    let mut i: usize = 0;
    while i < sites.len()
        invariant
            i <= sites@.len(),
            forall|k: int| 0 <= k < i ==> url_host((#[trigger] sites@[k])@) != Some(host@),
        decreases sites@.len() - i,
    {
        if let Some(h) = host_from_url(sites[i].as_str()) {
            if str_eq(h.as_str(), host) {
                assert(texts(sites@)[i as int] == sites@[i as int]@);
                return true;
            }
        }
        i = i + 1;
    }
    assert forall|k: int| 0 <= k < sites@.len() implies url_host(#[trigger] texts(sites@)[k])
        != Some(host@) by {
        assert(url_host(sites@[k]@) != Some(host@));
    }
    false
}

/// A page of one of the sites.
pub open spec fn is_site_page(t: TabView, sites: Seq<Seq<char>>) -> bool {
    is_page(t) && match tab_shows(t) {
        Some(host) => among_sites(sites, host),
        None => false,
    }
}

/// The message channels of the pages that show one of the sites.
pub open spec fn channels_to_reload(tabs: Seq<TabView>, sites: Seq<Seq<char>>) -> Seq<Seq<char>>
    decreases tabs.len(),
{
    if tabs.len() == 0 {
        Seq::empty()
    } else {
        let rest = channels_to_reload(tabs.drop_last(), sites);
        match tabs.last().web_socket_debugger_url {
            Some(channel) => if is_site_page(tabs.last(), sites) {
                rest.push(channel)
            } else {
                rest
            },
            None => rest,
        }
    }
}

/// The message channels of the pages that show one of the sites.
pub fn tabs_to_reload(tabs: &Vec<CdpTab>, site_urls: &Vec<String>) -> (r: Vec<String>)
    ensures
        texts(r@) == channels_to_reload(tab_views(tabs@), texts(site_urls@)),
{
    let ghost all = tab_views(tabs@);
    let mut out: Vec<String> = Vec::new();
    let mut i: usize = 0;
    assert(all.take(0) =~= Seq::<TabView>::empty());
    assert(texts(out@) =~= Seq::<Seq<char>>::empty());
    while i < tabs.len()
        invariant
            i <= tabs@.len(),
            all == tab_views(tabs@),
            texts(out@) == channels_to_reload(all.take(i as int), texts(site_urls@)),
        decreases tabs@.len() - i,
    {
        assert(all.take(i + 1).drop_last() =~= all.take(i as int));
        assert(all.take(i + 1).last() == tabs@[i as int]@);
        if shows_page(&tabs[i]) {
            if let Some(host) = shown_host(&tabs[i]) {
                if is_among_sites(site_urls, host.as_str()) {
                    if let Some(channel) = opt_clone(&tabs[i].web_socket_debugger_url) {
                        push_text(&mut out, channel);
                    }
                }
            }
        }
        i = i + 1;
    }
    assert(all.take(i as int) =~= all);
    out
}

/// What to do about a message channel to a page.
#[derive(Debug)]
pub enum ChannelStep {
    Use(String),
    /// Open an empty tab and look again.
    OpenBlank,
    Failed(String),
}

/// What a `ChannelStep` says.
pub enum ChannelView {
    Use(Seq<char>),
    OpenBlank,
    Failed(Seq<char>),
}

impl View for ChannelStep {
    type V = ChannelView;

    open spec fn view(&self) -> ChannelView {
        match *self {
            ChannelStep::Use(t) => ChannelView::Use(t@),
            ChannelStep::OpenBlank => ChannelView::OpenBlank,
            ChannelStep::Failed(t) => ChannelView::Failed(t@),
        }
    }
}

/// What to do about a message channel to a page; `opened` tells whether an empty tab was
/// opened for it.
pub fn page_websocket_step(tabs: &Vec<CdpTab>, opened: bool) -> (r: ChannelStep)
    ensures
        r@ == match page_channel(tab_views(tabs@)) {
            Some(channel) => ChannelView::Use(channel),
            None => if opened {
                ChannelView::Failed("未找到可用的 Chrome 页面调试通道"@)
            } else {
                ChannelView::OpenBlank
            },
        },
{
    match find_page_websocket_url(tabs) {
        Some(channel) => ChannelStep::Use(channel),
        None => if opened {
            ChannelStep::Failed("未找到可用的 Chrome 页面调试通道".to_string())
        } else {
            ChannelStep::OpenBlank
        },
    }
}

/// A call that clears data of the browser.
#[derive(Debug)]
pub enum ClearCall {
    Cookies,
    Cache,
    /// Everything that is stored for an origin.
    Origin(String),
}

/// What a `ClearCall` says.
pub enum ClearView {
    Cookies,
    Cache,
    Origin(Seq<char>),
}

impl View for ClearCall {
    type V = ClearView;

    open spec fn view(&self) -> ClearView {
        match *self {
            ClearCall::Cookies => ClearView::Cookies,
            ClearCall::Cache => ClearView::Cache,
            ClearCall::Origin(t) => ClearView::Origin(t@),
        }
    }
}

/// The calls that clear the data of the sites: all cookies, the cache, and what is stored
/// for the origin of each site.
pub fn clear_calls(site_urls: &Vec<String>) -> (r: Vec<ClearCall>)
    ensures
        r@.map_values(|c: ClearCall| c@) == seq![ClearView::Cookies, ClearView::Cache]
            + crate::list::distinct(crate::host::origins_of(texts(site_urls@))).map_values(
            |o: Seq<char>| ClearView::Origin(o),
        ),
{
    let origins: Vec<String> = crate::host::unique_origins(site_urls);
    let ghost all = texts(origins@);
    let mut out: Vec<ClearCall> = Vec::new();
    out.push(ClearCall::Cookies);
    out.push(ClearCall::Cache);
    let mut i: usize = 0;
    while i < origins.len()
        invariant
            i <= origins@.len(),
            all == texts(origins@),
            out@.len() == i + 2,
            out@[0]@ == ClearView::Cookies,
            out@[1]@ == ClearView::Cache,
            forall|k: int| 0 <= k < i ==> (#[trigger] out@[k + 2])@ == ClearView::Origin(all[k]),
        decreases origins@.len() - i,
    {
        let ghost before = out@;
        out.push(ClearCall::Origin(origins[i].clone()));
        assert forall|k: int| 0 <= k < i + 1 implies (#[trigger] out@[k + 2])@
            == ClearView::Origin(all[k]) by {
            if k < i {
                assert(out@[k + 2] == before[k + 2]);
            }
        }
        i = i + 1;
    }
    let ghost want = seq![ClearView::Cookies, ClearView::Cache] + all.map_values(
        |o: Seq<char>| ClearView::Origin(o),
    );
    assert forall|k: int| 0 <= k < want.len() implies out@.map_values(|c: ClearCall| c@)[k]
        == want[k] by {
        if k >= 2 {
            assert(out@[(k - 2) + 2]@ == ClearView::Origin(all[k - 2]));
        }
    }
    assert(out@.map_values(|c: ClearCall| c@) =~= want);
    out
}

/// Whether the reply to a cookie says that it was stored.
pub open spec fn cookie_stored(response: crate::json::JsonView) -> bool {
    match response.at("result"@) {
        Some(result) => result.truth_at("success"@) == Some(true),
        None => false,
    }
}

/// Whether the reply to a cookie says that it was stored.
pub fn cookie_was_stored(response: &Json) -> (r: bool)
    ensures
        r == cookie_stored(response@),
{
    match response.get("result") {
        Some(result) => match result.bool_at("success") {
            Some(b) => b,
            None => false,
        },
        None => false,
    }
}

// ---------------------------------------------------------------- requests

/// The path on which a tab is opened.
pub fn new_tab_path(url: &str) -> (r: String)
    ensures
        r@ == "/json/new?"@ + crate::percent::escaped(
            crate::percent::Kept::Address,
            vstd::utf8::encode_utf8(trimmed(url@)),
        ),
{
    "/json/new?".to_string().concat(crate::percent::encode_cdp_target_url(url).as_str())
}

/// The path on which a tab is closed.
pub fn close_tab_path(id: &str) -> (r: String)
    ensures
        r@ == "/json/close/"@ + id@,
{
    "/json/close/".to_string().concat(id)
}

// ---------------------------------------------------------------- starting the browser

/// A place where the program of the browser may be.
#[derive(Debug)]
pub struct ChromeCandidate {
    pub path: String,
    /// Whether there is a file at the place itself.
    pub exists: bool,
    /// The file of this name that the search path leads to.
    pub in_path: Option<String>,
}

/// What a `ChromeCandidate` says.
pub struct CandidateView {
    pub path: Seq<char>,
    pub exists: bool,
    pub in_path: Option<Seq<char>>,
}

impl View for ChromeCandidate {
    type V = CandidateView;

    open spec fn view(&self) -> CandidateView {
        CandidateView { path: self.path@, exists: self.exists, in_path: opt_text(self.in_path) }
    }
}

/// What a list of places says.
pub open spec fn candidate_views(list: Seq<ChromeCandidate>) -> Seq<CandidateView> {
    list.map_values(|c: ChromeCandidate| c@)
}

/// The program of the browser: the first place with a file, itself or by the search path.
pub open spec fn first_program(list: Seq<CandidateView>) -> Option<Seq<char>>
    decreases list.len(),
{
    if list.len() == 0 {
        None
    } else if list[0].exists {
        Some(list[0].path)
    } else if list[0].in_path is Some {
        list[0].in_path
    } else {
        first_program(list.skip(1))
    }
}

/// The program of the browser.
pub fn find_chrome_executable(candidates: &Vec<ChromeCandidate>) -> (r: Option<String>)
    ensures
        opt_text(r) == first_program(candidate_views(candidates@)),
{
    let ghost all = candidate_views(candidates@);
    let mut i: usize = 0;
    assert(all.skip(0) =~= all);
    while i < candidates.len()
        invariant
            i <= candidates@.len(),
            all == candidate_views(candidates@),
            first_program(all.skip(i as int)) == first_program(all),
        decreases candidates@.len() - i,
    {
        assert(all.skip(i as int)[0] == candidates@[i as int]@);
        assert(all.skip(i as int).skip(1) =~= all.skip(i + 1));
        if candidates[i].exists {
            return Some(candidates[i].path.clone());
        }
        if candidates[i].in_path.is_some() {
            return opt_clone(&candidates[i].in_path);
        }
        i = i + 1;
    }
    None
}

/// Whether the program of the browser is there.
pub fn chrome_installed(candidates: &Vec<ChromeCandidate>) -> (r: bool)
    ensures
        r == first_program(candidate_views(candidates@)) is Some,
{
    find_chrome_executable(candidates).is_some()
}

/// The texts with the white space around them taken away, without the empty ones.
pub open spec fn nonblank(list: Seq<Seq<char>>) -> Seq<Seq<char>>
    decreases list.len(),
{
    if list.len() == 0 {
        Seq::empty()
    } else {
        let rest = nonblank(list.drop_last());
        if trimmed(list.last()).len() == 0 {
            rest
        } else {
            rest.push(trimmed(list.last()))
        }
    }
}

/// The addresses without blank ones, in order.
pub fn nonblank_urls(urls: &Vec<String>) -> (r: Vec<String>)
    ensures
        texts(r@) == nonblank(texts(urls@)),
{
    let ghost all = texts(urls@);
    let mut out: Vec<String> = Vec::new();
    let mut i: usize = 0;
    assert(all.take(0) =~= Seq::<Seq<char>>::empty());
    assert(texts(out@) =~= Seq::<Seq<char>>::empty());
    while i < urls.len()
        invariant
            i <= urls@.len(),
            all == texts(urls@),
            texts(out@) == nonblank(all.take(i as int)),
        decreases urls@.len() - i,
    {
        assert(all.take(i + 1).drop_last() =~= all.take(i as int));
        assert(all.take(i + 1).last() == urls@[i as int]@);
        let chars: Vec<char> = chars_of(urls[i].as_str());
        let clean: &[char] = trim(chars.as_slice());
        if clean.len() > 0 {
            push_text(&mut out, string_of(clean));
        }
        i = i + 1;
    }
    assert(all.take(i as int) =~= all);
    out
}

/// The addresses without blank and repeated ones, in the order in which they come first.
pub fn unique_urls(urls: &Vec<String>) -> (r: Vec<String>)
    ensures
        texts(r@) == distinct(nonblank(texts(urls@))),
{
    let clean: Vec<String> = nonblank_urls(urls);
    let ghost all = texts(clean@);
    let mut out: Vec<String> = Vec::new();
    let mut i: usize = 0;
    assert(all.take(0) =~= Seq::<Seq<char>>::empty());
    assert(texts(out@) =~= Seq::<Seq<char>>::empty());
    while i < clean.len()
        invariant
            i <= clean@.len(),
            all == texts(clean@),
            texts(out@) == distinct(all.take(i as int)),
        decreases clean@.len() - i,
    {
        assert(all.take(i + 1).drop_last() =~= all.take(i as int));
        assert(all.take(i + 1).last() == clean@[i as int]@);
        push_new(&mut out, clean[i].as_str());
        i = i + 1;
    }
    assert(all.take(i as int) =~= all);
    out
}

/// The pages with which the browser is started.
pub open spec fn start_pages(urls: Seq<Seq<char>>) -> Seq<Seq<char>> {
    let unique = distinct(nonblank(urls));
    if unique.len() == 0 {
        seq!["about:blank"@]
    } else {
        unique
    }
}

/// The pages with which the browser is started.
pub fn launch_urls(urls: &Vec<String>) -> (r: Vec<String>)
    ensures
        texts(r@) == start_pages(texts(urls@)),
{
    let mut unique: Vec<String> = unique_urls(urls);
    assert(texts(unique@).len() == unique@.len());
    if unique.len() == 0 {
        push_text(&mut unique, "about:blank".to_string());
        assert(texts(unique@) =~= seq!["about:blank"@]);
    }
    unique
}

/// What is reported of a connected browser.
pub open spec fn connected_text(prefix: Seq<char>, port: u16, opened: usize) -> Seq<char> {
    prefix + "：localhost:"@ + decimal(port as nat) + if opened == 0 {
        ""@
    } else {
        "，已打开 "@ + decimal(opened as nat)
            + " 个站点。首次使用请在该窗口登录站点。"@
    }
}

/// What is reported of a connected browser.
pub fn connected_message(prefix: &str, port: u16, opened_initial_urls: usize) -> (r: String)
    ensures
        r@ == connected_text(prefix@, port, opened_initial_urls),
{
    let place: String = prefix.to_string().concat("：localhost:").concat(
        decimal_of(port as u64).as_str(),
    );
    if opened_initial_urls == 0 {
        place.concat("")
    } else {
        place.concat(
            "，已打开 ".to_string().concat(decimal_of(opened_initial_urls as u64).as_str()).concat(
                " 个站点。首次使用请在该窗口登录站点。",
            ).as_str(),
        )
    }
}

/// The port in the file that the browser writes when it is ready.
pub open spec fn written_port(data: Seq<char>) -> Option<u16> {
    if lines_of(data).len() == 0 {
        None
    } else {
        u16_in(trimmed(lines_of(data)[0]))
    }
}

/// The port in the file that the browser writes when it is ready.
pub fn devtools_port(data: &str) -> (r: Option<u16>)
    ensures
        r == written_port(data@),
{
    let chars: Vec<char> = chars_of(data);
    let all: Vec<&[char]> = lines(chars.as_slice());
    assert(pieces(all@).len() == all@.len());
    if all.len() == 0 {
        return None;
    }
    assert(pieces(all@)[0] == all@[0]@);
    parse_u16(trim(all[0]))
}

/// The arguments with which the browser is started; without a port of its own it picks
/// one.
pub open spec fn chrome_arguments(
    profile: Seq<char>,
    urls: Seq<Seq<char>>,
    fixed_port: Option<u16>,
) -> Seq<Seq<char>> {
    seq![
        "--remote-debugging-port="@ + decimal(
            match fixed_port {
                Some(p) => p as nat,
                None => 0nat,
            },
        ),
        "--remote-debugging-address=127.0.0.1"@,
        "--user-data-dir="@ + profile,
        "--no-first-run"@,
        "--no-default-browser-check"@,
        "--new-window"@,
    ] + urls
}

/// The arguments with which the browser is started.
pub fn launch_arguments(profile: &str, urls: Vec<String>, fixed_port: Option<u16>) -> (r: Vec<
    String,
>)
    ensures
        texts(r@) == chrome_arguments(profile@, texts(urls@), fixed_port),
{
    let port: u16 = match fixed_port {
        Some(p) => p,
        None => 0,
    };
    let mut out: Vec<String> = Vec::new();
    push_text(
        &mut out,
        "--remote-debugging-port=".to_string().concat(decimal_of(port as u64).as_str()),
    );
    push_text(&mut out, "--remote-debugging-address=127.0.0.1".to_string());
    push_text(&mut out, "--user-data-dir=".to_string().concat(profile));
    push_text(&mut out, "--no-first-run".to_string());
    push_text(&mut out, "--no-default-browser-check".to_string());
    push_text(&mut out, "--new-window".to_string());
    crate::list::push_texts(&mut out, urls);
    assert(texts(out@) =~= chrome_arguments(profile@, texts(urls@), fixed_port));
    out
}

/// The channel that is used is that of the first page that has one, and none exactly where no
/// page has one.
pub proof fn channel_is_of_the_first_page(tabs: Seq<TabView>)
    ensures
        match page_channel(tabs) {
            Some(c) => exists|i: int|
                0 <= i < tabs.len() && (#[trigger] tabs[i]).tab_type == Some("page"@)
                    && tabs[i].web_socket_debugger_url == Some(c) && forall|j: int|
                    0 <= j < i ==> (#[trigger] tabs[j]).tab_type != Some("page"@)
                        || tabs[j].web_socket_debugger_url is None,
            None => forall|j: int|
                0 <= j < tabs.len() ==> (#[trigger] tabs[j]).tab_type != Some("page"@)
                    || tabs[j].web_socket_debugger_url is None,
        },
    decreases tabs.len(),
{
    if tabs.len() > 0 {
        let rest = tabs.skip(1);
        if is_page(tabs[0]) && tabs[0].web_socket_debugger_url is Some {
            assert(tabs[0].web_socket_debugger_url == page_channel(tabs));
        } else {
            channel_is_of_the_first_page(rest);
            match page_channel(rest) {
                Some(c) => {
                    let i = choose|i: int|
                        0 <= i < rest.len() && (#[trigger] rest[i]).tab_type == Some("page"@)
                            && rest[i].web_socket_debugger_url == Some(c) && forall|j: int|
                            0 <= j < i ==> (#[trigger] rest[j]).tab_type != Some("page"@)
                                || rest[j].web_socket_debugger_url is None;
                    assert(tabs[i + 1] == rest[i]);
                    assert forall|j: int| 0 <= j < i + 1 implies (#[trigger] tabs[j]).tab_type
                        != Some("page"@) || tabs[j].web_socket_debugger_url is None by {
                        if j > 0 {
                            assert(tabs[j] == rest[j - 1]);
                        }
                    }
                },
                None => {
                    assert forall|j: int| 0 <= j < tabs.len() implies (#[trigger] tabs[j]).tab_type
                        != Some("page"@) || tabs[j].web_socket_debugger_url is None by {
                        if j > 0 {
                            assert(tabs[j] == rest[j - 1]);
                        }
                    }
                },
            }
        }
    }
}

/// The tab of an id is the first that has it, and none exactly where no tab has it.
pub proof fn tab_is_found_by_its_id(tabs: Seq<TabView>, id: Seq<char>)
    ensures
        match tab_with_id(tabs, id) {
            Some(t) => t.id == id && exists|i: int|
                0 <= i < tabs.len() && #[trigger] tabs[i] == t && forall|j: int|
                    0 <= j < i ==> (#[trigger] tabs[j]).id != id,
            None => forall|j: int| 0 <= j < tabs.len() ==> (#[trigger] tabs[j]).id != id,
        },
    decreases tabs.len(),
{
    if tabs.len() > 0 {
        let rest = tabs.skip(1);
        if tabs[0].id == id {
            assert(tabs[0] == tab_with_id(tabs, id)->0);
        } else {
            tab_is_found_by_its_id(rest, id);
            match tab_with_id(rest, id) {
                Some(t) => {
                    let i = choose|i: int|
                        0 <= i < rest.len() && #[trigger] rest[i] == t && forall|j: int|
                            0 <= j < i ==> (#[trigger] rest[j]).id != id;
                    assert(tabs[i + 1] == t);
                    assert forall|j: int| 0 <= j < i + 1 implies (#[trigger] tabs[j]).id != id by {
                        if j > 0 {
                            assert(tabs[j] == rest[j - 1]);
                        }
                    }
                },
                None => {
                    assert forall|j: int| 0 <= j < tabs.len() implies (#[trigger] tabs[j]).id
                        != id by {
                        if j > 0 {
                            assert(tabs[j] == rest[j - 1]);
                        }
                    }
                },
            }
        }
    }
}

/// A tab is loaded anew exactly where it is a page with a channel that shows the host of one
/// of the sites.
pub proof fn pages_of_the_sites_are_reloaded(tabs: Seq<TabView>, sites: Seq<Seq<char>>)
    ensures
        forall|c: Seq<char>| #[trigger]
            channels_to_reload(tabs, sites).contains(c) <==> exists|i: int|
                0 <= i < tabs.len() && is_reloaded(#[trigger] tabs[i], sites, c),
    decreases tabs.len(),
{
    if tabs.len() > 0 {
        let head = tabs.drop_last();
        let all = channels_to_reload(tabs, sites);
        let rest = channels_to_reload(head, sites);
        pages_of_the_sites_are_reloaded(head, sites);
        assert forall|c: Seq<char>| #[trigger] all.contains(c) <==> exists|i: int|
            0 <= i < tabs.len() && is_reloaded(#[trigger] tabs[i], sites, c) by {
            if all.contains(c) {
                let k = choose|k: int| 0 <= k < all.len() && all[k] == c;
                if k < rest.len() {
                    assert(rest.contains(rest[k]));
                    let i = choose|i: int|
                        0 <= i < head.len() && is_reloaded(#[trigger] head[i], sites, c);
                    assert(tabs[i] == head[i]);
                } else {
                    assert(is_reloaded(tabs[tabs.len() - 1], sites, c));
                }
            }
            if exists|i: int| 0 <= i < tabs.len() && is_reloaded(#[trigger] tabs[i], sites, c) {
                let i = choose|i: int|
                    0 <= i < tabs.len() && is_reloaded(#[trigger] tabs[i], sites, c);
                if i < head.len() {
                    assert(head[i] == tabs[i]);
                    assert(rest.contains(c));
                    let k = choose|k: int| 0 <= k < rest.len() && rest[k] == c;
                    assert(all[k] == c);
                } else {
                    assert(all[all.len() - 1] == c);
                }
            }
        }
    }
}

/// A tab is a page with a channel, and shows the host of one of the sites.
pub open spec fn is_reloaded(t: TabView, sites: Seq<Seq<char>>, channel: Seq<char>) -> bool {
    &&& t.tab_type == Some("page"@)
    &&& t.web_socket_debugger_url == Some(channel)
    &&& t.url matches Some(url) && exists|i: int|
        0 <= i < sites.len() && url_host(url) is Some && url_host(#[trigger] sites[i]) == url_host(
            url,
        )
}

/// The program that is started is that of the first place that has one, itself or by the
/// search path.
pub proof fn first_place_with_a_program_is_used(list: Seq<CandidateView>)
    ensures
        match first_program(list) {
            Some(p) => exists|i: int|
                0 <= i < list.len() && p == (if (#[trigger] list[i]).exists {
                    list[i].path
                } else {
                    list[i].in_path->0
                }) && (list[i].exists || list[i].in_path is Some) && forall|j: int|
                    0 <= j < i ==> !(#[trigger] list[j]).exists && list[j].in_path is None,
            None => forall|j: int|
                0 <= j < list.len() ==> !(#[trigger] list[j]).exists && list[j].in_path is None,
        },
    decreases list.len(),
{
    if list.len() > 0 {
        let rest = list.skip(1);
        if list[0].exists || list[0].in_path is Some {
            assert(first_program(list) is Some);
        } else {
            first_place_with_a_program_is_used(rest);
            match first_program(rest) {
                Some(p) => {
                    let i = choose|i: int|
                        0 <= i < rest.len() && p == (if (#[trigger] rest[i]).exists {
                            rest[i].path
                        } else {
                            rest[i].in_path->0
                        }) && (rest[i].exists || rest[i].in_path is Some) && forall|j: int|
                            0 <= j < i ==> !(#[trigger] rest[j]).exists && rest[j].in_path is None;
                    assert(list[i + 1] == rest[i]);
                    assert forall|j: int| 0 <= j < i + 1 implies !(#[trigger] list[j]).exists
                        && list[j].in_path is None by {
                        if j > 0 {
                            assert(list[j] == rest[j - 1]);
                        }
                    }
                },
                None => {
                    assert forall|j: int| 0 <= j < list.len() implies !(#[trigger] list[j]).exists
                        && list[j].in_path is None by {
                        if j > 0 {
                            assert(list[j] == rest[j - 1]);
                        }
                    }
                },
            }
        }
    }
}

proof fn lemma_nonblank(list: Seq<Seq<char>>)
    ensures
        forall|x: Seq<char>| #[trigger]
            nonblank(list).contains(x) <==> x.len() > 0 && exists|i: int|
                0 <= i < list.len() && trimmed(#[trigger] list[i]) == x,
    decreases list.len(),
{
    if list.len() > 0 {
        let head = list.drop_last();
        let all = nonblank(list);
        let rest = nonblank(head);
        lemma_nonblank(head);
        assert forall|x: Seq<char>| #[trigger] all.contains(x) <==> x.len() > 0 && exists|i: int|
            0 <= i < list.len() && trimmed(#[trigger] list[i]) == x by {
            if all.contains(x) {
                let k = choose|k: int| 0 <= k < all.len() && all[k] == x;
                if k < rest.len() {
                    assert(rest.contains(rest[k]));
                    let i = choose|i: int|
                        0 <= i < head.len() && trimmed(#[trigger] head[i]) == x;
                    assert(list[i] == head[i]);
                } else {
                    assert(trimmed(list[list.len() - 1]) == x);
                }
            }
            if x.len() > 0 && exists|i: int|
                0 <= i < list.len() && trimmed(#[trigger] list[i]) == x {
                let i = choose|i: int| 0 <= i < list.len() && trimmed(#[trigger] list[i]) == x;
                if i < head.len() {
                    assert(head[i] == list[i]);
                    assert(rest.contains(x));
                    let k = choose|k: int| 0 <= k < rest.len() && rest[k] == x;
                    assert(all[k] == x);
                } else {
                    assert(all[all.len() - 1] == x);
                }
            }
        }
    }
}

/// The browser is started with every address that is not blank, each once, and with an empty
/// page where there is none.
pub proof fn browser_starts_with_each_address_once(urls: Seq<Seq<char>>)
    ensures
        start_pages(urls).no_duplicates(),
        start_pages(urls).len() > 0,
        forall|i: int|
            0 <= i < urls.len() && trimmed(#[trigger] urls[i]).len() > 0 ==> start_pages(
                urls,
            ).contains(trimmed(urls[i])),
        (forall|i: int| 0 <= i < urls.len() ==> trimmed(#[trigger] urls[i]).len() == 0)
            ==> start_pages(urls) == seq!["about:blank"@],
{
    let list = nonblank(urls);
    lemma_nonblank(urls);
    crate::list::distinct_is_a_set(list);
    let unique = distinct(list);
    if unique.len() > 0 {
        assert(unique.contains(unique[0]));
        assert(list.contains(unique[0]));
        let i = choose|i: int| 0 <= i < urls.len() && trimmed(#[trigger] urls[i]) == unique[0];
        assert(trimmed(urls[i]).len() > 0);
    }
    assert forall|i: int| 0 <= i < urls.len() && trimmed(#[trigger] urls[i]).len()
        > 0 implies start_pages(urls).contains(trimmed(urls[i])) by {
        assert(list.contains(trimmed(urls[i])));
        assert(unique.contains(trimmed(urls[i])));
    }
}

/// The browser is started for its own profile, listens to this machine alone, on the port that
/// it is given or one of its choice, and opens the pages in their order.
pub proof fn arguments_name_port_profile_and_pages(
    profile: Seq<char>,
    urls: Seq<Seq<char>>,
    fixed_port: Option<u16>,
)
    ensures
        ({
            let args = chrome_arguments(profile, urls, fixed_port);
            &&& args.contains("--user-data-dir="@ + profile)
            &&& args.contains("--remote-debugging-address=127.0.0.1"@)
            &&& fixed_port matches Some(p) ==> args.contains(
                "--remote-debugging-port="@ + decimal(p as nat),
            )
            &&& fixed_port is None ==> args.contains("--remote-debugging-port="@ + decimal(0))
            &&& args.len() == 6 + urls.len()
            &&& args.skip(6) == urls
        }),
{
    let args = chrome_arguments(profile, urls, fixed_port);
    assert(args[0] == "--remote-debugging-port="@ + decimal(
        match fixed_port {
            Some(p) => p as nat,
            None => 0nat,
        },
    ));
    assert(args[1] == "--remote-debugging-address=127.0.0.1"@);
    assert(args[2] == "--user-data-dir="@ + profile);
    assert(args.skip(6) =~= urls);
}

/// The port that a browser wrote into the first line of its file is read back.
pub proof fn written_port_reads_back(port: u16, rest: Seq<char>)
    ensures
        written_port(decimal(port as nat) + "\n"@ + rest) == Some(port),
{
    reveal_strlit("\n");
    let digits = decimal(port as nat);
    let data = digits + "\n"@ + rest;
    let n = digits.len() as int;
    crate::number::decimal_is_digits(port as nat);
    crate::number::decimal_reads_back(port as nat, u16::MAX as int);
    assert forall|j: int| 0 <= j < n implies data[j] != '\n' by {
        assert(data[j] == digits[j]);
    }
    assert(data[n] == '\n');
    crate::text::lemma_index_of_is(data, '\n', n);
    assert(data.take(n) =~= digits);
    assert(digits.last() == digits[n - 1]);
    assert(digits.last() != '\r');
    assert(!crate::text::white(digits[0]) && !crate::text::white(digits[n - 1]));
    crate::text::trimming_keeps_what_is_bare(digits);
    assert(lines_of(data)[0] == digits);
}

} // verus!
