//! Writing fetched login data into the browser and what is reported of it.

use crate::cdp::{
    cookie_views, storage_views, CdpCookieParam, CdpLocalStorageParam, CookieView, StorageView,
};
use crate::cdp::storage::{item_names, names_of};
use crate::host::{
    bare_host, hosts_match, listed_host, normalize_host, plain_host, same_host, site_host,
    site_host_from_url, unless_empty,
};
use crate::list::push_text;
use crate::notes::{no_notes, note_views, one_note};
use crate::number::{decimal, decimal_of};
use crate::order::{sort_distinct, sorted_distinct, sorted_distinct_is_sorted_set};
use crate::scheduler::LogLevel;
use crate::store::{site_views, Site, SiteView};
use crate::text::{
    chars_of, containing_is_transitive, contains_str, contains_text, has_prefix, join, joined,
    has_suffix, joined_text_holds_its_parts, lowered, opt_text, str_eq, sum_contains_its_middle,
    sum_contains_its_parts, texts, to_lower,
};
use vstd::prelude::*;

verus! {

// ---------------------------------------------------------------- counting

/// How many entries storages hold.
pub open spec fn total_items(storages: Seq<StorageView>) -> nat
    decreases storages.len(),
{
    if storages.len() == 0 {
        0
    } else {
        total_items(storages.drop_last()) + storages.last().items.len()
    }
}

proof fn lemma_total_grows(storages: Seq<StorageView>, n: int)
    requires
        0 <= n <= storages.len(),
    ensures
        total_items(storages.take(n)) <= total_items(storages),
    decreases storages.len() - n,
{
    if n < storages.len() {
        lemma_total_grows(storages, n + 1);
        assert(storages.take(n + 1).drop_last() =~= storages.take(n));
    } else {
        assert(storages.take(n) =~= storages);
    }
}

/// How many entries storages hold.
pub fn local_storage_item_count(storages: &Vec<CdpLocalStorageParam>) -> (r: usize)
    requires
        total_items(storage_views(storages@)) <= usize::MAX,
    ensures
        r == total_items(storage_views(storages@)),
{
    let ghost all = storage_views(storages@);
    let mut sum: usize = 0;
    let mut i: usize = 0;
    assert(all.take(0) =~= Seq::<StorageView>::empty());
    while i < storages.len()
        invariant
            i <= storages@.len(),
            all == storage_views(storages@),
            total_items(all) <= usize::MAX,
            sum == total_items(all.take(i as int)),
        decreases storages@.len() - i,
    {
        proof {
            lemma_total_grows(all, i + 1);
            assert(all.take(i + 1).drop_last() =~= all.take(i as int));
            assert(all.take(i + 1).last() == storages@[i as int]@);
            assert(storages@[i as int]@.items.len() == storages@[i as int].items@.len());
        }
        sum = sum + storages[i].items.len();
        i = i + 1;
    }
    assert(all.take(i as int) =~= all);
    sum
}

// ---------------------------------------------------------------- matching sites

/// The host to which a cookie belongs.
pub open spec fn cookie_belongs_to(c: CookieView) -> Option<Seq<char>> {
    unless_empty(
        plain_host(
            match c.domain {
                Some(d) => d,
                None => c.url,
            },
        ),
    )
}

/// The host to which a cookie belongs.
pub fn cookie_host(cookie: &CdpCookieParam) -> (r: Option<String>)
    ensures
        opt_text(r) == cookie_belongs_to(cookie@),
{
    match &cookie.domain {
        Some(d) => normalize_host(d.as_str()),
        None => normalize_host(cookie.url.as_str()),
    }
}

/// Whether a cookie is for a host.
pub open spec fn cookie_is_for(c: CookieView, host: Seq<char>) -> bool {
    match cookie_belongs_to(c) {
        Some(h) => same_host(host, h),
        None => false,
    }
}

/// Whether data were found for a site.
pub open spec fn has_data(s: SiteView, cookies: Seq<CookieView>, storages: Seq<StorageView>) -> bool {
    match site_host(s.url) {
        None => false,
        Some(host) => {
            ||| exists|i: int| 0 <= i < cookies.len() && cookie_is_for(#[trigger] cookies[i], host)
            ||| exists|i: int|
                0 <= i < storages.len() && same_host(host, (#[trigger] storages[i]).host)
        },
    }
}

fn any_cookie_for(cookies: &Vec<CdpCookieParam>, host: &str) -> (r: bool)
    ensures
        r == exists|i: int|
            0 <= i < cookies@.len() && cookie_is_for(#[trigger] cookie_views(cookies@)[i], host@),
{
    let ghost all = cookie_views(cookies@);
    let mut i: usize = 0;
    while i < cookies.len()
        invariant
            i <= cookies@.len(),
            all == cookie_views(cookies@),
            forall|k: int| 0 <= k < i ==> !cookie_is_for(#[trigger] all[k], host@),
        decreases cookies@.len() - i,
    {
        assert(all[i as int] == cookies@[i as int]@);
        if let Some(h) = cookie_host(&cookies[i]) {
            if hosts_match(host, h.as_str()) {
                return true;
            }
        }
        i = i + 1;
    }
    false
}

fn any_storage_for(storages: &Vec<CdpLocalStorageParam>, host: &str) -> (r: bool)
    ensures
        r == exists|i: int|
            0 <= i < storages@.len() && same_host(
                host@,
                (#[trigger] storage_views(storages@)[i]).host,
            ),
{
    let ghost all = storage_views(storages@);
    let mut i: usize = 0;
    while i < storages.len()
        invariant
            i <= storages@.len(),
            all == storage_views(storages@),
            forall|k: int| 0 <= k < i ==> !same_host(host@, (#[trigger] all[k]).host),
        decreases storages@.len() - i,
    {
        assert(all[i as int] == storages@[i as int]@);
        if hosts_match(host, storages[i].host.as_str()) {
            return true;
        }
        i = i + 1;
    }
    false
}

/// Whether data were found for a site.
pub fn site_has_sync_match(
    site: &Site,
    cookies: &Vec<CdpCookieParam>,
    storages: &Vec<CdpLocalStorageParam>,
) -> (r: bool)
    ensures
        r == has_data(site@, cookie_views(cookies@), storage_views(storages@)),
{
    match site_host_from_url(site.url.as_str()) {
        None => false,
        Some(host) => any_cookie_for(cookies, host.as_str()) || any_storage_for(
            storages,
            host.as_str(),
        ),
    }
}

/// The names of the sites for which data were found, or were not, as `found` says.
pub open spec fn names_by_data(
    sites: Seq<SiteView>,
    cookies: Seq<CookieView>,
    storages: Seq<StorageView>,
    found: bool,
) -> Seq<Seq<char>>
    decreases sites.len(),
{
    if sites.len() == 0 {
        Seq::empty()
    } else {
        let rest = names_by_data(sites.drop_last(), cookies, storages, found);
        if has_data(sites.last(), cookies, storages) == found {
            rest.push(sites.last().name)
        } else {
            rest
        }
    }
}

fn collect_names(
    sites: &Vec<Site>,
    cookies: &Vec<CdpCookieParam>,
    storages: &Vec<CdpLocalStorageParam>,
    found: bool,
) -> (r: Vec<String>)
    ensures
        texts(r@) == names_by_data(
            site_views(sites@),
            cookie_views(cookies@),
            storage_views(storages@),
            found,
        ),
{
    let ghost all = site_views(sites@);
    let mut out: Vec<String> = Vec::new();
    let mut i: usize = 0;
    assert(all.take(0) =~= Seq::<SiteView>::empty());
    assert(texts(out@) =~= Seq::<Seq<char>>::empty());
    while i < sites.len()
        invariant
            i <= sites@.len(),
            all == site_views(sites@),
            texts(out@) == names_by_data(
                all.take(i as int),
                cookie_views(cookies@),
                storage_views(storages@),
                found,
            ),
        decreases sites@.len() - i,
    {
        assert(all.take(i + 1).drop_last() =~= all.take(i as int));
        assert(all.take(i + 1).last() == sites@[i as int]@);
        if site_has_sync_match(&sites[i], cookies, storages) == found {
            push_text(&mut out, sites[i].name.clone());
        }
        i = i + 1;
    }
    assert(all.take(i as int) =~= all);
    out
}

/// For which sites data were found.
#[derive(Debug)]
pub struct CookieSiteMatchSummary {
    pub matched_count: usize,
    pub detail: String,
}

/// A list of names under a heading, where there is any.
pub open spec fn named_part(heading: Seq<char>, names: Seq<Seq<char>>) -> Seq<Seq<char>> {
    if names.len() == 0 {
        Seq::empty()
    } else {
        seq![heading + joined(names, ", "@)]
    }
}

fn push_named(parts: &mut Vec<String>, heading: &str, names: &Vec<String>)
    ensures
        texts(final(parts)@) == texts(old(parts)@) + named_part(heading@, texts(names@)),
{
    assert(texts(names@).len() == names@.len());
    if names.len() > 0 {
        push_text(parts, heading.to_string().concat(join(names, ", ").as_str()));
    }
    assert(texts(parts@) =~= texts(old(parts)@) + named_part(heading@, texts(names@)));
}

/// What is reported of the sites.
pub open spec fn match_detail(matched: Seq<Seq<char>>, unmatched: Seq<Seq<char>>) -> Seq<char> {
    joined(
        named_part("匹配站点："@, matched) + named_part("未匹配站点："@, unmatched),
        "；"@,
    )
}

/// For which sites data were found.
pub fn site_match_summary(
    sites: &Vec<Site>,
    cookies: &Vec<CdpCookieParam>,
    storages: &Vec<CdpLocalStorageParam>,
) -> (r: CookieSiteMatchSummary)
    ensures
        ({
            let c = cookie_views(cookies@);
            let l = storage_views(storages@);
            let matched = names_by_data(site_views(sites@), c, l, true);
            let unmatched = names_by_data(site_views(sites@), c, l, false);
            r.matched_count == matched.len() && r.detail@ == match_detail(matched, unmatched)
        }),
{
    let matched: Vec<String> = collect_names(sites, cookies, storages, true);
    let unmatched: Vec<String> = collect_names(sites, cookies, storages, false);
    let mut parts: Vec<String> = Vec::new();
    assert(texts(parts@) =~= Seq::<Seq<char>>::empty());
    push_named(&mut parts, "匹配站点：", &matched);
    push_named(&mut parts, "未匹配站点：", &unmatched);
    assert(texts(parts@) =~= named_part("匹配站点："@, texts(matched@)) + named_part(
        "未匹配站点："@,
        texts(unmatched@),
    ));
    assert(texts(matched@).len() == matched@.len());
    CookieSiteMatchSummary { matched_count: matched.len(), detail: join(&parts, "；") }
}

/// Every site is counted on one side, and on one side only.
pub proof fn every_site_is_counted(
    sites: Seq<SiteView>,
    cookies: Seq<CookieView>,
    storages: Seq<StorageView>,
)
    ensures
        names_by_data(sites, cookies, storages, true).len() + names_by_data(
            sites,
            cookies,
            storages,
            false,
        ).len() == sites.len(),
    decreases sites.len(),
{
    if sites.len() > 0 {
        every_site_is_counted(sites.drop_last(), cookies, storages);
    }
}

// ---------------------------------------------------------------- what was written

/// The host under which a cookie is listed.
pub open spec fn listed_under(c: CookieView) -> Seq<char> {
    lowered(
        bare_host(
            match c.domain {
                Some(d) => d,
                None => c.url,
            },
        ),
    )
}

fn list_under(cookie: &CdpCookieParam) -> (r: String)
    ensures
        r@ == listed_under(cookie@),
{
    match &cookie.domain {
        Some(d) => listed_host(d.as_str()),
        None => listed_host(cookie.url.as_str()),
    }
}

/// The hosts under which cookies are listed.
pub open spec fn listed_hosts(cookies: Seq<CookieView>) -> Seq<Seq<char>>
    decreases cookies.len(),
{
    if cookies.len() == 0 {
        Seq::empty()
    } else {
        let rest = listed_hosts(cookies.drop_last());
        if listed_under(cookies.last()).len() == 0 {
            rest
        } else {
            rest.push(listed_under(cookies.last()))
        }
    }
}

/// The names of the cookies that are listed under a host.
pub open spec fn names_under(cookies: Seq<CookieView>, host: Seq<char>) -> Seq<Seq<char>>
    decreases cookies.len(),
{
    if cookies.len() == 0 {
        Seq::empty()
    } else {
        let rest = names_under(cookies.drop_last(), host);
        if listed_under(cookies.last()) == host {
            rest.push(cookies.last().name)
        } else {
            rest
        }
    }
}

/// A host with different names in rising order.
pub open spec fn host_line(host: Seq<char>, names: Seq<Seq<char>>) -> Seq<char> {
    host + "："@ + joined(sorted_distinct(names), ", "@)
}

fn write_host_line(host: &str, names: &Vec<String>) -> (r: String)
    ensures
        r@ == host_line(host@, texts(names@)),
{
    let sorted: Vec<String> = sort_distinct(names);
    host.to_string().concat("：").concat(join(&sorted, ", ").as_str())
}

fn hosts_listed(cookies: &Vec<CdpCookieParam>) -> (r: Vec<String>)
    ensures
        texts(r@) == listed_hosts(cookie_views(cookies@)),
{
    let ghost all = cookie_views(cookies@);
    let mut out: Vec<String> = Vec::new();
    let mut i: usize = 0;
    assert(all.take(0) =~= Seq::<CookieView>::empty());
    assert(texts(out@) =~= Seq::<Seq<char>>::empty());
    while i < cookies.len()
        invariant
            i <= cookies@.len(),
            all == cookie_views(cookies@),
            texts(out@) == listed_hosts(all.take(i as int)),
        decreases cookies@.len() - i,
    {
        assert(all.take(i + 1).drop_last() =~= all.take(i as int));
        assert(all.take(i + 1).last() == cookies@[i as int]@);
        let host: String = list_under(&cookies[i]);
        if !host.as_str().is_empty() {
            push_text(&mut out, host);
        }
        i = i + 1;
    }
    assert(all.take(i as int) =~= all);
    out
}

fn names_listed(cookies: &Vec<CdpCookieParam>, host: &str) -> (r: Vec<String>)
    ensures
        texts(r@) == names_under(cookie_views(cookies@), host@),
{
    let ghost all = cookie_views(cookies@);
    let mut out: Vec<String> = Vec::new();
    let mut i: usize = 0;
    assert(all.take(0) =~= Seq::<CookieView>::empty());
    assert(texts(out@) =~= Seq::<Seq<char>>::empty());
    while i < cookies.len()
        invariant
            i <= cookies@.len(),
            all == cookie_views(cookies@),
            texts(out@) == names_under(all.take(i as int), host@),
        decreases cookies@.len() - i,
    {
        assert(all.take(i + 1).drop_last() =~= all.take(i as int));
        assert(all.take(i + 1).last() == cookies@[i as int]@);
        if str_eq(list_under(&cookies[i]).as_str(), host) {
            push_text(&mut out, cookies[i].name.clone());
        }
        i = i + 1;
    }
    assert(all.take(i as int) =~= all);
    out
}

/// A line for each host under which cookies are listed, in rising order.
pub open spec fn cookie_lines(cookies: Seq<CookieView>) -> Seq<Seq<char>> {
    sorted_distinct(listed_hosts(cookies)).map_values(
        |host: Seq<char>| host_line(host, names_under(cookies, host)),
    )
}

/// What is reported of the cookies that were written.
pub open spec fn cookie_detail(cookies: Seq<CookieView>) -> Seq<char> {
    let details = joined(cookie_lines(cookies), "；"@);
    if details.len() == 0 {
        "导入 Cookie：无"@
    } else {
        "导入 Cookie："@ + details
    }
}

/// How many hosts cookies were written for, and what is reported of them. The cookies of a
/// host are listed together, whether they came over a secure connection or not.
pub fn cookie_summary(cookies: &Vec<CdpCookieParam>) -> (r: (usize, String))
    ensures
        r.0 == sorted_distinct(listed_hosts(cookie_views(cookies@))).len(),
        r.1@ == cookie_detail(cookie_views(cookies@)),
{
    let ghost all = cookie_views(cookies@);
    let hosts: Vec<String> = sort_distinct(&hosts_listed(cookies));
    let ghost lines = cookie_lines(all);
    let mut out: Vec<String> = Vec::new();
    let mut i: usize = 0;
    assert(texts(hosts@).len() == hosts@.len());
    assert(texts(out@) =~= lines.take(0));
    while i < hosts.len()
        invariant
            i <= hosts@.len(),
            all == cookie_views(cookies@),
            lines == cookie_lines(all),
            texts(hosts@) == sorted_distinct(listed_hosts(all)),
            texts(out@) == lines.take(i as int),
            lines.len() == hosts@.len(),
        decreases hosts@.len() - i,
    {
        assert(texts(hosts@)[i as int] == hosts@[i as int]@);
        let names: Vec<String> = names_listed(cookies, hosts[i].as_str());
        push_text(&mut out, write_host_line(hosts[i].as_str(), &names));
        assert(lines.take(i as int).push(lines[i as int]) =~= lines.take(i + 1));
        i = i + 1;
    }
    assert(lines.take(i as int) =~= lines);
    let details: String = join(&out, "；");
    let text: String = if details.as_str().is_empty() {
        "导入 Cookie：无".to_string()
    } else {
        "导入 Cookie：".to_string().concat(details.as_str())
    };
    (hosts.len(), text)
}

/// A line for each storage.
pub open spec fn storage_lines(storages: Seq<StorageView>) -> Seq<Seq<char>> {
    storages.map_values(|s: StorageView| host_line(s.host, item_names(s.items)))
}

/// What is reported of the storages that were written.
pub open spec fn storage_detail(storages: Seq<StorageView>) -> Seq<char> {
    if storages.len() == 0 {
        "导入 Local Storage：无"@
    } else {
        "导入 Local Storage："@ + joined(storage_lines(storages), "；"@)
    }
}

/// What is reported of the storages that were written.
pub fn local_storage_summary(storages: &Vec<CdpLocalStorageParam>) -> (r: String)
    ensures
        r@ == storage_detail(storage_views(storages@)),
{
    if storages.len() == 0 {
        return "导入 Local Storage：无".to_string();
    }
    let ghost all = storage_views(storages@);
    let ghost lines = storage_lines(all);
    let mut out: Vec<String> = Vec::new();
    let mut i: usize = 0;
    assert(texts(out@) =~= lines.take(0));
    while i < storages.len()
        invariant
            i <= storages@.len(),
            all == storage_views(storages@),
            lines == storage_lines(all),
            texts(out@) == lines.take(i as int),
        decreases storages@.len() - i,
    {
        assert(all[i as int] == storages@[i as int]@);
        let names: Vec<String> = names_of(&storages[i].items);
        push_text(&mut out, write_host_line(storages[i].host.as_str(), &names));
        assert(lines.take(i as int).push(lines[i as int]) =~= lines.take(i + 1));
        i = i + 1;
    }
    assert(lines.take(i as int) =~= lines);
    "导入 Local Storage：".to_string().concat(join(&out, "；").as_str())
}

/// How much was found and how much was written.
#[derive(Debug, Clone, Copy)]
pub struct CookieCloudSyncResult {
    pub matched_cookies: usize,
    pub imported_cookies: usize,
    pub matched_local_storages: usize,
    pub imported_local_storages: usize,
}

/// What is reported of data that were written.
pub open spec fn sync_text(
    sites: Seq<SiteView>,
    cookies: Seq<CookieView>,
    storages: Seq<StorageView>,
    written_cookies: Seq<CookieView>,
    written_storages: Seq<StorageView>,
) -> Seq<char> {
    let matched = names_by_data(sites, cookies, storages, true);
    let unmatched = names_by_data(sites, cookies, storages, false);
    "CookieCloud 同步完成：匹配 "@ + decimal(matched.len()) + " 个站点，共解析 "@ + decimal(
        cookies.len(),
    ) + " 条 Cookie / "@ + decimal(total_items(storages))
        + " 条 Local Storage，成功写入 "@ + decimal(written_cookies.len())
        + " 条 Cookie / "@ + decimal(total_items(written_storages))
        + " 条 Local Storage；"@ + match_detail(matched, unmatched) + "；"@
        + cookie_detail(written_cookies) + "；"@ + storage_detail(written_storages)
}

/// How much was found and written, and what is reported of it. The sites are matched by
/// what was found; what was written is counted apart.
pub fn sync_report(
    sites: &Vec<Site>,
    cookies: &Vec<CdpCookieParam>,
    storages: &Vec<CdpLocalStorageParam>,
    written_cookies: &Vec<CdpCookieParam>,
    written_storages: &Vec<CdpLocalStorageParam>,
) -> (r: (CookieCloudSyncResult, String))
    requires
        total_items(storage_views(storages@)) <= usize::MAX,
        total_items(storage_views(written_storages@)) <= usize::MAX,
    ensures
        r.0.matched_cookies == cookies@.len(),
        r.0.imported_cookies == written_cookies@.len(),
        r.0.matched_local_storages == total_items(storage_views(storages@)),
        r.0.imported_local_storages == total_items(storage_views(written_storages@)),
        r.1@ == sync_text(
            site_views(sites@),
            cookie_views(cookies@),
            storage_views(storages@),
            cookie_views(written_cookies@),
            storage_views(written_storages@),
        ),
{
    let result: CookieCloudSyncResult = CookieCloudSyncResult {
        matched_cookies: cookies.len(),
        imported_cookies: written_cookies.len(),
        matched_local_storages: local_storage_item_count(storages),
        imported_local_storages: local_storage_item_count(written_storages),
    };
    let matching: CookieSiteMatchSummary = site_match_summary(sites, cookies, storages);
    let (_, detail): (usize, String) = cookie_summary(written_cookies);
    let storage_text: String = local_storage_summary(written_storages);
    let text: String = "CookieCloud 同步完成：匹配 ".to_string().concat(
        decimal_of(matching.matched_count as u64).as_str(),
    ).concat(" 个站点，共解析 ").concat(
        decimal_of(result.matched_cookies as u64).as_str(),
    ).concat(" 条 Cookie / ").concat(
        decimal_of(result.matched_local_storages as u64).as_str(),
    ).concat(" 条 Local Storage，成功写入 ").concat(
        decimal_of(result.imported_cookies as u64).as_str(),
    ).concat(" 条 Cookie / ").concat(
        decimal_of(result.imported_local_storages as u64).as_str(),
    ).concat(" 条 Local Storage；").concat(matching.detail.as_str()).concat("；").concat(
        detail.as_str(),
    ).concat("；").concat(storage_text.as_str());
    (result, text)
}

/// How many pieces of login data were found and written before a keep-alive round.
pub fn sync_counts(
    cookies: &Vec<CdpCookieParam>,
    storages: &Vec<CdpLocalStorageParam>,
    written_cookies: usize,
    written_storages: &Vec<CdpLocalStorageParam>,
) -> (r: (usize, usize))
    requires
        cookies@.len() + total_items(storage_views(storages@)) <= usize::MAX,
        written_cookies + total_items(storage_views(written_storages@)) <= usize::MAX,
    ensures
        r.0 == cookies@.len() + total_items(storage_views(storages@)),
        r.1 == written_cookies + total_items(storage_views(written_storages@)),
{
    (
        cookies.len() + local_storage_item_count(storages),
        written_cookies + local_storage_item_count(written_storages),
    )
}

// ---------------------------------------------------------------- writing

/// Whether a message says that nobody listened at the other end.
pub open spec fn says_refused(message: Seq<char>) -> bool {
    contains_text(message, "10061"@) || contains_text(message, "积极拒绝"@) || contains_text(
        lowered(message),
        "connection refused"@,
    )
}

/// Whether a message says that nobody listened at the other end.
pub fn is_connection_refused(message: &str) -> (r: bool)
    ensures
        r == says_refused(message@),
{
    let chars: Vec<char> = chars_of(message);
    let lower: Vec<char> = to_lower(chars.as_slice());
    contains_str(chars.as_slice(), "10061") || contains_str(chars.as_slice(), "积极拒绝")
        || contains_str(lower.as_slice(), "connection refused")
}

/// How far the writing has come.
#[derive(Debug, Clone, Copy, PartialEq, Eq, Structural)]
pub enum SyncPhase {
    /// A browser is looked for.
    FindingPort,
    /// A browser is started.
    Launching,
    /// The cookies are written.
    WritingCookies,
    /// A browser is started again after the connection was lost.
    Relaunching,
    /// The cookies are written once more.
    RewritingCookies,
    /// The storages are written.
    WritingStorages,
    /// The pages of the sites are loaded anew.
    Reloading,
    Done,
}

/// What is to be done next.
#[derive(Debug)]
pub enum SyncAction {
    FindPort,
    Launch,
    WriteCookies { port: u16 },
    WriteStorages { port: u16 },
    Reload { port: u16 },
    /// The data are written; `close_tabs` asks to close the tabs that were opened for it
    /// after a while.
    Written { port: u16, close_tabs: bool },
    Failed(String),
    /// Go on with the pending action.
    Keep,
}

/// What a `SyncAction` says.
pub enum SyncView {
    FindPort,
    Launch,
    WriteCookies { port: u16 },
    WriteStorages { port: u16 },
    Reload { port: u16 },
    Written { port: u16, close_tabs: bool },
    Failed(Seq<char>),
    Keep,
}

impl View for SyncAction {
    type V = SyncView;

    open spec fn view(&self) -> SyncView {
        match *self {
            SyncAction::FindPort => SyncView::FindPort,
            SyncAction::Launch => SyncView::Launch,
            SyncAction::WriteCookies { port } => SyncView::WriteCookies { port },
            SyncAction::WriteStorages { port } => SyncView::WriteStorages { port },
            SyncAction::Reload { port } => SyncView::Reload { port },
            SyncAction::Written { port, close_tabs } => SyncView::Written { port, close_tabs },
            SyncAction::Failed(t) => SyncView::Failed(t@),
            SyncAction::Keep => SyncView::Keep,
        }
    }
}

/// What came of an action.
#[derive(Debug)]
pub enum SyncEvent {
    Port(Option<u16>),
    /// The port of the started browser and what is reported of it.
    Launched(Result<(u16, String), String>),
    CookiesWritten(Result<(), String>),
    /// How many tabs were opened for the storages.
    StoragesWritten(Result<usize, String>),
    Reloaded,
}

/// What a `SyncEvent` says.
pub enum SyncEventView {
    Port(Option<u16>),
    Launched(Result<(u16, Seq<char>), Seq<char>>),
    CookiesWritten(Result<(), Seq<char>>),
    StoragesWritten(Result<usize, Seq<char>>),
    Reloaded,
}

impl View for SyncEvent {
    type V = SyncEventView;

    open spec fn view(&self) -> SyncEventView {
        match *self {
            SyncEvent::Port(p) => SyncEventView::Port(p),
            SyncEvent::Launched(r) => SyncEventView::Launched(
                match r {
                    Ok(x) => Ok((x.0, x.1@)),
                    Err(e) => Err(e@),
                },
            ),
            SyncEvent::CookiesWritten(r) => SyncEventView::CookiesWritten(
                match r {
                    Ok(_) => Ok(()),
                    Err(e) => Err(e@),
                },
            ),
            SyncEvent::StoragesWritten(r) => SyncEventView::StoragesWritten(
                match r {
                    Ok(n) => Ok(n),
                    Err(e) => Err(e@),
                },
            ),
            SyncEvent::Reloaded => SyncEventView::Reloaded,
        }
    }
}

/// The writing of fetched data.
#[derive(Debug, Clone, Copy, PartialEq, Eq, Structural)]
pub struct SyncRun {
    /// Whether tabs that were opened for it are closed afterwards.
    pub auto_close: bool,
    /// Whether it is part of a keep-alive round, which reports failures itself and does not
    /// mend a lost connection.
    pub in_round: bool,
    pub port: u16,
    /// How many tabs were opened for it.
    pub opened: usize,
    pub phase: SyncPhase,
}

/// What to tell the user and what to do next.
#[derive(Debug)]
pub struct SyncTurn {
    pub notes: Vec<(LogLevel, String)>,
    pub action: SyncAction,
}

/// A state with what to tell and to do in it.
pub struct SyncStep {
    pub state: SyncRun,
    pub notes: Seq<(LogLevel, Seq<char>)>,
    pub action: SyncView,
}

/// What a state and a turn amount to.
pub open spec fn sync_step(state: SyncRun, turn: SyncTurn) -> SyncStep {
    SyncStep { state, notes: note_views(turn.notes@), action: turn.action@ }
}

/// What is reported where there is nothing to write.
pub open spec fn nothing_found() -> Seq<char> {
    "CookieCloud 未解析到可同步的 Cookie 或 Local Storage"@
}

impl SyncRun {
    pub open spec fn step(
        self,
        phase: SyncPhase,
        notes: Seq<(LogLevel, Seq<char>)>,
        action: SyncView,
    ) -> SyncStep {
        SyncStep { state: SyncRun { phase, ..self }, notes, action }
    }

    pub open spec fn fail(self, message: Seq<char>) -> SyncStep {
        self.step(SyncPhase::Done, Seq::empty(), SyncView::Failed(message))
    }

    /// How a failure is reported.
    pub open spec fn failure(self, prefix: Seq<char>, message: Seq<char>) -> Seq<char> {
        if self.in_round {
            message
        } else {
            prefix + message
        }
    }

    /// The first step; without data there is none.
    pub open spec fn begun(self, has_data: bool) -> SyncStep {
        if has_data {
            self.step(SyncPhase::FindingPort, Seq::empty(), SyncView::FindPort)
        } else {
            self.step(
                SyncPhase::Done,
                if self.in_round {
                    Seq::empty()
                } else {
                    seq![(LogLevel::Error, nothing_found())]
                },
                SyncView::Failed(nothing_found()),
            )
        }
    }

    pub open spec fn write_cookies(
        self,
        port: u16,
        notes: Seq<(LogLevel, Seq<char>)>,
    ) -> SyncStep {
        SyncRun { port, ..self }.step(
            SyncPhase::WritingCookies,
            notes,
            SyncView::WriteCookies { port },
        )
    }

    pub open spec fn write_storages(self) -> SyncStep {
        self.step(
            SyncPhase::WritingStorages,
            Seq::empty(),
            SyncView::WriteStorages { port: self.port },
        )
    }

    /// What follows an event: where the connection is lost while the cookies are written,
    /// the browser is made ready once more. An event that the pending action cannot cause
    /// changes nothing.
    pub open spec fn next(self, event: SyncEventView) -> SyncStep {
        match (self.phase, event) {
            (SyncPhase::FindingPort, SyncEventView::Port(found)) => match found {
                Some(port) => self.write_cookies(port, Seq::empty()),
                None => self.step(SyncPhase::Launching, Seq::empty(), SyncView::Launch),
            },
            (SyncPhase::Launching, SyncEventView::Launched(r)) => match r {
                Ok((port, message)) => self.write_cookies(
                    port,
                    if self.in_round {
                        Seq::empty()
                    } else {
                        seq![(LogLevel::Info, message)]
                    },
                ),
                Err(e) => self.fail(e),
            },
            (SyncPhase::WritingCookies, SyncEventView::CookiesWritten(r)) => match r {
                Ok(_) => self.write_storages(),
                Err(e) => if !self.in_round && says_refused(e) {
                    self.step(
                        SyncPhase::Relaunching,
                        seq![
                            (
                                LogLevel::Info,
                                "Cookie 已拉取，但 Chrome CDP 连接失效，正在重新准备后重试"@,
                            ),
                        ],
                        SyncView::Launch,
                    )
                } else {
                    self.fail(self.failure("Cookie 已拉取，但写入 Chrome 失败："@, e))
                },
            },
            (SyncPhase::Relaunching, SyncEventView::Launched(r)) => match r {
                Ok((port, _)) => SyncRun { port, ..self }.step(
                    SyncPhase::RewritingCookies,
                    Seq::empty(),
                    SyncView::WriteCookies { port },
                ),
                Err(e) => self.fail(e),
            },
            (SyncPhase::RewritingCookies, SyncEventView::CookiesWritten(r)) => match r {
                Ok(_) => self.write_storages(),
                Err(e) => self.fail(
                    self.failure("Cookie 已拉取，但写入 Chrome 失败："@, e),
                ),
            },
            (SyncPhase::WritingStorages, SyncEventView::StoragesWritten(r)) => match r {
                Ok(opened) => SyncRun { opened, ..self }.step(
                    SyncPhase::Reloading,
                    Seq::empty(),
                    SyncView::Reload { port: self.port },
                ),
                Err(e) => self.fail(
                    self.failure("Local Storage 已拉取，但写入 Chrome 失败："@, e),
                ),
            },
            (SyncPhase::Reloading, SyncEventView::Reloaded) => self.step(
                SyncPhase::Done,
                Seq::empty(),
                SyncView::Written {
                    port: self.port,
                    close_tabs: self.auto_close && self.opened > 0,
                },
            ),
            _ => SyncStep { state: self, notes: Seq::empty(), action: SyncView::Keep },
        }
    }

    /// Whether `event` is of the kind that the pending action causes.
    pub open spec fn awaits(self, event: SyncEventView) -> bool {
        match self.phase {
            SyncPhase::FindingPort => event is Port,
            SyncPhase::Launching | SyncPhase::Relaunching => event is Launched,
            SyncPhase::WritingCookies | SyncPhase::RewritingCookies => event is CookiesWritten,
            SyncPhase::WritingStorages => event is StoragesWritten,
            SyncPhase::Reloading => event is Reloaded,
            SyncPhase::Done => false,
        }
    }

    /// An upper bound on the number of actions that are left.
    pub open spec fn steps_left(self) -> int {
        match self.phase {
            SyncPhase::FindingPort => 7,
            SyncPhase::Launching => 6,
            SyncPhase::WritingCookies => 5,
            SyncPhase::Relaunching => 4,
            SyncPhase::RewritingCookies => 3,
            SyncPhase::WritingStorages => 2,
            SyncPhase::Reloading => 1,
            SyncPhase::Done => 0,
        }
    }

    fn go(&mut self, phase: SyncPhase, notes: Vec<(LogLevel, String)>, action: SyncAction) -> (r:
        SyncTurn)
        ensures
            sync_step(*final(self), r) == old(self).step(phase, note_views(notes@), action@),
    {
        self.phase = phase;
        SyncTurn { notes, action }
    }

    fn fail_with(&mut self, message: String) -> (r: SyncTurn)
        ensures
            sync_step(*final(self), r) == old(self).fail(message@),
    {
        self.go(SyncPhase::Done, no_notes(), SyncAction::Failed(message))
    }

    fn fail_at(&mut self, prefix: &str, message: String) -> (r: SyncTurn)
        ensures
            sync_step(*final(self), r) == old(self).fail(old(self).failure(prefix@, message@)),
    {
        let text: String = if self.in_round {
            message
        } else {
            prefix.to_string().concat(message.as_str())
        };
        self.fail_with(text)
    }

    /// The writing of data and what to do first; `has_data` tells whether there is
    /// anything to write.
    pub fn begin(has_data: bool, auto_close: bool, in_round: bool) -> (r: (SyncRun, SyncTurn))
        ensures
            sync_step(r.0, r.1) == (SyncRun {
                auto_close,
                in_round,
                port: 0,
                opened: 0,
                phase: SyncPhase::FindingPort,
            }).begun(has_data),
    {
        let mut s: SyncRun = SyncRun {
            auto_close,
            in_round,
            port: 0,
            opened: 0,
            phase: SyncPhase::FindingPort,
        };
        let turn: SyncTurn = if has_data {
            s.go(SyncPhase::FindingPort, no_notes(), SyncAction::FindPort)
        } else {
            let message: &str = "CookieCloud 未解析到可同步的 Cookie 或 Local Storage";
            let notes: Vec<(LogLevel, String)> = if in_round {
                no_notes()
            } else {
                one_note(LogLevel::Error, message.to_string())
            };
            s.go(SyncPhase::Done, notes, SyncAction::Failed(message.to_string()))
        };
        (s, turn)
    }

    fn to_cookies(&mut self, port: u16, notes: Vec<(LogLevel, String)>) -> (r: SyncTurn)
        ensures
            sync_step(*final(self), r) == old(self).write_cookies(port, note_views(notes@)),
    {
        self.port = port;
        self.go(SyncPhase::WritingCookies, notes, SyncAction::WriteCookies { port })
    }

    fn to_storages(&mut self) -> (r: SyncTurn)
        ensures
            sync_step(*final(self), r) == old(self).write_storages(),
    {
        let port: u16 = self.port;
        self.go(SyncPhase::WritingStorages, no_notes(), SyncAction::WriteStorages { port })
    }

    /// Takes in what came of the pending action and tells what to do next.
    pub fn advance(&mut self, event: SyncEvent) -> (r: SyncTurn)
        ensures
            sync_step(*final(self), r) == old(self).next(event@),
    {
        match (self.phase, event) {
            (SyncPhase::FindingPort, SyncEvent::Port(found)) => match found {
                Some(port) => self.to_cookies(port, no_notes()),
                None => self.go(SyncPhase::Launching, no_notes(), SyncAction::Launch),
            },
            (SyncPhase::Launching, SyncEvent::Launched(r)) => match r {
                Ok((port, message)) => {
                    let notes: Vec<(LogLevel, String)> = if self.in_round {
                        no_notes()
                    } else {
                        one_note(LogLevel::Info, message)
                    };
                    self.to_cookies(port, notes)
                },
                Err(e) => self.fail_with(e),
            },
            (SyncPhase::WritingCookies, SyncEvent::CookiesWritten(r)) => match r {
                Ok(_) => self.to_storages(),
                Err(e) => if !self.in_round && is_connection_refused(e.as_str()) {
                    self.go(
                        SyncPhase::Relaunching,
                        one_note(
                            LogLevel::Info,
                            "Cookie 已拉取，但 Chrome CDP 连接失效，正在重新准备后重试".to_string(),
                        ),
                        SyncAction::Launch,
                    )
                } else {
                    self.fail_at("Cookie 已拉取，但写入 Chrome 失败：", e)
                },
            },
            (SyncPhase::Relaunching, SyncEvent::Launched(r)) => match r {
                Ok((port, _)) => {
                    self.port = port;
                    self.go(
                        SyncPhase::RewritingCookies,
                        no_notes(),
                        SyncAction::WriteCookies { port },
                    )
                },
                Err(e) => self.fail_with(e),
            },
            (SyncPhase::RewritingCookies, SyncEvent::CookiesWritten(r)) => match r {
                Ok(_) => self.to_storages(),
                Err(e) => self.fail_at("Cookie 已拉取，但写入 Chrome 失败：", e),
            },
            (SyncPhase::WritingStorages, SyncEvent::StoragesWritten(r)) => match r {
                Ok(opened) => {
                    self.opened = opened;
                    let port: u16 = self.port;
                    self.go(SyncPhase::Reloading, no_notes(), SyncAction::Reload { port })
                },
                Err(e) => self.fail_at("Local Storage 已拉取，但写入 Chrome 失败：", e),
            },
            (SyncPhase::Reloading, SyncEvent::Reloaded) => {
                let port: u16 = self.port;
                let close_tabs: bool = self.auto_close && self.opened > 0;
                self.go(SyncPhase::Done, no_notes(), SyncAction::Written { port, close_tabs })
            },
            _ => SyncTurn { notes: no_notes(), action: SyncAction::Keep },
        }
    }
}

/// Every answered action brings the writing closer to its end.
pub proof fn sync_ends(s: SyncRun, event: SyncEventView)
    requires
        s.awaits(event),
    ensures
        0 <= s.next(event).state.steps_left() < s.steps_left(),
{
}

/// A lost connection is mended once: after the second try a failure is final.
pub proof fn connection_is_mended_once(s: SyncRun, event: SyncEventView)
    requires
        s.phase == SyncPhase::RewritingCookies || s.phase == SyncPhase::WritingStorages,
    ensures
        !(s.next(event).action is Launch),
{
}

/// The pages are loaded anew before the writing counts as done, so that the data take
/// effect at once.
pub proof fn pages_are_reloaded(s: SyncRun, event: SyncEventView)
    requires
        s.next(event).action is Written,
    ensures
        s.phase == SyncPhase::Reloading,
        event == SyncEventView::Reloaded,
{
}

/// What is reported of the tabs that were closed after the writing.
pub fn closed_tabs_text(closed: usize) -> (r: Option<String>)
    ensures
        opt_text(r) == if closed > 0 {
            Some("Cookie 同步自动打开的 "@ + decimal(closed as nat) + " 个标签页已关闭"@)
        } else {
            None
        },
{
    if closed > 0 {
        Some(
            "Cookie 同步自动打开的 ".to_string().concat(
                decimal_of(closed as u64).as_str(),
            ).concat(" 个标签页已关闭"),
        )
    } else {
        None
    }
}

/// The sites that are told of as matched, or as not, are those with data, or without; each
/// of them is told of.
pub proof fn sites_are_told_by_their_data(
    sites: Seq<SiteView>,
    cookies: Seq<CookieView>,
    storages: Seq<StorageView>,
    found: bool,
)
    ensures
        forall|i: int|
            0 <= i < sites.len() && has_data(#[trigger] sites[i], cookies, storages) == found
                ==> names_by_data(sites, cookies, storages, found).contains(sites[i].name),
        forall|name: Seq<char>| #[trigger]
            names_by_data(sites, cookies, storages, found).contains(name) ==> exists|i: int|
                0 <= i < sites.len() && (#[trigger] sites[i]).name == name && has_data(
                    sites[i],
                    cookies,
                    storages,
                ) == found,
    decreases sites.len(),
{
    if sites.len() > 0 {
        let head = sites.drop_last();
        let all = names_by_data(sites, cookies, storages, found);
        let rest = names_by_data(head, cookies, storages, found);
        sites_are_told_by_their_data(head, cookies, storages, found);
        assert forall|i: int|
            0 <= i < sites.len() && has_data(#[trigger] sites[i], cookies, storages)
                == found implies all.contains(sites[i].name) by {
            if i < head.len() {
                assert(head[i] == sites[i]);
                assert(rest.contains(sites[i].name));
                let k = choose|k: int| 0 <= k < rest.len() && rest[k] == sites[i].name;
                assert(all[k] == sites[i].name);
            } else {
                assert(all[all.len() - 1] == sites[i].name);
            }
        }
        assert forall|name: Seq<char>| #[trigger] all.contains(name) implies exists|i: int|
            0 <= i < sites.len() && (#[trigger] sites[i]).name == name && has_data(
                sites[i],
                cookies,
                storages,
            ) == found by {
            let k = choose|k: int| 0 <= k < all.len() && all[k] == name;
            if k < rest.len() {
                assert(rest.contains(rest[k]));
                let i = choose|i: int|
                    0 <= i < head.len() && (#[trigger] head[i]).name == name && has_data(
                        head[i],
                        cookies,
                        storages,
                    ) == found;
                assert(sites[i] == head[i]);
            } else {
                assert(sites[sites.len() - 1].name == name);
            }
        }
    }
}

/// A site has data exactly where one of the cookies alone or one of the storages alone is
/// data for it: a cookie by its domain, or its address where it names none, and a storage by
/// its host.
pub proof fn data_of_a_site_are_of_its_host(
    s: SiteView,
    cookies: Seq<CookieView>,
    storages: Seq<StorageView>,
)
    requires
        site_host(s.url) is Some,
    ensures
        has_data(s, cookies, storages) <==> (exists|i: int|
            0 <= i < cookies.len() && has_data(s, seq![#[trigger] cookies[i]], Seq::empty()))
            || (exists|i: int|
            0 <= i < storages.len() && has_data(s, Seq::empty(), seq![#[trigger] storages[i]])),
        forall|c: CookieView| #[trigger]
            has_data(s, seq![c], Seq::empty()) <==> ({
                let place = plain_host(
                    if c.domain is Some {
                        c.domain->0
                    } else {
                        c.url
                    },
                );
                place.len() > 0 && same_host(site_host(s.url)->0, place)
            }),
        forall|t: StorageView| #[trigger]
            has_data(s, Seq::empty(), seq![t]) <==> same_host(site_host(s.url)->0, t.host),
        !has_data(s, Seq::empty(), Seq::empty()),
{
    let host = site_host(s.url)->0;
    assert forall|c: CookieView| #[trigger]
        has_data(s, seq![c], Seq::empty()) <==> cookie_is_for(c, host) by {
        let one = seq![c];
        assert(one[0] == c);
    }
    assert forall|t: StorageView| #[trigger]
        has_data(s, Seq::empty(), seq![t]) <==> same_host(host, t.host) by {
        let one = seq![t];
        assert(one[0] == t);
    }
    if exists|i: int| 0 <= i < cookies.len() && cookie_is_for(#[trigger] cookies[i], host) {
        let i = choose|i: int| 0 <= i < cookies.len() && cookie_is_for(#[trigger] cookies[i], host);
        assert(has_data(s, seq![cookies[i]], Seq::empty()));
    }
    if exists|i: int| 0 <= i < storages.len() && same_host(host, (#[trigger] storages[i]).host) {
        let i = choose|i: int|
            0 <= i < storages.len() && same_host(host, (#[trigger] storages[i]).host);
        assert(has_data(s, Seq::empty(), seq![storages[i]]));
    }
}

proof fn lemma_listed(cookies: Seq<CookieView>, i: int)
    requires
        0 <= i < cookies.len(),
        listed_under(cookies[i]).len() > 0,
    ensures
        listed_hosts(cookies).contains(listed_under(cookies[i])),
        names_under(cookies, listed_under(cookies[i])).contains(cookies[i].name),
    decreases cookies.len(),
{
    let host = listed_under(cookies[i]);
    let all = listed_hosts(cookies);
    let names = names_under(cookies, host);
    if i == cookies.len() - 1 {
        assert(all[all.len() - 1] == host);
        assert(names[names.len() - 1] == cookies[i].name);
    } else {
        let head = cookies.drop_last();
        lemma_listed(head, i);
        let rest = listed_hosts(head);
        let k = choose|k: int| 0 <= k < rest.len() && rest[k] == host;
        assert(all[k] == host);
        let some = names_under(head, host);
        let m = choose|m: int| 0 <= m < some.len() && some[m] == cookies[i].name;
        assert(names[m] == cookies[i].name);
    }
}

/// Every cookie that was written is told of by its name in the line of its host, and each
/// line stands in the summary.
pub proof fn every_written_cookie_is_told(cookies: Seq<CookieView>, i: int)
    requires
        0 <= i < cookies.len(),
        listed_under(cookies[i]).len() > 0,
    ensures
        exists|k: int|
            0 <= k < cookie_lines(cookies).len() && has_prefix(
                #[trigger] cookie_lines(cookies)[k],
                listed_under(cookies[i]) + "："@,
            ) && contains_text(cookie_lines(cookies)[k], cookies[i].name) && contains_text(
                cookie_detail(cookies),
                cookie_lines(cookies)[k],
            ),
{
    let host = listed_under(cookies[i]);
    let name = cookies[i].name;
    let hosts = sorted_distinct(listed_hosts(cookies));
    let names = sorted_distinct(names_under(cookies, host));
    let lines = cookie_lines(cookies);
    lemma_listed(cookies, i);
    sorted_distinct_is_sorted_set(listed_hosts(cookies));
    sorted_distinct_is_sorted_set(names_under(cookies, host));
    assert(hosts.contains(host));
    let k = choose|k: int| 0 <= k < hosts.len() && hosts[k] == host;
    let line = host_line(host, names_under(cookies, host));
    assert(lines[k] == line);
    assert(names.contains(name));
    let m = choose|m: int| 0 <= m < names.len() && names[m] == name;
    joined_text_holds_its_parts(names, ", "@, m);
    let list = joined(names, ", "@);
    assert(host + "："@ + list + Seq::empty() =~= line);
    sum_contains_its_middle(host + "："@, list, Seq::empty());
    containing_is_transitive(line, list, name);
    assert(line.take((host + "："@).len() as int) =~= host + "："@);
    joined_text_holds_its_parts(lines, "；"@, k);
    let details = joined(lines, "；"@);
    assert(line.len() > 0);
    assert(details.len() >= line.len()) by {
        let at = choose|at: int| crate::text::occurs_at(details, line, at);
    }
    assert("导入 Cookie："@ + details + Seq::empty() =~= cookie_detail(cookies));
    sum_contains_its_middle("导入 Cookie："@, details, Seq::empty());
    containing_is_transitive(cookie_detail(cookies), details, line);
}

/// The items of storages are counted one by one.
pub proof fn items_are_counted(a: Seq<StorageView>, b: Seq<StorageView>, s: StorageView)
    ensures
        total_items(a + b) == total_items(a) + total_items(b),
        total_items(seq![s]) == s.items.len(),
    decreases b.len(),
{
    let one = seq![s];
    assert(one.drop_last() =~= Seq::<StorageView>::empty());
    assert(total_items(one.drop_last()) == 0);
    if b.len() == 0 {
        assert(a + b =~= a);
    } else {
        items_are_counted(a, b.drop_last(), s);
        assert((a + b).drop_last() =~= a + b.drop_last());
    }
}

/// A synchronisation goes its way: a browser is used where one answers and else started, the
/// cookies are written and then the storages, and the pages are loaded anew; outside of a
/// round a lost connection is mended by a new browser.
pub proof fn sync_goes_its_way(s: SyncRun, event: SyncEventView)
    requires
        s.awaits(event),
    ensures
        ({
            let after = s.next(event);
            let lost = s.phase == SyncPhase::WritingCookies && !s.in_round && (
            event matches SyncEventView::CookiesWritten(r) && (r matches Err(e) && says_refused(
                e,
            )));
            &&& after.action is Launch <==> event == SyncEventView::Port(None) || lost
            &&& after.action is WriteCookies <==> (event matches SyncEventView::Port(p)
                && p is Some) || (event matches SyncEventView::Launched(r) && r is Ok)
            &&& after.action is WriteStorages <==> (event matches SyncEventView::CookiesWritten(r)
                && r is Ok)
            &&& after.action is Reload <==> (event matches SyncEventView::StoragesWritten(r)
                && r is Ok)
            &&& after.action is Written <==> event == SyncEventView::Reloaded
            &&& after.action is Failed <==> (event matches SyncEventView::Launched(r) && r is Err)
                || (event matches SyncEventView::StoragesWritten(r) && r is Err) || (
            event matches SyncEventView::CookiesWritten(r) && r is Err) && !lost
            &&& !(after.action is FindPort) && !(after.action is Keep)
            &&& after.action is Written || after.action is Failed <==> after.state.phase
                == SyncPhase::Done
        }),
{
}

/// The data are written through the port that was found or that the browser was started
/// with, all of them; the tabs are closed exactly where that is asked for and some were
/// opened.
pub proof fn sync_keeps_to_its_browser(s: SyncRun, event: SyncEventView)
    requires
        s.awaits(event),
    ensures
        ({
            let after = s.next(event);
            &&& after.state.port == (match event {
                SyncEventView::Port(Some(port)) => port,
                SyncEventView::Launched(Ok(x)) => x.0,
                _ => s.port,
            })
            &&& after.action matches SyncView::WriteCookies { port } ==> port == after.state.port
            &&& after.action matches SyncView::WriteStorages { port } ==> port == after.state.port
            &&& after.action matches SyncView::Reload { port } ==> port == after.state.port
            &&& after.action matches SyncView::Written { port, close_tabs } ==> port
                == after.state.port && (close_tabs <==> s.auto_close && s.opened > 0)
            &&& after.state.opened == (match event {
                SyncEventView::StoragesWritten(Ok(n)) => n,
                _ => s.opened,
            })
            &&& after.state.auto_close == s.auto_close && after.state.in_round == s.in_round
        }),
{
}

/// A failure is told as it came within a round, and with what was under way outside of one.
pub proof fn sync_tells_what_failed(s: SyncRun, event: SyncEventView, e: Seq<char>)
    requires
        s.awaits(event),
        s.next(event).action is Failed,
        event == SyncEventView::Launched(Err(e)) || event == SyncEventView::CookiesWritten(Err(e))
            || event == SyncEventView::StoragesWritten(Err(e)),
    ensures
        s.in_round || event is Launched ==> s.next(event).action == SyncView::Failed(e),
        !s.in_round && event is CookiesWritten ==> s.next(event).action == SyncView::Failed(
            "Cookie 已拉取，但写入 Chrome 失败："@ + e,
        ),
        !s.in_round && event is StoragesWritten ==> s.next(event).action == SyncView::Failed(
            "Local Storage 已拉取，但写入 Chrome 失败："@ + e,
        ),
{
}

/// A synchronisation begins exactly where there are data.
pub proof fn sync_begins_with_data(s: SyncRun, data: bool)
    ensures
        s.begun(data).action is FindPort <==> data,
        s.begun(data).action is Failed <==> !data,
        s.begun(data).notes.len() == (if data || s.in_round {
            0int
        } else {
            1
        }),
{
}

/// The sites are told of under what holds of them: those with data as matched, before those
/// without as not matched.
pub proof fn matched_sites_are_told_as_such(matched: Seq<Seq<char>>, unmatched: Seq<Seq<char>>)
    ensures
        matched.len() > 0 ==> has_prefix(
            match_detail(matched, unmatched),
            "匹配站点："@ + joined(matched, ", "@),
        ),
        unmatched.len() > 0 ==> has_suffix(
            match_detail(matched, unmatched),
            "未匹配站点："@ + joined(unmatched, ", "@),
        ),
        matched.len() == 0 && unmatched.len() == 0 ==> match_detail(matched, unmatched).len() == 0,
{
    let a = named_part("匹配站点："@, matched);
    let b = named_part("未匹配站点："@, unmatched);
    let parts = a + b;
    let text = match_detail(matched, unmatched);
    reveal_with_fuel(joined, 3);
    if matched.len() > 0 {
        let first = "匹配站点："@ + joined(matched, ", "@);
        if unmatched.len() > 0 {
            let second = "未匹配站点："@ + joined(unmatched, ", "@);
            assert(parts =~= seq![first, second]);
            assert(parts.drop_last() =~= seq![first]);
            assert(seq![first].drop_last() =~= Seq::<Seq<char>>::empty());
            assert(text =~= first + "；"@ + second);
            sum_contains_its_parts(first, "；"@, second);
        } else {
            assert(parts =~= seq![first]);
            assert(seq![first].drop_last() =~= Seq::<Seq<char>>::empty());
            assert(text =~= first);
            assert(first.take(first.len() as int) =~= first);
        }
    } else if unmatched.len() > 0 {
        let second = "未匹配站点："@ + joined(unmatched, ", "@);
        assert(parts =~= seq![second]);
        assert(seq![second].drop_last() =~= Seq::<Seq<char>>::empty());
        assert(text =~= second);
        assert(second.skip(0) =~= second);
    } else {
        assert(parts =~= Seq::<Seq<char>>::empty());
    }
}

/// Every item that was written to a storage is told of by its name in the line of its host.
pub proof fn every_written_item_is_told(storages: Seq<StorageView>, i: int, k: int)
    requires
        0 <= i < storages.len(),
        0 <= k < storages[i].items.len(),
    ensures
        has_prefix(storage_lines(storages)[i], storages[i].host + "："@),
        contains_text(storage_lines(storages)[i], storages[i].items[k].name),
        contains_text(storage_detail(storages), storage_lines(storages)[i]),
{
    let host = storages[i].host;
    let name = storages[i].items[k].name;
    let all = item_names(storages[i].items);
    let names = sorted_distinct(all);
    let lines = storage_lines(storages);
    let line = host_line(host, all);
    assert(lines[i] == line);
    assert(all[k] == name);
    assert(all.contains(name));
    sorted_distinct_is_sorted_set(all);
    assert(names.contains(name));
    let m = choose|m: int| 0 <= m < names.len() && names[m] == name;
    joined_text_holds_its_parts(names, ", "@, m);
    let list = joined(names, ", "@);
    sum_contains_its_parts(host + "："@, list, Seq::empty());
    assert(host + "："@ + list + Seq::<char>::empty() =~= line);
    containing_is_transitive(line, list, name);
    joined_text_holds_its_parts(lines, "；"@, i);
    let details = joined(lines, "；"@);
    sum_contains_its_parts("导入 Local Storage："@, details, Seq::empty());
    assert("导入 Local Storage："@ + details + Seq::<char>::empty() =~= storage_detail(storages));
    containing_is_transitive(storage_detail(storages), details, line);
}

/// The report of a synchronisation tells how many cookies and items were found, and then how
/// many of them were written.
pub proof fn sync_report_tells_found_and_written(
    sites: Seq<SiteView>,
    cookies: Seq<CookieView>,
    storages: Seq<StorageView>,
    written_cookies: Seq<CookieView>,
    written_storages: Seq<StorageView>,
)
    ensures
        ({
            let text = sync_text(sites, cookies, storages, written_cookies, written_storages);
            &&& contains_text(
                text,
                "共解析 "@ + decimal(cookies.len()) + " 条 Cookie / "@ + decimal(
                    total_items(storages),
                ) + " 条 Local Storage"@,
            )
            &&& contains_text(
                text,
                "成功写入 "@ + decimal(written_cookies.len()) + " 条 Cookie / "@ + decimal(
                    total_items(written_storages),
                ) + " 条 Local Storage"@,
            )
        }),
{
    let matched = names_by_data(sites, cookies, storages, true);
    let unmatched = names_by_data(sites, cookies, storages, false);
    let text = sync_text(sites, cookies, storages, written_cookies, written_storages);
    reveal_strlit(" 个站点，共解析 ");
    reveal_strlit(" 个站点，");
    reveal_strlit("共解析 ");
    reveal_strlit(" 条 Local Storage，成功写入 ");
    reveal_strlit(" 条 Local Storage；");
    reveal_strlit(" 条 Local Storage");
    reveal_strlit("，");
    reveal_strlit("；");
    reveal_strlit("成功写入 ");
    assert(" 个站点，共解析 "@ =~= " 个站点，"@ + "共解析 "@);
    assert(" 条 Local Storage，成功写入 "@ =~= " 条 Local Storage"@ + "，"@ + "成功写入 "@);
    assert(" 条 Local Storage；"@ =~= " 条 Local Storage"@ + "；"@);
    let head = "CookieCloud 同步完成：匹配 "@ + decimal(matched.len()) + " 个站点，"@;
    let found = "共解析 "@ + decimal(cookies.len()) + " 条 Cookie / "@ + decimal(
        total_items(storages),
    ) + " 条 Local Storage"@;
    let done = "成功写入 "@ + decimal(written_cookies.len()) + " 条 Cookie / "@ + decimal(
        total_items(written_storages),
    ) + " 条 Local Storage"@;
    let rest = "；"@ + match_detail(matched, unmatched) + "；"@ + cookie_detail(written_cookies)
        + "；"@ + storage_detail(written_storages);
    lemma_sync_text(
        "CookieCloud 同步完成：匹配 "@ + decimal(matched.len()),
        decimal(cookies.len()),
        decimal(total_items(storages)),
        decimal(written_cookies.len()),
        decimal(total_items(written_storages)),
        match_detail(matched, unmatched),
        cookie_detail(written_cookies),
        storage_detail(written_storages),
    );
    assert(text == head + found + "，"@ + done + rest);
    sum_contains_its_parts(head, found, "，"@ + done + rest);
    assert(text =~= head + found + ("，"@ + done + rest));
    sum_contains_its_parts(head + found + "，"@, done, rest);
}

proof fn lemma_sync_text(
    a: Seq<char>,
    b: Seq<char>,
    c: Seq<char>,
    d: Seq<char>,
    e: Seq<char>,
    x: Seq<char>,
    y: Seq<char>,
    z: Seq<char>,
)
    requires
        " 个站点，共解析 "@ == " 个站点，"@ + "共解析 "@,
        " 条 Local Storage，成功写入 "@ == " 条 Local Storage"@ + "，"@ + "成功写入 "@,
        " 条 Local Storage；"@ == " 条 Local Storage"@ + "；"@,
    ensures
        a + " 个站点，共解析 "@ + b + " 条 Cookie / "@ + c + " 条 Local Storage，成功写入 "@ + d
            + " 条 Cookie / "@ + e + " 条 Local Storage；"@ + x + "；"@ + y + "；"@ + z == a
            + " 个站点，"@ + ("共解析 "@ + b + " 条 Cookie / "@ + c + " 条 Local Storage"@) + "，"@
            + ("成功写入 "@ + d + " 条 Cookie / "@ + e + " 条 Local Storage"@) + ("；"@ + x + "；"@
            + y + "；"@ + z),
{
    assert(a + " 个站点，共解析 "@ + b + " 条 Cookie / "@ + c + " 条 Local Storage，成功写入 "@ + d
        + " 条 Cookie / "@ + e + " 条 Local Storage；"@ + x + "；"@ + y + "；"@ + z =~= a
        + " 个站点，"@ + ("共解析 "@ + b + " 条 Cookie / "@ + c + " 条 Local Storage"@) + "，"@ + (
    "成功写入 "@ + d + " 条 Cookie / "@ + e + " 条 Local Storage"@) + ("；"@ + x + "；"@ + y + "；"@
        + z));
}

} // verus!
