//! Changes of the settings: saving them, and adding, importing, changing and removing
//! sites.

use crate::json::{copy_value, find_value, parse_value, parsed_json, JsonView};
use crate::list::{holds, push_text};
use crate::scheduler::is_blank;
use crate::store::{
    clamped, normalize_log_retention, retention_of, site_views, AppConfig, GotifyConfig, Site,
    SiteView,
};
use crate::text::{
    chars_of, cut_text, eq_ignoring_case, has_prefix, has_suffix, lowered, remove_char,
    split_once_str, starts_with_str, str_eq, string_of, taking_out_a_character, texts, trim,
    trim_end_char, trim_end_of, trimmed, without_char,
};
use vstd::prelude::*;

verus! {

// ---------------------------------------------------------------- saving

/// The shortest time for which a page stays open.
pub const MIN_VISIT_SECONDS: u64 = 5;

/// A server address without white space around it and without slashes at its end.
pub open spec fn clean_address(url: Seq<char>) -> Seq<char> {
    trim_end_of(trimmed(url), '/')
}

/// A server address without white space around it and without slashes at its end.
pub fn cleaned_address(url: &str) -> (r: String)
    ensures
        r@ == clean_address(url@),
{
    let chars: Vec<char> = chars_of(url);
    string_of(trim_end_char(trim(chars.as_slice()), '/'))
}

fn clamp_u8(value: u8, low: u8, high: u8) -> (r: u8)
    requires
        low <= high,
    ensures
        r == clamped(value as int, low as int, high as int),
{
    if value < low {
        low
    } else if value > high {
        high
    } else {
        value
    }
}

/// What settings become when they are saved: texts are cleaned, numbers brought within
/// their limits, and everything else stays.
pub open spec fn is_cleaned(before: AppConfig, after: AppConfig) -> bool {
    &&& after == (AppConfig {
        visit_duration: if before.visit_duration < MIN_VISIT_SECONDS {
            MIN_VISIT_SECONDS
        } else {
            before.visit_duration
        },
        log_retention: retention_of(before.log_retention),
        ocr_server_url: after.ocr_server_url,
        ocr_retry_count: clamped(before.ocr_retry_count as int, 1, 5) as u8,
        min_login_attempts_remaining: clamped(
            before.min_login_attempts_remaining as int,
            1,
            20,
        ) as u8,
        gotify: GotifyConfig {
            server_url: after.gotify.server_url,
            token: after.gotify.token,
            ..before.gotify
        },
        ..before
    })
    &&& after.ocr_server_url@ == clean_address(before.ocr_server_url@)
    &&& after.gotify.server_url@ == clean_address(before.gotify.server_url@)
    &&& after.gotify.token@ == trimmed(before.gotify.token@)
}

/// Notifications are to be sent, but not where to.
pub open spec fn lacks_gotify(c: AppConfig) -> bool {
    c.gotify.enabled && (clean_address(c.gotify.server_url@).len() == 0 || trimmed(
        c.gotify.token@,
    ).len() == 0)
}

/// Cookies are to be fetched, but not from where.
pub open spec fn lacks_cookiecloud(c: AppConfig) -> bool {
    (c.auto_sync_cookie || c.auto_sync_cookie_after_keepalive) && (trimmed(
        c.cookiecloud.server_url@,
    ).len() == 0 || trimmed(c.cookiecloud.uuid@).len() == 0 || c.cookiecloud.password@.len() == 0)
}

/// The settings that are saved, or why they are refused.
pub fn prepare_config(config: AppConfig) -> (r: Result<AppConfig, String>)
    ensures
        match r {
            Ok(c) => !lacks_gotify(config) && !lacks_cookiecloud(config) && is_cleaned(config, c),
            Err(e) => if lacks_gotify(config) {
                e@ == "启用 Gotify 通知前，请填写服务地址和应用 Token"@
            } else {
                lacks_cookiecloud(config) && e@
                    == "启用 CookieCloud 自动同步前，请填写服务地址、UUID 和密码"@
            },
        },
{
    let mut c: AppConfig = config;
    c.log_retention = normalize_log_retention(c.log_retention);
    if c.visit_duration < MIN_VISIT_SECONDS {
        c.visit_duration = MIN_VISIT_SECONDS;
    }
    c.ocr_server_url = cleaned_address(c.ocr_server_url.as_str());
    c.ocr_retry_count = clamp_u8(c.ocr_retry_count, 1, 5);
    c.min_login_attempts_remaining = clamp_u8(c.min_login_attempts_remaining, 1, 20);
    c.gotify.server_url = cleaned_address(c.gotify.server_url.as_str());
    let token: Vec<char> = chars_of(c.gotify.token.as_str());
    c.gotify.token = string_of(trim(token.as_slice()));
    if c.gotify.enabled && (c.gotify.server_url.as_str().is_empty()
        || c.gotify.token.as_str().is_empty()) {
        return Err("启用 Gotify 通知前，请填写服务地址和应用 Token".to_string());
    }
    if (c.auto_sync_cookie || c.auto_sync_cookie_after_keepalive) && (is_blank(
        c.cookiecloud.server_url.as_str(),
    ) || is_blank(c.cookiecloud.uuid.as_str()) || c.cookiecloud.password.as_str().is_empty()) {
        return Err("启用 CookieCloud 自动同步前，请填写服务地址、UUID 和密码".to_string());
    }
    Ok(c)
}

/// Saving changes no site.
pub proof fn saving_keeps_sites(before: AppConfig, after: AppConfig)
    requires
        is_cleaned(before, after),
    ensures
        after.sites == before.sites,
        1 <= after.ocr_retry_count <= 5,
        1 <= after.min_login_attempts_remaining <= 20,
        after.visit_duration >= MIN_VISIT_SECONDS,
{
}

// ---------------------------------------------------------------- one site

/// Whether a text is a random UUID in its hyphenated form: lower-case hexadecimal digits
/// in groups of eight, four, four, four and twelve, with the version 4 and the variant of
/// the standard.
pub open spec fn is_random_id(s: Seq<char>) -> bool {
    &&& s.len() == 36
    &&& forall|i: int|
        0 <= i < 36 ==> if i == 8 || i == 13 || i == 18 || i == 23 {
            #[trigger] s[i] == '-'
        } else {
            '0' <= s[i] <= '9' || 'a' <= s[i] <= 'f'
        }
    &&& s[14] == '4'
    &&& s[19] == '8' || s[19] == '9' || s[19] == 'a' || s[19] == 'b'
}

/// Calls `uuid::Uuid::new_v4` and writes the id in its hyphenated form, which is that of
/// a random UUID. Which id comes out is left to chance.
#[verifier::external_body]
fn new_id() -> (r: String)
    ensures
        is_random_id(r@),
{
    uuid::Uuid::new_v4().to_string()
}

/// A key without white space around it and without blanks in it.
pub open spec fn clean_secret(secret: Seq<char>) -> Seq<char> {
    without_char(trimmed(secret), ' ')
}

fn cleaned_secret(secret: &str) -> (r: String)
    ensures
        r@ == clean_secret(secret@),
{
    let chars: Vec<char> = chars_of(secret);
    remove_char(trim(chars.as_slice()), ' ')
}

/// A site that a user enters.
#[derive(Debug)]
pub struct SiteInput {
    pub name: String,
    pub url: String,
    pub username: String,
    pub password: String,
    pub totp_secret: String,
    pub auto_login: bool,
}

/// What a `SiteInput` says.
pub struct InputView {
    pub name: Seq<char>,
    pub url: Seq<char>,
    pub username: Seq<char>,
    pub password: Seq<char>,
    pub totp_secret: Seq<char>,
    pub auto_login: bool,
}

impl View for SiteInput {
    type V = InputView;

    open spec fn view(&self) -> InputView {
        InputView {
            name: self.name@,
            url: self.url@,
            username: self.username@,
            password: self.password@,
            totp_secret: self.totp_secret@,
            auto_login: self.auto_login,
        }
    }
}

/// What a list of entered sites says.
pub open spec fn input_views(list: Seq<SiteInput>) -> Seq<InputView> {
    list.map_values(|s: SiteInput| s@)
}

/// The site that an entry becomes under an id: it is kept alive from the start.
pub open spec fn entered_site(s: InputView, id: Seq<char>) -> SiteView {
    SiteView {
        id,
        name: s.name,
        url: s.url,
        username: s.username,
        password: s.password,
        totp_secret: s.totp_secret,
        auto_login: s.auto_login,
        login_attempts_remaining: None,
        auto_keepalive: true,
    }
}

/// Adds a site under an id.
pub fn add_site_as(sites: &mut Vec<Site>, site: SiteInput, id: String)
    ensures
        site_views(final(sites)@) == site_views(old(sites)@).push(entered_site(site@, id@)),
{
    let ghost view = entered_site(site@, id@);
    sites.push(
        Site {
            id,
            name: site.name,
            url: site.url,
            username: site.username,
            password: site.password,
            totp_secret: site.totp_secret,
            auto_login: site.auto_login,
            login_attempts_remaining: None,
            auto_keepalive: true,
        },
    );
    assert(site_views(sites@) =~= site_views(old(sites)@).push(view));
}

/// Adds a site under a new id.
pub fn add_site(sites: &mut Vec<Site>, site: SiteInput)
    ensures
        exists|id: Seq<char>|
            is_random_id(id) && site_views(final(sites)@) == site_views(old(sites)@).push(
                #[trigger] entered_site(site@, id),
            ),
{
    let id: String = new_id();
    let ghost text = id@;
    add_site_as(sites, site, id);
    assert(is_random_id(text) && site_views(sites@) == site_views(old(sites)@).push(
        entered_site(site@, text),
    ));
}

/// The place of the first site with an id; the length of the list where there is none.
pub open spec fn place_of(sites: Seq<SiteView>, id: Seq<char>) -> int
    decreases sites.len(),
{
    if sites.len() == 0 {
        0
    } else if sites[0].id == id {
        0
    } else {
        1 + place_of(sites.skip(1), id)
    }
}

fn find_place(sites: &Vec<Site>, id: &str) -> (r: usize)
    ensures
        r == place_of(site_views(sites@), id@),
        r <= sites@.len(),
        r < sites@.len() ==> sites@[r as int].id@ == id@,
{
    let ghost all = site_views(sites@);
    let mut i: usize = 0;
    assert(all.skip(0) =~= all);
    while i < sites.len()
        invariant
            i <= sites@.len(),
            all == site_views(sites@),
            i + place_of(all.skip(i as int), id@) == place_of(all, id@),
        decreases sites@.len() - i,
    {
        assert(all.skip(i as int)[0] == sites@[i as int]@);
        assert(all.skip(i as int).skip(1) =~= all.skip(i + 1));
        if str_eq(sites[i].id.as_str(), id) {
            return i;
        }
        i = i + 1;
    }
    i
}

/// The first site with an id.
pub open spec fn site_with_id(sites: Seq<SiteView>, id: Seq<char>) -> Option<SiteView> {
    if place_of(sites, id) < sites.len() {
        Some(sites[place_of(sites, id)])
    } else {
        None
    }
}

/// The first site with an id.
pub fn find_site<'a>(sites: &'a Vec<Site>, id: &str) -> (r: Option<&'a Site>)
    ensures
        match r {
            Some(s) => site_with_id(site_views(sites@), id@) == Some(s@),
            None => site_with_id(site_views(sites@), id@) is None,
        },
{
    let k: usize = find_place(sites, id);
    if k < sites.len() {
        assert(site_views(sites@)[k as int] == sites@[k as int]@);
        Some(&sites[k])
    } else {
        None
    }
}

/// A site after a change; its id and what it reported last stay.
pub open spec fn changed_site(old_site: SiteView, s: InputView, auto_keepalive: bool) -> SiteView {
    SiteView {
        name: s.name,
        url: s.url,
        username: s.username,
        password: s.password,
        totp_secret: clean_secret(s.totp_secret),
        auto_login: s.auto_login,
        auto_keepalive,
        ..old_site
    }
}

/// The list with the first site of an id replaced.
pub open spec fn with_site(sites: Seq<SiteView>, id: Seq<char>, site: SiteView) -> Seq<SiteView> {
    if place_of(sites, id) < sites.len() {
        sites.update(place_of(sites, id), site)
    } else {
        sites
    }
}

/// Changes the first site with an id; where there is none, nothing changes.
pub fn update_site(sites: &mut Vec<Site>, id: &str, site: SiteInput, auto_keepalive: bool)
    ensures
        site_views(final(sites)@) == with_site(
            site_views(old(sites)@),
            id@,
            changed_site(
                site_views(old(sites)@)[place_of(site_views(old(sites)@), id@)],
                site@,
                auto_keepalive,
            ),
        ),
{
    let k: usize = find_place(sites, id);
    if k < sites.len() {
        let ghost all = site_views(sites@);
        assert(all[k as int] == sites@[k as int]@);
        let changed: Site = Site {
            id: sites[k].id.clone(),
            name: site.name,
            url: site.url,
            username: site.username,
            password: site.password,
            totp_secret: cleaned_secret(site.totp_secret.as_str()),
            auto_login: site.auto_login,
            login_attempts_remaining: sites[k].login_attempts_remaining,
            auto_keepalive,
        };
        let ghost view = changed@;
        sites.set(k, changed);
        assert(site_views(sites@) =~= all.update(k as int, view));
    }
}

/// Notes how many login attempts a site has left.
pub fn record_attempts(sites: &mut Vec<Site>, id: &str, remaining: u32)
    ensures
        site_views(final(sites)@) == with_site(
            site_views(old(sites)@),
            id@,
            (SiteView {
                login_attempts_remaining: Some(remaining),
                ..site_views(old(sites)@)[place_of(site_views(old(sites)@), id@)]
            }),
        ),
{
    let k: usize = find_place(sites, id);
    if k < sites.len() {
        let ghost all = site_views(sites@);
        assert(all[k as int] == sites@[k as int]@);
        let noted: Site = Site {
            id: sites[k].id.clone(),
            name: sites[k].name.clone(),
            url: sites[k].url.clone(),
            username: sites[k].username.clone(),
            password: sites[k].password.clone(),
            totp_secret: sites[k].totp_secret.clone(),
            auto_login: sites[k].auto_login,
            login_attempts_remaining: Some(remaining),
            auto_keepalive: sites[k].auto_keepalive,
        };
        let ghost view = noted@;
        sites.set(k, noted);
        assert(site_views(sites@) =~= all.update(k as int, view));
    }
}

proof fn lemma_place(sites: Seq<SiteView>, id: Seq<char>)
    ensures
        0 <= place_of(sites, id) <= sites.len(),
        place_of(sites, id) < sites.len() ==> sites[place_of(sites, id)].id == id,
        forall|i: int| 0 <= i < place_of(sites, id) ==> (#[trigger] sites[i]).id != id,
    decreases sites.len(),
{
    if sites.len() > 0 && sites[0].id != id {
        let rest = sites.skip(1);
        lemma_place(rest, id);
        assert forall|i: int| 0 <= i < place_of(sites, id) implies (#[trigger] sites[i]).id
            != id by {
            if i > 0 {
                assert(sites[i] == rest[i - 1]);
            }
        }
    }
}

/// A change of one site keeps the number, the order and the ids of the sites, and every
/// other site as it was.
pub proof fn changing_keeps_the_others(sites: Seq<SiteView>, id: Seq<char>, site: SiteView)
    requires
        site.id == id,
    ensures
        with_site(sites, id, site).len() == sites.len(),
        forall|i: int|
            0 <= i < sites.len() ==> (#[trigger] with_site(sites, id, site)[i]).id == sites[i].id,
        forall|i: int|
            0 <= i < sites.len() && sites[i].id != id ==> #[trigger] with_site(sites, id, site)[i]
                == sites[i],
{
    lemma_place(sites, id);
}

// ---------------------------------------------------------------- removing

/// The sites whose id is not among those given.
pub open spec fn sites_without(sites: Seq<SiteView>, ids: Seq<Seq<char>>) -> Seq<SiteView>
    decreases sites.len(),
{
    if sites.len() == 0 {
        Seq::empty()
    } else {
        let rest = sites_without(sites.drop_last(), ids);
        if ids.contains(sites.last().id) {
            rest
        } else {
            rest.push(sites.last())
        }
    }
}

/// Removes the sites with one of the ids.
pub fn remove_sites(sites: Vec<Site>, ids: &Vec<String>) -> (r: Vec<Site>)
    ensures
        site_views(r@) == sites_without(site_views(sites@), texts(ids@)),
{
    let ghost all = site_views(sites@);
    let mut rest: Vec<Site> = sites;
    let mut out: Vec<Site> = Vec::new();
    let n: usize = rest.len();
    let mut i: usize = 0;
    assert(all.take(0) =~= Seq::<SiteView>::empty());
    assert(site_views(out@) =~= Seq::<SiteView>::empty());
    assert(site_views(rest@) =~= all.skip(0));
    while i < n
        invariant
            i <= n,
            n == all.len(),
            site_views(rest@) == all.skip(i as int),
            site_views(out@) == sites_without(all.take(i as int), texts(ids@)),
        decreases n - i,
    {
        assert(rest@.len() == site_views(rest@).len());
        assert(all.take(i + 1).drop_last() =~= all.take(i as int));
        assert(site_views(rest@)[0] == rest@[0]@);
        assert(all.take(i + 1).last() == rest@[0]@);
        let ghost left = rest@;
        let site: Site = rest.remove(0);
        assert(site_views(rest@) =~= all.skip(i + 1)) by {
            assert(site_views(rest@) =~= site_views(left).skip(1));
            assert(all.skip(i as int).skip(1) =~= all.skip(i + 1));
        }
        if !holds(ids, site.id.as_str()) {
            let ghost before = site_views(out@);
            let ghost view = site@;
            out.push(site);
            assert(site_views(out@) =~= before.push(view));
        }
        i = i + 1;
    }
    assert(all.take(i as int) =~= all);
    out
}

/// Removes the sites with an id.
pub fn remove_site(sites: Vec<Site>, id: &str) -> (r: Vec<Site>)
    ensures
        site_views(r@) == sites_without(site_views(sites@), seq![id@]),
{
    let mut ids: Vec<String> = Vec::new();
    assert(texts(ids@) =~= Seq::<Seq<char>>::empty());
    push_text(&mut ids, id.to_string());
    assert(texts(ids@) =~= seq![id@]);
    remove_sites(sites, &ids)
}

/// After a removal exactly the sites with other ids are left.
pub proof fn removing_leaves_the_others(sites: Seq<SiteView>, ids: Seq<Seq<char>>)
    ensures
        forall|s: SiteView| #[trigger]
            sites_without(sites, ids).contains(s) <==> sites.contains(s) && !ids.contains(s.id),
    decreases sites.len(),
{
    if sites.len() > 0 {
        let head = sites.drop_last();
        removing_leaves_the_others(head, ids);
        let rest = sites_without(head, ids);
        let out = sites_without(sites, ids);
        assert(sites =~= head.push(sites.last()));
        assert forall|s: SiteView| #[trigger] out.contains(s) <==> sites.contains(s)
            && !ids.contains(s.id) by {
            if out.contains(s) {
                let k = choose|k: int| 0 <= k < out.len() && out[k] == s;
                if k < rest.len() {
                    assert(rest[k] == s);
                    assert(rest.contains(s));
                    let j = choose|j: int| 0 <= j < head.len() && head[j] == s;
                    assert(sites[j] == s);
                } else {
                    assert(sites[sites.len() - 1] == s);
                }
            }
            if sites.contains(s) && !ids.contains(s.id) {
                let j = choose|j: int| 0 <= j < sites.len() && sites[j] == s;
                if j < head.len() {
                    assert(head[j] == s);
                    assert(rest.contains(s));
                    let k = choose|k: int| 0 <= k < rest.len() && rest[k] == s;
                    assert(out[k] == s);
                } else {
                    assert(out[out.len() - 1] == s);
                }
            }
        }
    }
}

// ---------------------------------------------------------------- importing

/// What an import has brought about.
#[derive(Debug)]
pub struct SiteImportResult {
    pub config: AppConfig,
    pub imported: usize,
    pub skipped: usize,
}

/// The list of sites in a text: the value under `sites`, or all of it.
pub open spec fn listed_sites(text: Seq<char>) -> Result<JsonView, Seq<char>> {
    match parsed_json(text) {
        Err(e) => Err("JSON 格式错误："@ + e),
        Ok(v) => match v.at("sites"@) {
            Some(list) => Ok(list),
            None => Ok(v),
        },
    }
}

/// The list of sites in a text.
pub fn sites_value(text: &str) -> (r: Result<serde_json::Value, String>)
    ensures
        crate::cookiecloud::value_result(r) == listed_sites(text@),
{
    let v: serde_json::Value = match parse_value(text) {
        Ok(v) => v,
        Err(e) => return Err("JSON 格式错误：".to_string().concat(e.as_str())),
    };
    let list: Option<serde_json::Value> = match find_value(&v, "sites") {
        Some(list) => Some(copy_value(list)),
        None => None,
    };
    match list {
        Some(list) => Ok(list),
        None => Ok(v),
    }
}

/// A web address with something behind its scheme.
pub open spec fn is_site_url(url: Seq<char>) -> bool {
    (has_prefix(url, "http://"@) || has_prefix(url, "https://"@)) && match cut_text(url, "://"@) {
        Some((_, rest)) => rest.len() > 0,
        None => false,
    }
}

fn is_web_address(url: &[char]) -> (r: bool)
    ensures
        r == is_site_url(url@),
{
    (starts_with_str(url, "http://") || starts_with_str(url, "https://")) && match split_once_str(
        url,
        "://",
    ) {
        Some((_, rest)) => rest.len() > 0,
        None => false,
    }
}

/// Two addresses that differ at most in case and in slashes at the end.
pub open spec fn same_address(a: Seq<char>, b: Seq<char>) -> bool {
    lowered(trim_end_of(a, '/')) == lowered(trim_end_of(b, '/'))
}

/// One of the sites has the address.
pub open spec fn is_known(sites: Seq<SiteView>, url: Seq<char>) -> bool {
    exists|i: int| 0 <= i < sites.len() && same_address((#[trigger] sites[i]).url, url)
}

fn knows(sites: &Vec<Site>, url: &[char]) -> (r: bool)
    ensures
        r == is_known(site_views(sites@), url@),
{
    let ghost all = site_views(sites@);
    let clean: &[char] = trim_end_char(url, '/');
    let mut i: usize = 0;
    while i < sites.len()
        invariant
            i <= sites@.len(),
            all == site_views(sites@),
            clean@ == trim_end_of(url@, '/'),
            forall|k: int| 0 <= k < i ==> !same_address((#[trigger] all[k]).url, url@),
        decreases sites@.len() - i,
    {
        assert(all[i as int] == sites@[i as int]@);
        let chars: Vec<char> = chars_of(sites[i].url.as_str());
        if eq_ignoring_case(trim_end_char(chars.as_slice(), '/'), clean) {
            return true;
        }
        i = i + 1;
    }
    false
}

/// Whether an entry of an import becomes a site: it has a name and a web address that no
/// site has yet.
pub open spec fn is_importable(sites: Seq<SiteView>, s: InputView) -> bool {
    trimmed(s.name).len() > 0 && is_site_url(trimmed(s.url)) && !is_known(sites, trimmed(s.url))
}

/// The site that an entry of an import becomes.
pub open spec fn imported_site(s: InputView, id: Seq<char>) -> SiteView {
    entered_site(
        InputView {
            name: trimmed(s.name),
            url: trimmed(s.url),
            username: trimmed(s.username),
            totp_secret: clean_secret(s.totp_secret),
            ..s
        },
        id,
    )
}

/// The sites after an entry of an import.
pub open spec fn with_imported(sites: Seq<SiteView>, s: InputView, id: Seq<char>) -> Seq<SiteView> {
    if is_importable(sites, s) {
        sites.push(imported_site(s, id))
    } else {
        sites
    }
}

/// Imports an entry under an id; tells whether it became a site.
pub fn import_site(sites: &mut Vec<Site>, site: SiteInput, id: String) -> (r: bool)
    ensures
        r == is_importable(site_views(old(sites)@), site@),
        site_views(final(sites)@) == with_imported(site_views(old(sites)@), site@, id@),
{
    let name_chars: Vec<char> = chars_of(site.name.as_str());
    let url_chars: Vec<char> = chars_of(site.url.as_str());
    let user_chars: Vec<char> = chars_of(site.username.as_str());
    let name: &[char] = trim(name_chars.as_slice());
    let url: &[char] = trim(url_chars.as_slice());
    if name.len() == 0 || !is_web_address(url) || knows(sites, url) {
        return false;
    }
    let clean: SiteInput = SiteInput {
        name: string_of(name),
        url: string_of(url),
        username: string_of(trim(user_chars.as_slice())),
        password: site.password,
        totp_secret: cleaned_secret(site.totp_secret.as_str()),
        auto_login: site.auto_login,
    };
    add_site_as(sites, clean, id);
    true
}

/// The sites after the entries of an import, each under an id of its own.
pub open spec fn after_import(
    sites: Seq<SiteView>,
    list: Seq<InputView>,
    ids: Seq<Seq<char>>,
) -> Seq<SiteView>
    decreases list.len(),
{
    if list.len() == 0 {
        sites
    } else {
        with_imported(
            after_import(sites, list.drop_last(), ids.drop_last()),
            list.last(),
            ids.last(),
        )
    }
}

/// Imports the entries of a list under new ids. The first number counts the entries that
/// became sites, and the second those that were skipped.
pub fn import_sites(sites: &mut Vec<Site>, list: Vec<SiteInput>) -> (r: (usize, usize))
    ensures
        exists|ids: Seq<Seq<char>>|
            ids.len() == list@.len() && (forall|k: int|
                0 <= k < ids.len() ==> is_random_id(#[trigger] ids[k])) && site_views(final(sites)@) == #[trigger] after_import(
                site_views(old(sites)@),
                input_views(list@),
                ids,
            ),
        r.0 == final(sites)@.len() - old(sites)@.len(),
        r.0 + r.1 == list@.len(),
{
    let ghost start = site_views(sites@);
    let ghost all = input_views(list@);
    let n: usize = list.len();
    let mut rest: Vec<SiteInput> = list;
    let mut imported: usize = 0;
    let mut i: usize = 0;
    let ghost mut ids: Seq<Seq<char>> = Seq::empty();
    assert(all.take(0) =~= Seq::<InputView>::empty());
    assert(input_views(rest@) =~= all.skip(0));
    while i < n
        invariant
            i <= n,
            n == all.len(),
            ids.len() == i,
            forall|k: int| 0 <= k < ids.len() ==> is_random_id(#[trigger] ids[k]),
            input_views(rest@) == all.skip(i as int),
            site_views(sites@) == after_import(start, all.take(i as int), ids),
            imported <= i,
            sites@.len() == old(sites)@.len() + imported,
        decreases n - i,
    {
        assert(rest@.len() == input_views(rest@).len());
        assert(input_views(rest@)[0] == rest@[0]@);
        let ghost left = rest@;
        let site: SiteInput = rest.remove(0);
        let id: String = new_id();
        proof {
            assert(input_views(rest@) =~= input_views(left).skip(1));
            assert(all.skip(i as int).skip(1) =~= all.skip(i + 1));
            assert(all.take(i + 1).drop_last() =~= all.take(i as int));
            assert(all.take(i + 1).last() == left[0]@);
            assert(ids.push(id@).drop_last() =~= ids);
            ids = ids.push(id@);
        }
        let ghost before = site_views(sites@);
        if import_site(sites, site, id) {
            imported = imported + 1;
            assert(site_views(sites@).len() == before.len() + 1);
        } else {
            assert(site_views(sites@).len() == before.len());
        }
        i = i + 1;
    }
    assert(all.take(i as int) =~= all);
    assert(site_views(sites@) == after_import(start, all, ids));
    (imported, n - imported)
}

/// An import only appends: the sites that were there stay as they were and where they
/// were.
pub proof fn import_only_appends(sites: Seq<SiteView>, list: Seq<InputView>, ids: Seq<Seq<char>>)
    ensures
        sites.len() <= after_import(sites, list, ids).len() <= sites.len() + list.len(),
        after_import(sites, list, ids).take(sites.len() as int) == sites,
    decreases list.len(),
{
    if list.len() > 0 {
        import_only_appends(sites, list.drop_last(), ids.drop_last());
        let before = after_import(sites, list.drop_last(), ids.drop_last());
        assert(after_import(sites, list, ids).take(sites.len() as int) =~= before.take(
            sites.len() as int,
        ));
    } else {
        assert(sites.take(sites.len() as int) =~= sites);
    }
}

proof fn lemma_known_stays(sites: Seq<SiteView>, s: InputView, id: Seq<char>, url: Seq<char>)
    requires
        is_known(sites, url),
    ensures
        is_known(with_imported(sites, s, id), url),
{
    let i = choose|i: int| 0 <= i < sites.len() && same_address((#[trigger] sites[i]).url, url);
    assert(with_imported(sites, s, id)[i] == sites[i]);
}

/// After an import none of its entries can be imported once more.
pub proof fn imported_entries_are_known(
    sites: Seq<SiteView>,
    list: Seq<InputView>,
    ids: Seq<Seq<char>>,
    k: int,
)
    requires
        0 <= k < list.len(),
    ensures
        !is_importable(after_import(sites, list, ids), list[k]),
    decreases list.len(),
{
    let head = list.drop_last();
    let before = after_import(sites, head, ids.drop_last());
    let after = after_import(sites, list, ids);
    let url = trimmed(list[k].url);
    if k < head.len() {
        imported_entries_are_known(sites, head, ids.drop_last(), k);
        if trimmed(list[k].name).len() > 0 && is_site_url(url) {
            lemma_known_stays(before, list.last(), ids.last(), url);
        }
    } else if is_importable(before, list.last()) {
        assert(same_address(after[after.len() - 1].url, url));
    }
}

/// Importing a list once more changes nothing.
pub proof fn import_is_idempotent(
    sites: Seq<SiteView>,
    list: Seq<InputView>,
    ids: Seq<Seq<char>>,
    again: Seq<Seq<char>>,
    n: int,
)
    requires
        0 <= n <= list.len(),
    ensures
        after_import(after_import(sites, list, ids), list.take(n), again) == after_import(
            sites,
            list,
            ids,
        ),
    decreases n,
{
    if n > 0 {
        let first = list.take(n);
        import_is_idempotent(sites, list, ids, again.drop_last(), n - 1);
        assert(first.drop_last() =~= list.take(n - 1));
        imported_entries_are_known(sites, list, ids, n - 1);
        assert(first.last() == list[n - 1]);
    }
}

/// The addresses of the sites.
pub fn site_urls(sites: &Vec<Site>) -> (r: Vec<String>)
    ensures
        texts(r@) == site_views(sites@).map_values(|s: SiteView| s.url),
{
    let ghost all = site_views(sites@).map_values(|s: SiteView| s.url);
    let mut out: Vec<String> = Vec::new();
    let mut i: usize = 0;
    assert(texts(out@) =~= all.take(0));
    while i < sites.len()
        invariant
            i <= sites@.len(),
            all == site_views(sites@).map_values(|s: SiteView| s.url),
            texts(out@) == all.take(i as int),
        decreases sites@.len() - i,
    {
        push_text(&mut out, sites[i].url.clone());
        assert(all.take(i as int).push(sites@[i as int].url@) =~= all.take(i + 1));
        i = i + 1;
    }
    assert(all.take(i as int) =~= all);
    out
}

// ---------------------------------------------------------------- what the settings hold

/// The site that is found by an id is the first that has it, and none is found exactly where
/// no site has it.
pub proof fn site_is_found_by_its_id(sites: Seq<SiteView>, id: Seq<char>)
    ensures
        match site_with_id(sites, id) {
            Some(s) => exists|i: int|
                0 <= i < sites.len() && #[trigger] sites[i] == s && s.id == id && forall|j: int|
                    0 <= j < i ==> (#[trigger] sites[j]).id != id,
            None => forall|j: int| 0 <= j < sites.len() ==> (#[trigger] sites[j]).id != id,
        },
{
    lemma_place(sites, id);
    if site_with_id(sites, id) is Some {
        assert(sites[place_of(sites, id)] == site_with_id(sites, id)->0);
    }
}

/// A site that was changed is found as it was changed, every other as it was, and none where
/// there was none.
pub proof fn changed_site_is_found(
    sites: Seq<SiteView>,
    id: Seq<char>,
    site: SiteView,
    other: Seq<char>,
)
    requires
        site.id == id,
    ensures
        site_with_id(sites, id) is Some ==> site_with_id(with_site(sites, id, site), id) == Some(
            site,
        ),
        site_with_id(sites, id) is None ==> with_site(sites, id, site) == sites,
        other != id ==> site_with_id(with_site(sites, id, site), other) == site_with_id(
            sites,
            other,
        ),
{
    let after = with_site(sites, id, site);
    lemma_place(sites, id);
    lemma_place(after, id);
    lemma_place(sites, other);
    lemma_place(after, other);
    changing_keeps_the_others(sites, id, site);
    let k = place_of(sites, id);
    let m = place_of(after, id);
    if k < sites.len() {
        if m < k {
            assert(after[m].id == sites[m].id);
        }
        assert(after[k].id == id);
        assert(m == k);
    }
    if other != id {
        let a = place_of(sites, other);
        let b = place_of(after, other);
        if a < b {
            assert(after[a].id == sites[a].id);
        }
        if b < a {
            assert(after[b].id == sites[b].id);
        }
        assert(a == b);
        if a < sites.len() {
            assert(after[a] == sites[a]);
        }
    }
}

/// A changed site keeps its id and its attempts left, and takes everything else from what was
/// entered, its secret without the spaces in it.
pub proof fn change_takes_what_was_entered(before: SiteView, s: InputView, auto_keepalive: bool)
    ensures
        ({
            let after = changed_site(before, s, auto_keepalive);
            &&& after.id == before.id
            &&& after.login_attempts_remaining == before.login_attempts_remaining
            &&& after.name == s.name
            &&& after.url == s.url
            &&& after.username == s.username
            &&& after.password == s.password
            &&& after.auto_login == s.auto_login
            &&& after.auto_keepalive == auto_keepalive
            &&& !after.totp_secret.contains(' ')
            &&& forall|c: char| #[trigger]
                after.totp_secret.contains(c) ==> trimmed(s.totp_secret).contains(c)
            &&& !trimmed(s.totp_secret).contains(' ') ==> after.totp_secret == trimmed(
                s.totp_secret,
            )
        }),
{
    taking_out_a_character(trimmed(s.totp_secret), ' ');
}

/// A site that was entered has what was entered and the id that it was given, is to be kept
/// alive, and nothing is known of its attempts.
pub proof fn entered_site_has_what_was_entered(s: InputView, id: Seq<char>)
    ensures
        ({
            let site = entered_site(s, id);
            &&& site.id == id
            &&& site.name == s.name
            &&& site.url == s.url
            &&& site.username == s.username
            &&& site.password == s.password
            &&& site.totp_secret == s.totp_secret
            &&& site.auto_login == s.auto_login
            &&& site.auto_keepalive
            &&& site.login_attempts_remaining is None
        }),
{
}

/// Every site that an import adds stands for an entry of the list, with the texts of that
/// entry trimmed and its password as it is, and its address was not known before.
pub proof fn imported_sites_are_entries(
    sites: Seq<SiteView>,
    list: Seq<InputView>,
    ids: Seq<Seq<char>>,
    m: int,
)
    requires
        ids.len() == list.len(),
        sites.len() <= m < after_import(sites, list, ids).len(),
    ensures
        exists|k: int|
            {
                let site = after_import(sites, list, ids)[m];
                let s = #[trigger] list[k];
                &&& 0 <= k < list.len()
                &&& site.id == ids[k]
                &&& site.name == trimmed(s.name)
                &&& site.name.len() > 0
                &&& site.url == trimmed(s.url)
                &&& site.username == trimmed(s.username)
                &&& site.password == s.password
                &&& site.auto_login == s.auto_login
                &&& site.auto_keepalive
                &&& site.login_attempts_remaining is None
                &&& !site.totp_secret.contains(' ')
                &&& !is_known(sites, site.url)
            },
    decreases list.len(),
{
    let n = list.len() - 1;
    let before = after_import(sites, list.drop_last(), ids.drop_last());
    if m < before.len() {
        imported_sites_are_entries(sites, list.drop_last(), ids.drop_last(), m);
        let site = before[m];
        let k = choose|k: int|
            {
                let s = #[trigger] list.drop_last()[k];
                &&& 0 <= k < n
                &&& site.id == ids.drop_last()[k]
                &&& site.name == trimmed(s.name)
                &&& site.name.len() > 0
                &&& site.url == trimmed(s.url)
                &&& site.username == trimmed(s.username)
                &&& site.password == s.password
                &&& site.auto_login == s.auto_login
                &&& site.auto_keepalive
                &&& site.login_attempts_remaining is None
                &&& !site.totp_secret.contains(' ')
                &&& !is_known(sites, site.url)
            };
        assert(list[k] == list.drop_last()[k]);
        assert(ids[k] == ids.drop_last()[k]);
    } else {
        let s = list[n];
        taking_out_a_character(trimmed(s.totp_secret), ' ');
        import_only_appends(sites, list.drop_last(), ids.drop_last());
        if is_known(sites, trimmed(s.url)) {
            let i = choose|i: int|
                0 <= i < sites.len() && same_address((#[trigger] sites[i]).url, trimmed(s.url));
            assert(before.take(sites.len() as int)[i] == sites[i]);
            assert(before[i] == sites[i]);
            assert(is_known(before, trimmed(s.url)));
        }
        assert(list[n] == s);
    }
}

/// The slashes at the end of an address and its case make no difference to whether it is
/// known, and nothing else is passed over.
pub proof fn addresses_are_compared_without_slash_and_case(a: Seq<char>, b: Seq<char>)
    ensures
        same_address(a, a),
        same_address(a, b) == same_address(b, a),
        same_address(a + "/"@, a),
        same_address(a, b) && !has_suffix(a, "/"@) && !has_suffix(b, "/"@) ==> lowered(a)
            == lowered(b),
        lowered(a) == lowered(b) && !has_suffix(a, "/"@) && !has_suffix(b, "/"@) ==> same_address(
            a,
            b,
        ),
{
    reveal_strlit("/");
    assert((a + "/"@).drop_last() =~= a);
    if !has_suffix(a, "/"@) && !has_suffix(b, "/"@) {
        lemma_no_slash(a);
        lemma_no_slash(b);
    }
}

proof fn lemma_no_slash(a: Seq<char>)
    requires
        !has_suffix(a, "/"@),
    ensures
        trim_end_of(a, '/') == a,
{
    reveal_strlit("/");
    if a.len() > 0 && a.last() == '/' {
        assert(a.skip(a.len() - 1) =~= "/"@);
    }
}

/// Saving the settings cleans what has limits and leaves everything else as it is.
pub proof fn saving_leaves_the_rest(before: AppConfig, after: AppConfig)
    requires
        is_cleaned(before, after),
    ensures
        after.cron == before.cron,
        after.cdp_port == before.cdp_port,
        after.random_delay == before.random_delay,
        after.cron_offset_minutes == before.cron_offset_minutes,
        after.auto_launch == before.auto_launch,
        after.auto_sync_cookie == before.auto_sync_cookie,
        after.auto_sync_cookie_after_keepalive == before.auto_sync_cookie_after_keepalive,
        after.auto_close_sync_tabs == before.auto_close_sync_tabs,
        after.cookiecloud == before.cookiecloud,
        after.update_proxy_url == before.update_proxy_url,
        after.gotify.enabled == before.gotify.enabled,
        after.gotify.title == before.gotify.title,
        before.visit_duration >= 5 ==> after.visit_duration == before.visit_duration,
        before.visit_duration < 5 ==> after.visit_duration == 5,
        1 <= before.ocr_retry_count <= 5 ==> after.ocr_retry_count == before.ocr_retry_count,
        1 <= before.min_login_attempts_remaining <= 20 ==> after.min_login_attempts_remaining
            == before.min_login_attempts_remaining,
        50 <= before.log_retention <= 5000 ==> after.log_retention == before.log_retention,
        before.log_retention < 50 ==> after.log_retention == 50,
        before.log_retention > 5000 ==> after.log_retention == 5000,
        before.ocr_retry_count == 0 ==> after.ocr_retry_count == 1,
        before.ocr_retry_count > 5 ==> after.ocr_retry_count == 5,
        before.min_login_attempts_remaining == 0 ==> after.min_login_attempts_remaining == 1,
        before.min_login_attempts_remaining > 20 ==> after.min_login_attempts_remaining == 20,
{
}

/// Removing sites keeps the order of the others: what two lists of sites come to is what the
/// one and then the other come to.
pub proof fn removing_keeps_the_order(a: Seq<SiteView>, b: Seq<SiteView>, ids: Seq<Seq<char>>)
    ensures
        sites_without(a + b, ids) == sites_without(a, ids) + sites_without(b, ids),
    decreases b.len(),
{
    if b.len() == 0 {
        assert(a + b =~= a);
        assert(sites_without(a, ids) + sites_without(b, ids) =~= sites_without(a, ids));
    } else {
        removing_keeps_the_order(a, b.drop_last(), ids);
        assert((a + b).drop_last() =~= a + b.drop_last());
        assert((a + b).last() == b.last());
        assert(sites_without(a + b, ids) =~= sites_without(a, ids) + sites_without(b, ids));
    }
}

/// Settings are saved exactly where what is switched on is also configured: notifications with
/// a server and a token, synchronisation with a server, an id and a password.
pub proof fn settings_are_saved_where_complete(config: AppConfig, r: Result<AppConfig, String>)
    requires
        call_ensures(prepare_config, (config,), r),
    ensures
        r is Ok <==> (config.gotify.enabled ==> clean_address(config.gotify.server_url@).len() > 0
            && trimmed(config.gotify.token@).len() > 0) && (config.auto_sync_cookie
            || config.auto_sync_cookie_after_keepalive ==> trimmed(
            config.cookiecloud.server_url@,
        ).len() > 0 && trimmed(config.cookiecloud.uuid@).len() > 0
            && config.cookiecloud.password@.len() > 0),
{
}

/// An address is one of a site exactly where something stands behind a scheme of HTTP.
pub proof fn site_address_has_scheme_and_place(rest: Seq<char>, url: Seq<char>)
    ensures
        rest.len() > 0 ==> is_site_url("http://"@ + rest) && is_site_url("https://"@ + rest),
        !is_site_url("http://"@) && !is_site_url("https://"@),
        is_site_url(url) ==> has_prefix(url, "http://"@) || has_prefix(url, "https://"@),
{
    lemma_scheme_cut("http://"@, "http"@, rest);
    lemma_scheme_cut("https://"@, "https"@, rest);
    lemma_scheme_cut("http://"@, "http"@, Seq::empty());
    lemma_scheme_cut("https://"@, "https"@, Seq::empty());
    assert("http://"@ + Seq::<char>::empty() =~= "http://"@);
    assert("https://"@ + Seq::<char>::empty() =~= "https://"@);
    assert(("http://"@ + rest).take("http://"@.len() as int) =~= "http://"@);
    assert(("https://"@ + rest).take("https://"@.len() as int) =~= "https://"@);
}

proof fn lemma_scheme_cut(scheme: Seq<char>, name: Seq<char>, rest: Seq<char>)
    requires
        scheme == "http://"@ && name == "http"@ || scheme == "https://"@ && name == "https"@,
    ensures
        cut_text(scheme + rest, "://"@) == Some((name, rest)),
{
    reveal_strlit("http://");
    reveal_strlit("https://");
    reveal_strlit("http");
    reveal_strlit("https");
    reveal_strlit("://");
    let url = scheme + rest;
    let k = name.len() as int;
    assert(url.subrange(k, k + 3) =~= "://"@);
    assert forall|j: int| 0 <= j < k implies !crate::text::occurs_at(url, "://"@, j) by {
        if crate::text::occurs_at(url, "://"@, j) {
            assert(url.subrange(j, j + 3)[0] == ':');
            assert(url[j] == scheme[j]);
        }
    }
    crate::text::lemma_find_from_is(url, "://"@, k);
    assert(url.take(k) =~= name);
    assert(url.skip(k + 3) =~= rest);
}

} // verus!
