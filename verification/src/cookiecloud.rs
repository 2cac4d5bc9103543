//! Cookies from a CookieCloud server: requests, replies and the cookies of the sites.

use crate::bytes::{
    blank_line, bytes_from, find_bytes, lossy_decoded, lossy_text, text_of_bytes, utf8_text,
};
use crate::cdp::http::{find_status, is_success, is_success_status, status_in};
use crate::cdp::storage::{
    first_named, item_names, merge_items, merged, merged_keeps_the_first, merged_names_rise,
};
use crate::cdp::{
    cookie_views, entry_views, storage_views, CdpCookieParam, CdpLocalStorageEntry,
    CdpLocalStorageParam, CookieView, EntryView, StorageView,
};
use crate::host::{host_from_url, origin_from_url, url_host, url_origin};
use crate::json::{
    copy_value, find_value, json_of_value, parse_value, parsed_json, value_model, Json,
    JsonView,
};
use crate::list::{push_new, push_text};
use crate::number::{decimal, decimal_of, parse_u16, parse_usize, u16_in, usize_in};
use crate::order::sorted_distinct_is_sorted_set;
use crate::percent::{
    escaped, escaped_byte, escaped_text_is_printable, percent_encode, Kept,
};
use crate::store::{site_views, CookieCloudConfig, Site, SiteView};
use crate::text::{
    after_prefix, before_any, chars_eq, chars_of, contains_str, contains_text, cut, ends_with,
    ends_with_str, find_char, has_prefix, has_suffix, in_set, lemma_trim_end_of, lines, lines_of,
    lower, lowered, occurs_at, opt_clone, opt_text, pieces, rcut, replace, replaced, rsplit_once,
    split_once, starts_with_str, str_eq, string_of, strip_prefix, take_before_any, texts, to_lower,
    trim, trim_end_char, trim_end_of, trim_start_char, trim_start_of, trimmed,
    trimming_takes_a_run_off, white,
};
use vstd::prelude::*;
use vstd::utf8::encode_utf8;

verus! {

// ---------------------------------------------------------------- the request

/// An address of HTTP, plain or over TLS.
#[derive(Debug)]
pub struct HttpUrl {
    /// Whether the address is one of `https://`.
    pub secure: bool,
    pub host: String,
    pub port: u16,
    pub path: String,
}

/// What an `HttpUrl` says.
pub struct UrlView {
    pub secure: bool,
    pub host: Seq<char>,
    pub port: u16,
    pub path: Seq<char>,
}

impl View for HttpUrl {
    type V = UrlView;

    open spec fn view(&self) -> UrlView {
        UrlView { secure: self.secure, host: self.host@, port: self.port, path: self.path@ }
    }
}

/// Whether a text is made of digits and dots alone, as an IP address is.
pub open spec fn is_dotted_number(host: Seq<char>) -> bool {
    forall|i: int| 0 <= i < host.len() ==> #[trigger] host[i] == '.' || '0' <= host[i] <= '9'
}

fn dotted_number(host: &[char]) -> (r: bool)
    ensures
        r == is_dotted_number(host@),
{
    let mut i: usize = 0;
    while i < host.len()
        invariant
            i <= host@.len(),
            forall|k: int| 0 <= k < i ==> #[trigger] host@[k] == '.' || '0' <= host@[k] <= '9',
        decreases host@.len() - i,
    {
        let c: char = host[i];
        if c != '.' && !('0' <= c && c <= '9') {
            assert(host@[i as int] == c);
            return false;
        }
        i = i + 1;
    }
    true
}

/// Whether a name is one of those that are kept for local networks.
pub open spec fn is_local_name(host: Seq<char>) -> bool {
    let name = lowered(host);
    has_suffix(name, ".local"@) || has_suffix(name, ".localhost"@) || has_suffix(name, ".lan"@)
        || has_suffix(name, ".internal"@) || has_suffix(name, ".home.arpa"@)
}

/// Whether what stands in the place of a host is a domain of the public network: a name
/// of several parts that is not kept for local networks, without a port, and no IP address.
pub open spec fn is_public_domain(host: Seq<char>) -> bool {
    host.contains('.') && !host.contains(':') && !is_dotted_number(host) && !is_local_name(host)
}

fn public_domain(host: &[char]) -> (r: bool)
    ensures
        r == is_public_domain(host@),
{
    let name: Vec<char> = to_lower(host);
    let lower: &[char] = name.as_slice();
    let local: bool = ends_with_str(lower, ".local") || ends_with_str(lower, ".localhost")
        || ends_with_str(lower, ".lan") || ends_with_str(lower, ".internal") || ends_with_str(
        lower,
        ".home.arpa",
    );
    in_set(host, '.') && !in_set(host, ':') && !dotted_number(host) && !local
}

/// The address of a server without white space around it and slashes behind it.
pub open spec fn clean_server(server_url: Seq<char>) -> Seq<char> {
    trim_end_of(trimmed(server_url), '/')
}

/// Whether an address says how to connect.
pub open spec fn has_scheme(address: Seq<char>) -> bool {
    has_prefix(address, "http://"@) || has_prefix(address, "https://"@)
}

/// What stands in the place of a host in an address without a scheme.
pub open spec fn bare_authority(address: Seq<char>) -> Seq<char> {
    before_any(address, seq!['/', '?', '#'])
}

/// The addresses under which a server is looked for, in order: the one that is given, where
/// it says how to connect; else that over TLS and then the plain one for a public domain,
/// and the plain one alone for what is local.
pub open spec fn bases_for(server_url: Seq<char>) -> Seq<Seq<char>> {
    let clean = clean_server(server_url);
    if has_scheme(clean) {
        seq![clean]
    } else if is_public_domain(bare_authority(clean)) {
        seq!["https://"@ + clean, "http://"@ + clean]
    } else {
        seq!["http://"@ + clean]
    }
}

/// The place under an address at which the data of a user are asked for.
pub open spec fn endpoint_at(base: Seq<char>, uuid: Seq<char>) -> Seq<char> {
    let encoded = escaped(Kept::Unreserved, encode_utf8(uuid));
    if contains_text(lowered(base), "/get/"@) {
        base
    } else if has_suffix(lowered(base), "/get"@) {
        base + "/"@ + encoded
    } else {
        base + "/get/"@ + encoded
    }
}

/// The places at which a server is asked for the data of a user, in order.
pub open spec fn endpoints_for(server_url: Seq<char>, uuid: Seq<char>) -> Seq<Seq<char>> {
    bases_for(server_url).map_values(|base: Seq<char>| endpoint_at(base, uuid))
}

fn endpoint_on(base: String, uuid: &str) -> (r: String)
    ensures
        r@ == endpoint_at(base@, uuid@),
{
    let encoded: String = percent_encode(uuid);
    let base_chars: Vec<char> = chars_of(base.as_str());
    let lower: Vec<char> = to_lower(base_chars.as_slice());
    if contains_str(lower.as_slice(), "/get/") {
        base
    } else if ends_with_str(lower.as_slice(), "/get") {
        base.concat("/").concat(encoded.as_str())
    } else {
        base.concat("/get/").concat(encoded.as_str())
    }
}

/// The places at which a server is asked for the data of a user, in order.
pub fn build_endpoint_candidates(server_url: &str, uuid: &str) -> (r: Vec<String>)
    ensures
        texts(r@) == endpoints_for(server_url@, uuid@),
{
    let chars: Vec<char> = chars_of(server_url);
    let clean: &[char] = trim_end_char(trim(chars.as_slice()), '/');
    let address: String = string_of(clean);
    let mut out: Vec<String> = Vec::new();
    assert(texts(out@) =~= Seq::<Seq<char>>::empty());
    if starts_with_str(clean, "http://") || starts_with_str(clean, "https://") {
        push_text(&mut out, endpoint_on(address, uuid));
    } else {
        let mut marks: Vec<char> = Vec::new();
        marks.push('/');
        marks.push('?');
        marks.push('#');
        assert(marks@ =~= seq!['/', '?', '#']);
        if public_domain(take_before_any(clean, marks.as_slice())) {
            let base: String = "https://".to_string().concat(address.as_str());
            push_text(&mut out, endpoint_on(base, uuid));
        }
        let base: String = "http://".to_string().concat(address.as_str());
        push_text(&mut out, endpoint_on(base, uuid));
    }
    assert(texts(out@) =~= endpoints_for(server_url@, uuid@));
    out
}

proof fn lemma_endpoint_keeps_scheme(base: Seq<char>, uuid: Seq<char>, scheme: Seq<char>)
    requires
        has_prefix(base, scheme),
    ensures
        has_prefix(endpoint_at(base, uuid), scheme),
{
    assert(endpoint_at(base, uuid).take(scheme.len() as int) =~= base.take(scheme.len() as int));
}

/// A public domain that is given without a scheme is asked over TLS first, and then plainly.
pub proof fn public_domain_is_asked_securely_first(server_url: Seq<char>, uuid: Seq<char>)
    requires
        !has_scheme(clean_server(server_url)),
        is_public_domain(bare_authority(clean_server(server_url))),
    ensures
        endpoints_for(server_url, uuid).len() == 2,
        has_prefix(endpoints_for(server_url, uuid)[0], "https://"@),
        has_prefix(endpoints_for(server_url, uuid)[1], "http://"@),
{
    let clean = clean_server(server_url);
    let secure = "https://"@ + clean;
    let plain = "http://"@ + clean;
    assert(secure.take("https://"@.len() as int) =~= "https://"@);
    assert(plain.take("http://"@.len() as int) =~= "http://"@);
    lemma_endpoint_keeps_scheme(secure, uuid, "https://"@);
    lemma_endpoint_keeps_scheme(plain, uuid, "http://"@);
}

/// An address that says how to connect is the only one that is asked, and in that way.
pub proof fn full_address_is_kept(server_url: Seq<char>, uuid: Seq<char>)
    requires
        has_scheme(clean_server(server_url)),
    ensures
        endpoints_for(server_url, uuid).len() == 1,
        has_prefix(endpoints_for(server_url, uuid)[0], clean_server(server_url)),
{
    let clean = clean_server(server_url);
    assert(clean.take(clean.len() as int) =~= clean);
    lemma_endpoint_keeps_scheme(clean, uuid, clean);
}

/// What is local is asked plainly, unless the address says otherwise.
pub proof fn local_server_is_asked_plainly(server_url: Seq<char>, uuid: Seq<char>)
    requires
        !has_scheme(clean_server(server_url)),
        !is_public_domain(bare_authority(clean_server(server_url))),
    ensures
        endpoints_for(server_url, uuid).len() == 1,
        has_prefix(endpoints_for(server_url, uuid)[0], "http://"@),
{
    let plain = "http://"@ + clean_server(server_url);
    assert(plain.take("http://"@.len() as int) =~= "http://"@);
    lemma_endpoint_keeps_scheme(plain, uuid, "http://"@);
}

proof fn lemma_scheme_is_text(base: Seq<char>)
    requires
        has_scheme(base),
    ensures
        base.len() >= 7,
        base[0] == 'h',
{
    reveal_strlit("http://");
    reveal_strlit("https://");
    if has_prefix(base, "http://"@) {
        assert(base.take(7)[0] == base[0]);
    } else {
        assert(base.take(8)[0] == base[0]);
    }
}

proof fn lemma_complete_endpoint(c: Seq<char>, uuid: Seq<char>)
    requires
        has_scheme(c),
        contains_text(lowered(c), "/get/"@),
        !white(c.last()),
        c.last() != '/',
    ensures
        endpoints_for(c, uuid) == seq![c],
{
    lemma_scheme_is_text(c);
    assert(trimmed(c) == c);
    assert(clean_server(c) == c);
    assert(endpoints_for(c, uuid) =~= seq![c]);
}

/// An endpoint for no id: the slash at its end is taken off and put back.
proof fn lemma_endpoint_without_id(d: Seq<char>, uuid: Seq<char>)
    requires
        has_scheme(d),
        has_suffix(lowered(d), "/get"@),
        !contains_text(lowered(d), "/get/"@),
        escaped(Kept::Unreserved, encode_utf8(uuid)).len() == 0,
    ensures
        endpoints_for(d + "/"@, uuid) == seq![d + "/"@],
{
    reveal_strlit("/");
    reveal_strlit("/get");
    let c = d + "/"@;
    let encoded = escaped(Kept::Unreserved, encode_utf8(uuid));
    lemma_scheme_is_text(d);
    assert(lowered(d).skip(d.len() - 4)[3] == 't');
    assert(lower(d.last()) == 't');
    assert(c[0] == d[0] && c.last() == '/');
    assert(trimmed(c) == c);
    assert(c.drop_last() =~= d);
    assert(trim_end_of(d, '/') == d);
    assert(clean_server(c) == d);
    assert(d + "/"@ + encoded =~= c);
    assert(endpoints_for(c, uuid) =~= seq![c]);
}

/// Text with `/get` at its end holds `/get/` only where it holds it before that end.
proof fn lemma_no_get_before(low: Seq<char>, at: int)
    requires
        0 <= at,
        at + 4 == low.len(),
        low.skip(at) == "/get"@,
        !contains_text(low.take(at), "/get/"@),
        !has_suffix(low.take(at), "/get"@),
    ensures
        !contains_text(low, "/get/"@),
{
    reveal_strlit("/get/");
    reveal_strlit("/get");
    let get = "/get/"@;
    if contains_text(low, get) {
        let k = choose|k: int| occurs_at(low, get, k);
        let found = low.subrange(k, k + 5);
        assert(found[0] == low[k] && found[1] == low[k + 1] && found[2] == low[k + 2] && found[3]
            == low[k + 3] && found[4] == low[k + 4]);
        if k + 5 <= at {
            assert(low.take(at).subrange(k, k + 5) =~= found);
            assert(occurs_at(low.take(at), get, k));
        } else {
            let tail = low.skip(at);
            assert(tail[1] == low[at + 1] && tail[2] == low[at + 2] && tail[3] == low[at + 3]);
            assert(k + 4 == at);
            assert(low.take(at).skip(k) =~= "/get"@);
        }
    }
}

proof fn lemma_get_in_endpoint(base: Seq<char>, uuid: Seq<char>)
    requires
        !contains_text(lowered(base), "/get/"@),
    ensures
        ({
            let c = endpoint_at(base, uuid);
            let encoded = escaped(Kept::Unreserved, encode_utf8(uuid));
            &&& contains_text(lowered(c), "/get/"@)
            &&& base.len() + 1 <= c.len() - encoded.len()
            &&& c.take(base.len() as int) == base
            &&& encoded.len() > 0 ==> c.last() == encoded.last()
        }),
{
    reveal_strlit("/get/");
    reveal_strlit("/get");
    reveal_strlit("/");
    let c = endpoint_at(base, uuid);
    let get = "/get/"@;
    let low = lowered(base);
    assert(c.take(base.len() as int) =~= base);
    let at: int = if has_suffix(low, "/get"@) {
        base.len() - 4
    } else {
        base.len() as int
    };
    if has_suffix(low, "/get"@) {
        let tail = low.skip(at);
        assert(tail[0] == low[at] && tail[1] == low[at + 1] && tail[2] == low[at + 2] && tail[3]
            == low[at + 3]);
    }
    assert(lowered(c).subrange(at, at + 5) =~= get);
    assert(occurs_at(lowered(c), get, at));
}

proof fn lemma_endpoint_with_id(base: Seq<char>, uuid: Seq<char>)
    requires
        has_scheme(base),
        !contains_text(lowered(base), "/get/"@),
        escaped(Kept::Unreserved, encode_utf8(uuid)).len() > 0,
    ensures
        endpoints_for(endpoint_at(base, uuid), uuid) == seq![endpoint_at(base, uuid)],
{
    let c = endpoint_at(base, uuid);
    let encoded = escaped(Kept::Unreserved, encode_utf8(uuid));
    lemma_get_in_endpoint(base, uuid);
    assert(0x21 <= encoded.last() as int <= 0x7e) by {
        escaped_text_is_printable(Kept::Unreserved, encode_utf8(uuid));
    }
    assert(encoded.last() != '/') by {
        lemma_escaped_has_no_slash(encode_utf8(uuid));
    }
    lemma_scheme_stays(base, c);
    lemma_complete_endpoint(c, uuid);
}

proof fn lemma_endpoint_for_nobody(base: Seq<char>, uuid: Seq<char>)
    requires
        has_scheme(base),
        !contains_text(lowered(base), "/get/"@),
        !has_suffix(lowered(base), "/get"@),
        escaped(Kept::Unreserved, encode_utf8(uuid)).len() == 0,
    ensures
        endpoints_for(base + "/get/"@, uuid) == seq![base + "/get/"@],
{
    let d = base + "/get"@;
    assert(base + "/get/"@ =~= d + "/"@ && d.len() == base.len() + 4) by {
        reveal_strlit("/get/");
        reveal_strlit("/get");
        reveal_strlit("/");
    }
    assert(d.take(base.len() as int) =~= base);
    lemma_scheme_stays(base, d);
    assert(lowered("/get"@) =~= "/get"@) by {
        reveal_strlit("/get");
    }
    assert(lowered(d) =~= lowered(base) + lowered("/get"@));
    assert(lowered(d).skip(base.len() as int) =~= "/get"@);
    assert(lowered(d).take(base.len() as int) =~= lowered(base));
    lemma_no_get_before(lowered(d), base.len() as int);
    lemma_endpoint_without_id(d, uuid);
}

proof fn lemma_endpoint(base: Seq<char>, uuid: Seq<char>)
    requires
        has_scheme(base),
        contains_text(lowered(base), "/get/"@) ==> !white(base.last()) && base.last() != '/',
    ensures
        endpoints_for(endpoint_at(base, uuid), uuid) == seq![endpoint_at(base, uuid)],
{
    let encoded = escaped(Kept::Unreserved, encode_utf8(uuid));
    if contains_text(lowered(base), "/get/"@) {
        lemma_complete_endpoint(base, uuid);
    } else if encoded.len() > 0 {
        lemma_endpoint_with_id(base, uuid);
    } else if has_suffix(lowered(base), "/get"@) {
        assert(endpoint_at(base, uuid) =~= base + "/"@);
        lemma_endpoint_without_id(base, uuid);
    } else {
        assert(endpoint_at(base, uuid) =~= base + "/get/"@);
        lemma_endpoint_for_nobody(base, uuid);
    }
}

proof fn lemma_scheme_stays(base: Seq<char>, longer: Seq<char>)
    requires
        has_scheme(base),
        base.len() <= longer.len(),
        longer.take(base.len() as int) == base,
    ensures
        has_scheme(longer),
{
    if has_prefix(base, "http://"@) {
        let n = "http://"@.len() as int;
        assert(longer.take(n) =~= base.take(n)) by {
            assert(longer.take(base.len() as int).take(n) =~= longer.take(n));
        }
    } else {
        let n = "https://"@.len() as int;
        assert(longer.take(n) =~= base.take(n)) by {
            assert(longer.take(base.len() as int).take(n) =~= longer.take(n));
        }
    }
}

proof fn lemma_escaped_has_no_slash(b: Seq<u8>)
    ensures
        forall|i: int|
            0 <= i < escaped(Kept::Unreserved, b).len() ==> #[trigger] escaped(
                Kept::Unreserved,
                b,
            )[i] != '/',
    decreases b.len(),
{
    if b.len() > 0 {
        lemma_escaped_has_no_slash(b.skip(1));
        let head = escaped_byte(Kept::Unreserved, b[0]);
        let rest = escaped(Kept::Unreserved, b.skip(1));
        let all = escaped(Kept::Unreserved, b);
        assert forall|i: int| 0 <= i < all.len() implies #[trigger] all[i] != '/' by {
            if i < head.len() {
                assert(all[i] == head[i]);
            } else {
                assert(all[i] == rest[i - head.len()]);
            }
        }
    }
}

proof fn lemma_scheme_has_no_get(scheme: Seq<char>)
    requires
        scheme == "http://"@ || scheme == "https://"@,
    ensures
        !contains_text(lowered(scheme), "/get/"@),
{
    reveal_strlit("http://");
    reveal_strlit("https://");
    reveal_strlit("/get/");
    let low = lowered(scheme);
    if contains_text(low, "/get/"@) {
        let k = choose|k: int| occurs_at(low, "/get/"@, k);
        assert(low.subrange(k, k + 5)[1] == low[k + 1]);
        assert(lower(scheme[k + 1]) == 'g');
    }
}

/// A complete endpoint is asked as it is: the endpoints of an endpoint are that one alone.
/// Left out is an address that is complete already but for white space before the slashes at
/// its end.
pub proof fn endpoint_is_its_own(server_url: Seq<char>, uuid: Seq<char>, k: int)
    requires
        0 <= k < endpoints_for(server_url, uuid).len(),
        contains_text(lowered(bases_for(server_url)[k]), "/get/"@) ==> !white(
            bases_for(server_url)[k].last(),
        ),
    ensures
        endpoints_for(endpoints_for(server_url, uuid)[k], uuid) == seq![
            endpoints_for(server_url, uuid)[k],
        ],
{
    let clean = clean_server(server_url);
    let base = bases_for(server_url)[k];
    reveal_strlit("http://");
    reveal_strlit("https://");
    lemma_trim_end_of(trimmed(server_url), '/');
    assert(endpoints_for(server_url, uuid)[k] == endpoint_at(base, uuid));
    if !has_scheme(clean) {
        let scheme = if base == "https://"@ + clean {
            "https://"@
        } else {
            "http://"@
        };
        assert(base == scheme + clean);
        assert(base.take(scheme.len() as int) =~= scheme);
        if clean.len() == 0 {
            assert(base =~= scheme);
            lemma_scheme_has_no_get(scheme);
        }
    }
    lemma_endpoint(base, uuid);
}

/// The address of the second try, which carries the password itself.
pub open spec fn fallback_for(endpoint: Seq<char>, password: Seq<char>) -> Seq<char> {
    endpoint + if endpoint.contains('?') {
        "&"@
    } else {
        "?"@
    } + "password="@ + escaped(Kept::Unreserved, encode_utf8(password))
}

/// The address of the second try.
pub fn fallback_url(endpoint: &str, password: &str) -> (r: String)
    ensures
        r@ == fallback_for(endpoint@, password@),
{
    let chars: Vec<char> = chars_of(endpoint);
    let marked: bool = find_char(chars.as_slice(), '?') < chars.len();
    proof {
        crate::text::lemma_index_of(endpoint@, '?');
        if endpoint@.contains('?') {
            let k = choose|k: int| 0 <= k < endpoint@.len() && endpoint@[k] == '?';
            assert(endpoint@[k] == '?');
        }
    }
    let mark: &str = if marked {
        "&"
    } else {
        "?"
    };
    endpoint.to_string().concat(mark).concat("password=").concat(
        percent_encode(password).as_str(),
    )
}

/// The parts of what follows the scheme of an address; `standard` is the port where none
/// is given.
pub open spec fn url_parts(secure: bool, rest: Seq<char>, standard: u16) -> Result<
    UrlView,
    Seq<char>,
> {
    let (authority, path) = match cut(rest, '/') {
        Some((authority, path)) => (authority, "/"@ + path),
        None => (rest, "/"@),
    };
    let (host, port) = match rcut(authority, ':') {
        Some((host, port)) => (host, u16_in(port)),
        None => (authority, Some(standard)),
    };
    match port {
        None => Err("CookieCloud 端口格式不正确"@),
        Some(port) => if host.len() == 0 {
            Err("CookieCloud 服务地址缺少主机名"@)
        } else {
            Ok(UrlView { secure, host, port, path })
        },
    }
}

/// The parts of an address.
pub open spec fn http_url_of(url: Seq<char>) -> Result<UrlView, Seq<char>> {
    match after_prefix(url, "https://"@) {
        Some(rest) => url_parts(true, rest, 443),
        None => match after_prefix(url, "http://"@) {
            Some(rest) => url_parts(false, rest, 80),
            None => Err("当前内置同步仅支持 http:// 或 https:// CookieCloud 地址"@),
        },
    }
}

/// What the reading of an address says.
pub open spec fn url_result(r: Result<HttpUrl, String>) -> Result<UrlView, Seq<char>> {
    match r {
        Ok(u) => Ok(u@),
        Err(e) => Err(e@),
    }
}

fn split_url(secure: bool, rest: &[char], standard: u16) -> (r: Result<HttpUrl, String>)
    ensures
        url_result(r) == url_parts(secure, rest@, standard),
{
    let (authority, path): (&[char], String) = match split_once(rest, '/') {
        Some((authority, path)) => (
            authority,
            "/".to_string().concat(string_of(path).as_str()),
        ),
        None => (rest, "/".to_string()),
    };
    let (host, port): (&[char], Option<u16>) = match rsplit_once(authority, ':') {
        Some((host, port)) => (host, parse_u16(port)),
        None => (authority, Some(standard)),
    };
    match port {
        None => Err("CookieCloud 端口格式不正确".to_string()),
        Some(port) => if host.len() == 0 {
            Err("CookieCloud 服务地址缺少主机名".to_string())
        } else {
            Ok(HttpUrl { secure, host: string_of(host), port, path })
        },
    }
}

/// The parts of an address.
pub fn parse_http_url(url: &str) -> (r: Result<HttpUrl, String>)
    ensures
        url_result(r) == http_url_of(url@),
{
    let chars: Vec<char> = chars_of(url);
    match strip_prefix(chars.as_slice(), "https://") {
        Some(rest) => split_url(true, rest, 443),
        None => match strip_prefix(chars.as_slice(), "http://") {
            Some(rest) => split_url(false, rest, 80),
            None => Err("当前内置同步仅支持 http:// 或 https:// CookieCloud 地址".to_string()),
        },
    }
}

/// The request of a method on an address with a body.
pub fn http_request_text(url: &HttpUrl, method: &str, body: &str) -> (r: String)
    ensures
        r@ == method@ + " "@ + url.path@ + " HTTP/1.1\r\nHost: "@ + url.host@
            + "\r\nContent-Type: application/json\r\nContent-Length: "@ + decimal(
            encode_utf8(body@).len(),
        ) + "\r\nConnection: close\r\n\r\n"@ + body@,
{
    let length: usize = body.as_bytes().len();
    method.to_string().concat(" ").concat(url.path.as_str()).concat(" HTTP/1.1\r\nHost: ").concat(
        url.host.as_str(),
    ).concat("\r\nContent-Type: application/json\r\nContent-Length: ").concat(
        decimal_of(length as u64).as_str(),
    ).concat("\r\nConnection: close\r\n\r\n").concat(body)
}

/// What is reported of a failed connection.
pub open spec fn network_error(message: Seq<char>) -> Seq<char> {
    if contains_text(message, "10061"@) || contains_text(message, "积极拒绝"@) {
        "目标地址没有 CookieCloud 服务在监听"@
    } else {
        message
    }
}

/// What is reported of a failed connection.
pub fn readable_network_error(message: &str) -> (r: String)
    ensures
        r@ == network_error(message@),
{
    let chars: Vec<char> = chars_of(message);
    if contains_str(chars.as_slice(), "10061") || contains_str(chars.as_slice(), "积极拒绝") {
        "目标地址没有 CookieCloud 服务在监听".to_string()
    } else {
        message.to_string()
    }
}

// ---------------------------------------------------------------- the response

/// A longer response is refused.
pub const MAX_COOKIECLOUD_RESPONSE_BYTES: usize = 8388608;

/// Takes in another piece of a response, as long as it is not too long.
pub fn take_piece(raw: &mut Vec<u8>, piece: &[u8]) -> (r: Result<(), String>)
    ensures
        final(raw)@ == old(raw)@ + piece@,
        r is Ok <==> final(raw)@.len() <= MAX_COOKIECLOUD_RESPONSE_BYTES,
        r matches Err(e) ==> e@ == "CookieCloud 响应过大，已停止读取"@,
{
    raw.extend_from_slice(piece);
    assert(raw@ =~= old(raw)@ + piece@);
    if raw.len() > MAX_COOKIECLOUD_RESPONSE_BYTES {
        Err("CookieCloud 响应过大，已停止读取".to_string())
    } else {
        Ok(())
    }
}

/// A line break.
pub open spec fn line_break() -> Seq<u8> {
    seq![13u8, 10u8]
}

fn crlf() -> (r: Vec<u8>)
    ensures
        r@ == line_break(),
{
    let mut v: Vec<u8> = Vec::new();
    v.push(13);
    v.push(10);
    assert(v@ =~= line_break());
    v
}

fn empty_line() -> (r: Vec<u8>)
    ensures
        r@ == blank_line(),
{
    let mut v: Vec<u8> = Vec::new();
    v.push(13);
    v.push(10);
    v.push(13);
    v.push(10);
    assert(v@ =~= blank_line());
    v
}

/// The size in the first line of a chunk.
pub open spec fn chunk_size(line: Seq<char>) -> Option<usize> {
    usize_in(
        trimmed(
            match cut(line, ';') {
                Some((size, _)) => size,
                None => line,
            },
        ),
        16,
    )
}

fn read_chunk_size(line: &[char]) -> (r: Option<usize>)
    ensures
        r == chunk_size(line@),
{
    let size: &[char] = match split_once(line, ';') {
        Some((size, _)) => size,
        None => line,
    };
    parse_usize(trim(size), 16)
}

/// The data of a body that is sent in chunks.
pub open spec fn dechunked(b: Seq<u8>) -> Result<Seq<u8>, Seq<char>>
    decreases b.len(),
{
    proof {
        crate::bytes::lemma_bytes_from(b, line_break(), 0);
    }
    match bytes_from(b, line_break(), 0) {
        None => Err("CookieCloud 分块响应格式不完整"@),
        Some(end) => match chunk_size(lossy_decoded(b.take(end))) {
            None => Err("CookieCloud 分块大小格式不正确"@),
            Some(size) => {
                let data = b.skip(end + 2);
                if size == 0 {
                    Ok(Seq::empty())
                } else if size > data.len() {
                    Err("CookieCloud 分块响应长度不完整"@)
                } else if size + 2 > data.len() {
                    Err("CookieCloud 分块响应结尾不完整"@)
                } else {
                    match dechunked(data.skip(size + 2)) {
                        Ok(rest) => Ok(data.take(size as int) + rest),
                        Err(e) => Err(e),
                    }
                }
            },
        },
    }
}

/// What a decoding says.
pub open spec fn bytes_result(r: Result<Vec<u8>, String>) -> Result<Seq<u8>, Seq<char>> {
    match r {
        Ok(b) => Ok(b@),
        Err(e) => Err(e@),
    }
}

/// What is decoded before a decoding of the rest, together with it.
pub open spec fn joined_bytes(done: Seq<u8>, rest: Result<Seq<u8>, Seq<char>>) -> Result<
    Seq<u8>,
    Seq<char>,
> {
    match rest {
        Ok(more) => Ok(done + more),
        Err(e) => Err(e),
    }
}

/// The data of a body that is sent in chunks.
pub fn decode_chunked_body(body: &[u8]) -> (r: Result<Vec<u8>, String>)
    ensures
        bytes_result(r) == dechunked(body@),
{
    let n: usize = body.len();
    let mark: Vec<u8> = crlf();
    let mut decoded: Vec<u8> = Vec::new();
    let mut rest: &[u8] = body;
    assert(joined_bytes(decoded@, dechunked(rest@)) == dechunked(body@)) by {
        if let Ok(b) = dechunked(body@) {
            assert(decoded@ + b =~= b);
        }
    }
    loop
        invariant
            mark@ == line_break(),
            joined_bytes(decoded@, dechunked(rest@)) == dechunked(body@),
        decreases rest@.len(),
    {
        let len: usize = rest.len();
        proof {
            crate::bytes::lemma_bytes_from(rest@, line_break(), 0);
        }
        let end: usize = match find_bytes(rest, mark.as_slice(), 0) {
            Some(end) => end,
            None => return Err("CookieCloud 分块响应格式不完整".to_string()),
        };
        assert(rest@.subrange(0, end as int) =~= rest@.take(end as int));
        let line: String = lossy_text(&rest[0..end]);
        let line_chars: Vec<char> = chars_of(line.as_str());
        let size: usize = match read_chunk_size(line_chars.as_slice()) {
            Some(size) => size,
            None => return Err("CookieCloud 分块大小格式不正确".to_string()),
        };
        let start: usize = end + 2;
        let left: usize = len - start;
        if size == 0 {
            assert(decoded@ + Seq::<u8>::empty() =~= decoded@);
            return Ok(decoded);
        }
        if size > left {
            return Err("CookieCloud 分块响应长度不完整".to_string());
        }
        if left - size < 2 {
            return Err("CookieCloud 分块响应结尾不完整".to_string());
        }
        let ghost before = decoded@;
        let ghost data = rest@.skip(start as int);
        assert(rest@.subrange(start as int, start + size) =~= data.take(size as int));
        decoded.extend_from_slice(&rest[start..start + size]);
        assert(decoded@ =~= before + data.take(size as int));
        assert(rest@.subrange(start + size + 2, len as int) =~= data.skip(size + 2));
        rest = &rest[start + size + 2..len];
        assert(joined_bytes(decoded@, dechunked(rest@)) == dechunked(body@)) by {
            if let Ok(more) = dechunked(rest@) {
                assert(decoded@ + more =~= before + (data.take(size as int) + more));
            }
        }
    }
}

/// A chunk is taken off the front of a body: its data come first, and what follows it is
/// decoded on its own.
pub proof fn chunk_is_taken_off(line: Seq<u8>, data: Seq<u8>, rest: Seq<u8>)
    requires
        bytes_from(line + line_break(), line_break(), 0) == Some(line.len() as int),
        chunk_size(lossy_decoded(line)) == Some(data.len() as usize),
        0 < data.len() <= usize::MAX,
    ensures
        dechunked(line + line_break() + data + line_break() + rest) == joined_bytes(
            data,
            dechunked(rest),
        ),
{
    let b = line + line_break() + data + line_break() + rest;
    let head = line + line_break();
    crate::bytes::lemma_bytes_from(head, line_break(), 0);
    assert(b.subrange(line.len() as int, line.len() as int + 2) =~= line_break());
    assert forall|j: int| 0 <= j < line.len() implies !crate::bytes::bytes_at(
        b,
        line_break(),
        j,
    ) by {
        assert(!crate::bytes::bytes_at(head, line_break(), j));
        if crate::bytes::bytes_at(b, line_break(), j) {
            assert(head.subrange(j, j + 2) =~= b.subrange(j, j + 2));
        }
    }
    crate::bytes::lemma_bytes_from_is(b, line_break(), 0, line.len() as int);
    assert(b.take(line.len() as int) =~= line);
    let after = b.skip(line.len() as int + 2);
    assert(after.take(data.len() as int) =~= data);
    assert(after.skip(data.len() as int + 2) =~= rest);
}

/// A response of the server.
#[derive(Debug)]
pub struct RawHttpResponse {
    pub status: u16,
    pub body: String,
}

/// A header line that announces chunks.
pub open spec fn announces_chunks(line: Seq<char>) -> bool {
    has_prefix(lowered(line), "transfer-encoding: chunked"@)
}

/// Whether the body of a response is sent in chunks.
pub open spec fn is_chunked(head: Seq<char>) -> bool {
    exists|i: int| 0 <= i < lines_of(head).len() && announces_chunks(#[trigger] lines_of(head)[i])
}

fn sends_chunks(head: &[char]) -> (r: bool)
    ensures
        r == is_chunked(head@),
{
    let all: Vec<&[char]> = lines(head);
    let mut i: usize = 0;
    while i < all.len()
        invariant
            i <= all@.len(),
            pieces(all@) == lines_of(head@),
            forall|k: int| 0 <= k < i ==> !announces_chunks(#[trigger] lines_of(head@)[k]),
        decreases all@.len() - i,
    {
        assert(pieces(all@)[i as int] == all@[i as int]@);
        let lower: Vec<char> = to_lower(all[i]);
        if starts_with_str(lower.as_slice(), "transfer-encoding: chunked") {
            return true;
        }
        i = i + 1;
    }
    assert(pieces(all@).len() == all@.len());
    false
}

/// The status and the text of a response.
pub open spec fn response_in(raw: Seq<u8>) -> Result<(u16, Seq<char>), Seq<char>> {
    match bytes_from(raw, blank_line(), 0) {
        None => Err("CookieCloud 返回了无效 HTTP 响应"@),
        Some(k) => {
            let head = lossy_decoded(raw.take(k));
            let body = raw.skip(k + 4);
            match status_in(head) {
                None => Err("CookieCloud 返回了无效 HTTP 状态"@),
                Some(status) => match if is_chunked(head) {
                    dechunked(body)
                } else {
                    Ok(body)
                } {
                    Err(e) => Err(e),
                    Ok(data) => match utf8_text(data) {
                        Ok(t) => Ok((status, t)),
                        Err(e) => Err(e),
                    },
                },
            }
        },
    }
}

/// What the reading of a response says.
pub open spec fn response_result(r: Result<RawHttpResponse, String>) -> Result<
    (u16, Seq<char>),
    Seq<char>,
> {
    match r {
        Ok(x) => Ok((x.status, x.body@)),
        Err(e) => Err(e@),
    }
}

/// The status and the text of a response.
pub fn parse_http_response(raw: &Vec<u8>) -> (r: Result<RawHttpResponse, String>)
    ensures
        response_result(r) == response_in(raw@),
{
    let mark: Vec<u8> = empty_line();
    let n: usize = raw.len();
    let k: usize = match find_bytes(raw.as_slice(), mark.as_slice(), 0) {
        Some(k) => k,
        None => return Err("CookieCloud 返回了无效 HTTP 响应".to_string()),
    };
    proof {
        crate::bytes::lemma_bytes_from(raw@, blank_line(), 0);
    }
    let bytes: &[u8] = raw.as_slice();
    assert(bytes@.subrange(0, k as int) =~= raw@.take(k as int));
    assert(bytes@.subrange(k + 4, n as int) =~= raw@.skip(k + 4));
    let head: String = lossy_text(&bytes[0..k]);
    let head_chars: Vec<char> = chars_of(head.as_str());
    let status: u16 = match find_status(head_chars.as_slice()) {
        Some(status) => status,
        None => return Err("CookieCloud 返回了无效 HTTP 状态".to_string()),
    };
    let data: &[u8] = &bytes[k + 4..n];
    let body: Vec<u8> = if sends_chunks(head_chars.as_slice()) {
        match decode_chunked_body(data) {
            Ok(body) => body,
            Err(e) => return Err(e),
        }
    } else {
        let mut copy: Vec<u8> = Vec::new();
        copy.extend_from_slice(data);
        assert(copy@ =~= data@);
        copy
    };
    match text_of_bytes(body) {
        Ok(body) => Ok(RawHttpResponse { status, body }),
        Err(e) => Err(e),
    }
}

// ---------------------------------------------------------------- the payload

/// The structure in a reply; a text in it is read once more.
pub open spec fn payload_in(text: Seq<char>) -> Result<JsonView, Seq<char>> {
    match parsed_json(text) {
        Err(e) => Err("CookieCloud 返回 JSON 解析失败："@ + e),
        Ok(v) => match v.text() {
            None => Ok(v),
            Some(inner) => match parsed_json(inner) {
                Err(e) => Err("CookieCloud 内层 JSON 解析失败："@ + e),
                Ok(w) => Ok(w),
            },
        },
    }
}

/// What the reading of a payload says.
pub open spec fn value_result(r: Result<serde_json::Value, String>) -> Result<JsonView, Seq<char>> {
    match r {
        Ok(v) => Ok(value_model(v)),
        Err(e) => Err(e@),
    }
}

/// The structure in a reply; a text in it is read once more.
pub fn parse_payload(text: &str) -> (r: Result<serde_json::Value, String>)
    ensures
        value_result(r) == payload_in(text@),
{
    let outer: serde_json::Value = match parse_value(text) {
        Ok(v) => v,
        Err(e) => return Err("CookieCloud 返回 JSON 解析失败：".to_string().concat(e.as_str())),
    };
    let json: Json = json_of_value(&outer);
    match json.as_str() {
        None => Ok(outer),
        Some(inner) => match parse_value(inner) {
            Ok(v) => Ok(v),
            Err(e) => Err("CookieCloud 内层 JSON 解析失败：".to_string().concat(e.as_str())),
        },
    }
}

/// The structure of an optional value.
pub open spec fn owned_value(v: Option<serde_json::Value>) -> Option<JsonView> {
    match v {
        Some(x) => Some(value_model(x)),
        None => None,
    }
}

/// What a payload holds.
#[derive(Debug)]
pub enum Payload {
    /// The cookies, and the data of the pages' storages where there are any.
    Data { cookies: serde_json::Value, storages: Option<serde_json::Value> },
    Encrypted,
    Missing,
}

/// What a `Payload` says.
pub enum PayloadView {
    Data { cookies: JsonView, storages: Option<JsonView> },
    Encrypted,
    Missing,
}

impl View for Payload {
    type V = PayloadView;

    open spec fn view(&self) -> PayloadView {
        match *self {
            Payload::Data { cookies, storages } => PayloadView::Data {
                cookies: value_model(cookies),
                storages: owned_value(storages),
            },
            Payload::Encrypted => PayloadView::Encrypted,
            Payload::Missing => PayloadView::Missing,
        }
    }
}

/// What a payload holds.
pub open spec fn payload_content(v: JsonView) -> PayloadView {
    match v.at("cookie_data"@) {
        Some(cookies) => PayloadView::Data { cookies, storages: v.at("local_storage_data"@) },
        None => if v.at("encrypted"@) is Some {
            PayloadView::Encrypted
        } else {
            PayloadView::Missing
        },
    }
}

/// What a payload holds.
pub fn content_of(payload: &serde_json::Value) -> (r: Payload)
    ensures
        r@ == payload_content(value_model(*payload)),
{
    match find_value(payload, "cookie_data") {
        Some(cookies) => Payload::Data {
            cookies: copy_value(cookies),
            storages: match find_value(payload, "local_storage_data") {
                Some(storages) => Some(copy_value(storages)),
                None => None,
            },
        },
        None => if find_value(payload, "encrypted").is_some() {
            Payload::Encrypted
        } else {
            Payload::Missing
        },
    }
}

/// The cookies and the data of the pages' storages in what is handed over: those of a whole
/// payload, and else all of it as cookies.
pub open spec fn data_in(v: JsonView) -> (JsonView, Option<JsonView>) {
    match payload_content(v) {
        PayloadView::Data { cookies, storages } => (cookies, storages),
        _ => (v, None),
    }
}

/// The cookies and the data of the pages' storages in what is handed over.
pub fn handed_data(value: serde_json::Value) -> (r: (
    serde_json::Value,
    Option<serde_json::Value>,
))
    ensures
        (value_model(r.0), owned_value(r.1)) == data_in(value_model(value)),
{
    match content_of(&value) {
        Payload::Data { cookies, storages } => (cookies, storages),
        _ => (value, None),
    }
}

// ---------------------------------------------------------------- fetching

/// The text with the id of the user hidden.
pub fn mask_uuid(value: &str, uuid: &str) -> (r: String)
    requires
        uuid@.len() > 0,
    ensures
        r@ == replaced(value@, uuid@, "<uuid>"@),
{
    let chars: Vec<char> = chars_of(value);
    replace(chars.as_slice(), uuid, "<uuid>")
}

/// How far a fetch has come.
#[derive(Debug, Clone, Copy, PartialEq, Eq, Structural)]
pub enum FetchPhase {
    /// The password is sent in the body.
    Posting,
    /// The password is sent in the address.
    Getting,
    Done,
}

/// A fetch of the data of a user.
#[derive(Debug)]
pub struct Fetch {
    /// The places at which the server is asked, in order.
    pub endpoints: Vec<String>,
    /// Which of the places is reached.
    pub at: usize,
    pub uuid: String,
    pub password: String,
    pub phase: FetchPhase,
}

/// What a `Fetch` says.
pub struct FetchModel {
    pub endpoints: Seq<Seq<char>>,
    pub at: usize,
    pub uuid: Seq<char>,
    pub password: Seq<char>,
    pub phase: FetchPhase,
}

impl View for Fetch {
    type V = FetchModel;

    open spec fn view(&self) -> FetchModel {
        FetchModel {
            endpoints: texts(self.endpoints@),
            at: self.at,
            uuid: self.uuid@,
            password: self.password@,
            phase: self.phase,
        }
    }
}

/// What is to be done next.
#[derive(Debug)]
pub enum FetchAction {
    /// Send the password in the body to an address.
    Post(String),
    /// Ask at an address.
    Get(String),
    /// The cookies, and the data of the pages' storages where there are any.
    Data { cookies: serde_json::Value, storages: Option<serde_json::Value> },
    Failed(String),
    /// There is nothing to be done any more.
    Nothing,
}

/// What a `FetchAction` says.
pub enum FetchView {
    Post(Seq<char>),
    Get(Seq<char>),
    Data { cookies: JsonView, storages: Option<JsonView> },
    Failed(Seq<char>),
    Nothing,
}

impl View for FetchAction {
    type V = FetchView;

    open spec fn view(&self) -> FetchView {
        match *self {
            FetchAction::Post(t) => FetchView::Post(t@),
            FetchAction::Get(t) => FetchView::Get(t@),
            FetchAction::Data { cookies, storages } => FetchView::Data {
                cookies: value_model(cookies),
                storages: owned_value(storages),
            },
            FetchAction::Failed(t) => FetchView::Failed(t@),
            FetchAction::Nothing => FetchView::Nothing,
        }
    }
}

/// Whether the settings say where to fetch from.
pub open spec fn fetch_is_configured(server_url: Seq<char>, uuid: Seq<char>, password: Seq<char>) -> bool {
    trimmed(server_url).len() > 0 && trimmed(uuid).len() > 0 && password.len() > 0
}

/// What is reported where no endpoint gave data.
pub open spec fn fetch_error(endpoint: Seq<char>, uuid: Seq<char>, detail: Seq<char>) -> Seq<char> {
    "CookieCloud 无法连接，请确认服务地址和协议是否与浏览器插件一致。最近一次错误："@ + (replaced(
        endpoint,
        uuid,
        "<uuid>"@,
    ) + "："@ + detail)
}

impl FetchModel {
    pub open spec fn step(self, phase: FetchPhase) -> FetchModel {
        FetchModel { phase, ..self }
    }

    /// The place that is reached.
    pub open spec fn endpoint(self) -> Seq<char> {
        self.endpoints[self.at as int]
    }

    /// A place is reached, and there is a user.
    pub open spec fn well_formed(self) -> bool {
        self.at < self.endpoints.len() <= usize::MAX && self.uuid.len() > 0
    }

    /// What a place that gives no data leads to: the next place is asked, and after the last
    /// one its error is reported.
    pub open spec fn failed(self, detail: Seq<char>) -> (FetchModel, FetchView) {
        if self.at + 1 < self.endpoints.len() {
            (
                FetchModel {
                    at: (self.at + 1) as usize,
                    phase: FetchPhase::Posting,
                    ..self
                },
                FetchView::Post(self.endpoints[self.at + 1]),
            )
        } else {
            (
                self.step(FetchPhase::Done),
                FetchView::Failed(fetch_error(self.endpoint(), self.uuid, detail)),
            )
        }
    }

    /// What a reply with a status of success leads to.
    pub open spec fn answered(self, body: Seq<char>) -> (FetchModel, FetchView) {
        match payload_in(body) {
            Err(e) => self.failed(e),
            Ok(v) => match payload_content(v) {
                PayloadView::Data { cookies, storages } => (
                    self.step(FetchPhase::Done),
                    FetchView::Data { cookies, storages },
                ),
                PayloadView::Encrypted => (
                    self.step(FetchPhase::Done),
                    FetchView::Failed(
                        "CookieCloud 服务端返回了密文，请确认服务端支持 password 解密接口"@,
                    ),
                ),
                PayloadView::Missing => self.failed("返回数据缺少 cookie_data"@),
            },
        }
    }

    /// What a response leads to: a second try at a place follows only a reply without
    /// success.
    pub open spec fn next(self, response: Result<(u16, Seq<char>), Seq<char>>) -> (
        FetchModel,
        FetchView,
    ) {
        match (self.phase, response) {
            (FetchPhase::Done, _) => (self, FetchView::Nothing),
            (_, Err(e)) => self.failed(e),
            (FetchPhase::Posting, Ok((status, body))) => if is_success_status(status) {
                self.answered(body)
            } else {
                (
                    self.step(FetchPhase::Getting),
                    FetchView::Get(fallback_for(self.endpoint(), self.password)),
                )
            },
            (FetchPhase::Getting, Ok((status, body))) => if is_success_status(status) {
                self.answered(body)
            } else {
                self.failed("HTTP "@ + decimal(status as nat))
            },
        }
    }

    /// How many requests can still follow.
    pub open spec fn requests_left(self) -> int {
        match self.phase {
            FetchPhase::Posting => 2 * (self.endpoints.len() - self.at),
            FetchPhase::Getting => 2 * (self.endpoints.len() - self.at) - 1,
            FetchPhase::Done => 0,
        }
    }
}

/// What the start of a fetch says.
pub open spec fn fetch_start(r: Result<(Fetch, FetchAction), String>) -> Result<
    (FetchModel, FetchView),
    Seq<char>,
> {
    match r {
        Ok(x) => Ok((x.0@, x.1@)),
        Err(e) => Err(e@),
    }
}

impl Fetch {
    /// A fetch and what to do first.
    pub fn begin(config: &CookieCloudConfig) -> (r: Result<(Fetch, FetchAction), String>)
        ensures
            fetch_start(r) == if fetch_is_configured(
                config.server_url@,
                config.uuid@,
                config.password@,
            ) {
                let endpoints = endpoints_for(trimmed(config.server_url@), trimmed(config.uuid@));
                Ok(
                    (
                        FetchModel {
                            endpoints,
                            at: 0,
                            uuid: trimmed(config.uuid@),
                            password: config.password@,
                            phase: FetchPhase::Posting,
                        },
                        FetchView::Post(endpoints[0]),
                    ),
                )
            } else {
                Err("请先填写 CookieCloud 地址、UUID 和密码"@)
            },
            r matches Ok(x) ==> x.0@.well_formed(),
    {
        let url_chars: Vec<char> = chars_of(config.server_url.as_str());
        let uuid_chars: Vec<char> = chars_of(config.uuid.as_str());
        let url: &[char] = trim(url_chars.as_slice());
        let uuid: &[char] = trim(uuid_chars.as_slice());
        if url.len() == 0 || uuid.len() == 0 || config.password.as_str().is_empty() {
            return Err("请先填写 CookieCloud 地址、UUID 和密码".to_string());
        }
        let user: String = string_of(uuid);
        let endpoints: Vec<String> = build_endpoint_candidates(
            string_of(url).as_str(),
            user.as_str(),
        );
        assert(texts(endpoints@).len() == endpoints@.len());
        assert(texts(endpoints@)[0] == endpoints@[0]@);
        let first: FetchAction = FetchAction::Post(endpoints[0].clone());
        Ok(
            (
                Fetch {
                    endpoints,
                    at: 0,
                    uuid: user,
                    password: config.password.clone(),
                    phase: FetchPhase::Posting,
                },
                first,
            ),
        )
    }

    fn failed(&mut self, detail: &str) -> (r: FetchAction)
        requires
            old(self)@.well_formed(),
        ensures
            (final(self)@, r@) == old(self)@.failed(detail@),
            final(self)@.well_formed(),
    {
        assert(texts(self.endpoints@).len() == self.endpoints@.len());
        if self.at + 1 < self.endpoints.len() {
            self.at = self.at + 1;
            self.phase = FetchPhase::Posting;
            assert(texts(self.endpoints@)[self.at as int] == self.endpoints@[self.at as int]@);
            return FetchAction::Post(self.endpoints[self.at].clone());
        }
        self.phase = FetchPhase::Done;
        assert(texts(self.endpoints@)[self.at as int] == self.endpoints@[self.at as int]@);
        FetchAction::Failed(
            "CookieCloud 无法连接，请确认服务地址和协议是否与浏览器插件一致。最近一次错误：".to_string().concat(
                mask_uuid(self.endpoints[self.at].as_str(), self.uuid.as_str()).concat("：").concat(
                    detail,
                ).as_str(),
            ),
        )
    }

    fn answered(&mut self, body: &str) -> (r: FetchAction)
        requires
            old(self)@.well_formed(),
        ensures
            (final(self)@, r@) == old(self)@.answered(body@),
            final(self)@.well_formed(),
    {
        match parse_payload(body) {
            Err(e) => self.failed(e.as_str()),
            Ok(v) => match content_of(&v) {
                Payload::Data { cookies, storages } => {
                    self.phase = FetchPhase::Done;
                    FetchAction::Data { cookies, storages }
                },
                Payload::Encrypted => {
                    self.phase = FetchPhase::Done;
                    FetchAction::Failed(
                        "CookieCloud 服务端返回了密文，请确认服务端支持 password 解密接口".to_string(),
                    )
                },
                Payload::Missing => self.failed("返回数据缺少 cookie_data"),
            },
        }
    }

    /// Takes in a response and tells what to do next.
    pub fn advance(&mut self, response: &Result<RawHttpResponse, String>) -> (r: FetchAction)
        requires
            old(self)@.well_formed(),
        ensures
            (final(self)@, r@) == old(self)@.next(response_result(*response)),
            final(self)@.well_formed(),
    {
        match self.phase {
            FetchPhase::Done => FetchAction::Nothing,
            FetchPhase::Posting => match response {
                Err(e) => self.failed(e.as_str()),
                Ok(x) => if is_success(x.status) {
                    self.answered(x.body.as_str())
                } else {
                    assert(texts(self.endpoints@)[self.at as int]
                        == self.endpoints@[self.at as int]@);
                    self.phase = FetchPhase::Getting;
                    FetchAction::Get(
                        fallback_url(self.endpoints[self.at].as_str(), self.password.as_str()),
                    )
                },
            },
            FetchPhase::Getting => match response {
                Err(e) => self.failed(e.as_str()),
                Ok(x) => if is_success(x.status) {
                    self.answered(x.body.as_str())
                } else {
                    self.failed(
                        "HTTP ".to_string().concat(decimal_of(x.status as u64).as_str()).as_str(),
                    )
                },
            },
        }
    }
}

/// Every response takes a fetch further: it ends, and no place is asked more than twice.
pub proof fn fetch_ends(s: FetchModel, response: Result<(u16, Seq<char>), Seq<char>>)
    requires
        s.well_formed(),
        s.phase != FetchPhase::Done,
    ensures
        s.next(response).0.well_formed(),
        0 <= s.next(response).0.requests_left() < s.requests_left() <= 2 * s.endpoints.len(),
{
}

/// After two responses at a place the fetch has ended or gone on to a later place.
pub proof fn fetch_asks_at_most_twice(
    s: FetchModel,
    first: Result<(u16, Seq<char>), Seq<char>>,
    second: Result<(u16, Seq<char>), Seq<char>>,
)
    requires
        s.phase == FetchPhase::Posting,
        s.endpoints.len() <= usize::MAX,
    ensures
        ({
            let t = s.next(first).0.next(second).0;
            t.phase == FetchPhase::Done || t.at > s.at
        }),
{
}

/// A place that cannot be reached is followed by the next one; only after the last one is
/// the failure reported.
pub proof fn every_place_is_tried(s: FetchModel, error: Seq<char>)
    requires
        s.well_formed(),
        s.phase != FetchPhase::Done,
    ensures
        s.at + 1 < s.endpoints.len() ==> s.next(Err(error)).1 == FetchView::Post(
            s.endpoints[s.at + 1],
        ) && s.next(Err(error)).0.at == s.at + 1,
        s.at + 1 == s.endpoints.len() ==> s.next(Err(error)).1 == FetchView::Failed(
            fetch_error(s.endpoint(), s.uuid, error),
        ),
{
}

/// The password stands in an address only after the server refused it in a body.
pub proof fn password_is_posted_first(
    s: FetchModel,
    response: Result<(u16, Seq<char>), Seq<char>>,
)
    requires
        s.next(response).1 is Get,
    ensures
        s.phase == FetchPhase::Posting,
        response matches Ok(x) && !is_success_status(x.0),
{
}

// ---------------------------------------------------------------- cookies

/// A cookie as the server keeps it. The moment at which it expires is carried through as
/// it came, by its bits.
#[derive(Debug)]
pub struct CookieCloudCookie {
    pub name: String,
    pub value: String,
    pub domain: Option<String>,
    pub host_only: Option<bool>,
    pub path: Option<String>,
    pub secure: Option<bool>,
    pub http_only: Option<bool>,
    pub expiration_date: Option<u64>,
    pub same_site: Option<String>,
}

/// What a `CookieCloudCookie` says.
pub struct CloudCookieView {
    pub name: Seq<char>,
    pub value: Seq<char>,
    pub domain: Option<Seq<char>>,
    pub host_only: Option<bool>,
    pub path: Option<Seq<char>>,
    pub secure: Option<bool>,
    pub http_only: Option<bool>,
    pub expiration_date: Option<u64>,
    pub same_site: Option<Seq<char>>,
}

impl View for CookieCloudCookie {
    type V = CloudCookieView;

    open spec fn view(&self) -> CloudCookieView {
        CloudCookieView {
            name: self.name@,
            value: self.value@,
            domain: opt_text(self.domain),
            host_only: self.host_only,
            path: opt_text(self.path),
            secure: self.secure,
            http_only: self.http_only,
            expiration_date: self.expiration_date,
            same_site: opt_text(self.same_site),
        }
    }
}

/// A domain without the dots in front of it.
pub open spec fn bare_domain(domain: Seq<char>) -> Seq<char> {
    trim_start_of(trimmed(domain), '.')
}

/// Whether the cookies of a domain go to a host: the domain is the host or a part of its
/// end.
pub open spec fn domain_covers(site_host: Seq<char>, cookie_domain: Seq<char>) -> bool {
    let d = lowered(bare_domain(cookie_domain));
    d.len() > 0 && (site_host == d || has_suffix(site_host, "."@ + d))
}

/// Whether the cookies of a domain go to a host.
pub fn domain_matches(site_host: &str, cookie_domain: &str) -> (r: bool)
    ensures
        r == domain_covers(site_host@, cookie_domain@),
{
    let chars: Vec<char> = chars_of(cookie_domain);
    let bare: &[char] = trim_start_char(trim(chars.as_slice()), '.');
    let d: Vec<char> = to_lower(bare);
    if d.len() == 0 {
        return false;
    }
    let host: Vec<char> = chars_of(site_host);
    if chars_eq(host.as_slice(), d.as_slice()) {
        return true;
    }
    let suffix: String = ".".to_string().concat(string_of(d.as_slice()).as_str());
    let suffix_chars: Vec<char> = chars_of(suffix.as_str());
    ends_with(host.as_slice(), suffix_chars.as_slice())
}

/// The address for which a cookie is set.
pub open spec fn cookie_address(domain: Seq<char>, secure: bool, path: Option<Seq<char>>) -> Option<
    Seq<char>,
> {
    if bare_domain(domain).len() == 0 {
        None
    } else {
        Some(
            if secure {
                "https"@
            } else {
                "http"@
            } + "://"@ + bare_domain(domain) + match path {
                Some(p) => p,
                None => "/"@,
            },
        )
    }
}

/// The address for which a cookie is set.
pub fn cookie_url(domain: &str, secure: bool, path: &Option<String>) -> (r: Option<String>)
    ensures
        opt_text(r) == cookie_address(domain@, secure, opt_text(*path)),
{
    let chars: Vec<char> = chars_of(domain);
    let bare: &[char] = trim_start_char(trim(chars.as_slice()), '.');
    if bare.len() == 0 {
        return None;
    }
    let scheme: &str = if secure {
        "https"
    } else {
        "http"
    };
    let place: String = scheme.to_string().concat("://").concat(string_of(bare).as_str());
    match path {
        Some(p) => Some(place.concat(p.as_str())),
        None => Some(place.concat("/")),
    }
}

/// The browser's word for where a cookie is sent.
pub open spec fn same_site_word(value: Option<Seq<char>>) -> Option<Seq<char>> {
    match value {
        None => None,
        Some(v) => {
            let w = lowered(v);
            if w == "lax"@ {
                Some("Lax"@)
            } else if w == "strict"@ {
                Some("Strict"@)
            } else if w == "none"@ || w == "no_restriction"@ {
                Some("None"@)
            } else {
                None
            }
        },
    }
}

/// The browser's word for where a cookie is sent.
pub fn normalize_same_site(value: &Option<String>) -> (r: Option<String>)
    ensures
        opt_text(r) == same_site_word(opt_text(*value)),
{
    match value {
        None => None,
        Some(v) => {
            let chars: Vec<char> = chars_of(v.as_str());
            let w: String = string_of(to_lower(chars.as_slice()).as_slice());
            if str_eq(w.as_str(), "lax") {
                Some("Lax".to_string())
            } else if str_eq(w.as_str(), "strict") {
                Some("Strict".to_string())
            } else if str_eq(w.as_str(), "none") || str_eq(w.as_str(), "no_restriction") {
                Some("None".to_string())
            } else {
                None
            }
        },
    }
}

/// The hosts of the sites.
pub open spec fn hosts_of(sites: Seq<SiteView>) -> Seq<Seq<char>>
    decreases sites.len(),
{
    if sites.len() == 0 {
        Seq::empty()
    } else {
        let rest = hosts_of(sites.drop_last());
        match url_host(sites.last().url) {
            Some(h) => rest.push(h),
            None => rest,
        }
    }
}

fn site_hosts(sites: &Vec<Site>) -> (r: Vec<String>)
    ensures
        texts(r@) == hosts_of(site_views(sites@)),
{
    let ghost all = site_views(sites@);
    let mut out: Vec<String> = Vec::new();
    let mut i: usize = 0;
    assert(all.take(0) =~= Seq::<SiteView>::empty());
    assert(texts(out@) =~= Seq::<Seq<char>>::empty());
    while i < sites.len()
        invariant
            i <= sites@.len(),
            all == site_views(sites@),
            texts(out@) == hosts_of(all.take(i as int)),
        decreases sites@.len() - i,
    {
        assert(all.take(i + 1).drop_last() =~= all.take(i as int));
        assert(all.take(i + 1).last() == sites@[i as int]@);
        if let Some(h) = host_from_url(sites[i].url.as_str()) {
            push_text(&mut out, h);
        }
        i = i + 1;
    }
    assert(all.take(i as int) =~= all);
    out
}

/// Whether the cookies of a domain go to one of the hosts.
pub open spec fn covers_any(hosts: Seq<Seq<char>>, domain: Seq<char>) -> bool {
    exists|i: int| 0 <= i < hosts.len() && domain_covers(#[trigger] hosts[i], domain)
}

fn matches_any(hosts: &Vec<String>, domain: &str) -> (r: bool)
    ensures
        r == covers_any(texts(hosts@), domain@),
{
    let mut i: usize = 0;
    while i < hosts.len()
        invariant
            i <= hosts@.len(),
            forall|k: int| 0 <= k < i ==> !domain_covers(#[trigger] texts(hosts@)[k], domain@),
        decreases hosts@.len() - i,
    {
        assert(texts(hosts@)[i as int] == hosts@[i as int]@);
        if domain_matches(hosts[i].as_str(), domain) {
            return true;
        }
        i = i + 1;
    }
    false
}

/// The domain of a cookie of a group: its own, or that of the group.
pub open spec fn domain_of(group: Seq<char>, c: CloudCookieView) -> Seq<char> {
    match c.domain {
        Some(d) => d,
        None => group,
    }
}

/// What is handed to the browser of a cookie of a group.
pub open spec fn cookie_param(hosts: Seq<Seq<char>>, group: Seq<char>, c: CloudCookieView) -> Option<
    CookieView,
> {
    let domain = domain_of(group, c);
    if !covers_any(hosts, domain) {
        None
    } else {
        match cookie_address(domain, c.secure == Some(true), c.path) {
            None => None,
            Some(url) => Some(
                CookieView {
                    name: c.name,
                    value: c.value,
                    url,
                    domain: if c.host_only == Some(true) {
                        None
                    } else {
                        Some(domain)
                    },
                    path: c.path,
                    secure: c.secure,
                    http_only: c.http_only,
                    same_site: same_site_word(c.same_site),
                    expires: c.expiration_date,
                },
            ),
        }
    }
}

/// What an optional cookie says.
pub open spec fn opt_cookie(c: Option<CdpCookieParam>) -> Option<CookieView> {
    match c {
        Some(x) => Some(x@),
        None => None,
    }
}

fn param_of(hosts: &Vec<String>, group: &str, c: &CookieCloudCookie) -> (r: Option<CdpCookieParam>)
    ensures
        opt_cookie(r) == cookie_param(texts(hosts@), group@, c@),
{
    let domain: String = match &c.domain {
        Some(d) => d.clone(),
        None => group.to_string(),
    };
    if !matches_any(hosts, domain.as_str()) {
        return None;
    }
    let secure: bool = match c.secure {
        Some(b) => b,
        None => false,
    };
    let host_only: bool = match c.host_only {
        Some(b) => b,
        None => false,
    };
    match cookie_url(domain.as_str(), secure, &c.path) {
        None => None,
        Some(url) => Some(
            CdpCookieParam {
                name: c.name.clone(),
                value: c.value.clone(),
                url,
                domain: if host_only {
                    None
                } else {
                    Some(domain)
                },
                path: opt_clone(&c.path),
                secure: c.secure,
                http_only: c.http_only,
                same_site: normalize_same_site(&c.same_site),
                expires: c.expiration_date,
            },
        ),
    }
}

/// What a group of cookies says.
pub open spec fn cloud_views(cookies: Seq<CookieCloudCookie>) -> Seq<CloudCookieView> {
    cookies.map_values(|c: CookieCloudCookie| c@)
}

/// What is handed to the browser of the cookies of a group.
pub open spec fn group_params(
    hosts: Seq<Seq<char>>,
    group: Seq<char>,
    cookies: Seq<CloudCookieView>,
) -> Seq<CookieView>
    decreases cookies.len(),
{
    if cookies.len() == 0 {
        Seq::empty()
    } else {
        let rest = group_params(hosts, group, cookies.drop_last());
        match cookie_param(hosts, group, cookies.last()) {
            Some(c) => rest.push(c),
            None => rest,
        }
    }
}

fn push_group(
    out: &mut Vec<CdpCookieParam>,
    hosts: &Vec<String>,
    group: &str,
    cookies: &Vec<CookieCloudCookie>,
)
    ensures
        cookie_views(final(out)@) == cookie_views(old(out)@) + group_params(
            texts(hosts@),
            group@,
            cloud_views(cookies@),
        ),
{
    let ghost all = cloud_views(cookies@);
    let ghost start = cookie_views(out@);
    let mut i: usize = 0;
    assert(all.take(0) =~= Seq::<CloudCookieView>::empty());
    assert(start + Seq::<CookieView>::empty() =~= start);
    while i < cookies.len()
        invariant
            i <= cookies@.len(),
            all == cloud_views(cookies@),
            cookie_views(out@) == start + group_params(texts(hosts@), group@, all.take(i as int)),
        decreases cookies@.len() - i,
    {
        assert(all.take(i + 1).drop_last() =~= all.take(i as int));
        assert(all.take(i + 1).last() == cookies@[i as int]@);
        let ghost before = cookie_views(out@);
        if let Some(c) = param_of(hosts, group, &cookies[i]) {
            let ghost view = c@;
            out.push(c);
            assert(cookie_views(out@) =~= before.push(view));
            assert(before.push(view) =~= start + group_params(
                texts(hosts@),
                group@,
                all.take(i as int),
            ).push(view));
        }
        i = i + 1;
    }
    assert(all.take(i as int) =~= all);
}

/// The groups of cookies by domain.
pub open spec fn group_views(data: Seq<(String, Vec<CookieCloudCookie>)>) -> Seq<
    (Seq<char>, Seq<CloudCookieView>),
> {
    data.map_values(|g: (String, Vec<CookieCloudCookie>)| (g.0@, cloud_views(g.1@)))
}

/// What is handed to the browser of all groups.
pub open spec fn all_params(
    hosts: Seq<Seq<char>>,
    data: Seq<(Seq<char>, Seq<CloudCookieView>)>,
) -> Seq<CookieView>
    decreases data.len(),
{
    if data.len() == 0 {
        Seq::empty()
    } else {
        all_params(hosts, data.drop_last()) + group_params(hosts, data.last().0, data.last().1)
    }
}

/// The cookies of the sites, as they are handed to the browser; the groups come in the
/// order in which they are given.
pub fn cookies_for_sites(
    data: &Vec<(String, Vec<CookieCloudCookie>)>,
    sites: &Vec<Site>,
) -> (r: Result<Vec<CdpCookieParam>, String>)
    ensures
        match r {
            Ok(v) => hosts_of(site_views(sites@)).len() > 0 && cookie_views(v@) == all_params(
                hosts_of(site_views(sites@)),
                group_views(data@),
            ),
            Err(e) => hosts_of(site_views(sites@)).len() == 0 && e@
                == "请先配置至少一个有效站点 URL"@,
        },
{
    let hosts: Vec<String> = site_hosts(sites);
    assert(texts(hosts@).len() == hosts@.len());
    if hosts.len() == 0 {
        return Err("请先配置至少一个有效站点 URL".to_string());
    }
    let ghost all = group_views(data@);
    let mut out: Vec<CdpCookieParam> = Vec::new();
    let mut i: usize = 0;
    assert(all.take(0) =~= Seq::<(Seq<char>, Seq<CloudCookieView>)>::empty());
    assert(cookie_views(out@) =~= Seq::<CookieView>::empty());
    while i < data.len()
        invariant
            i <= data@.len(),
            all == group_views(data@),
            cookie_views(out@) == all_params(texts(hosts@), all.take(i as int)),
        decreases data@.len() - i,
    {
        assert(all.take(i + 1).drop_last() =~= all.take(i as int));
        assert(all.take(i + 1).last() == (data@[i as int].0@, cloud_views(data@[i as int].1@)));
        push_group(&mut out, &hosts, data[i].0.as_str(), &data[i].1);
        i = i + 1;
    }
    assert(all.take(i as int) =~= all);
    Ok(out)
}

proof fn lemma_group_belongs(
    hosts: Seq<Seq<char>>,
    group: Seq<char>,
    cookies: Seq<CloudCookieView>,
    k: int,
)
    requires
        0 <= k < group_params(hosts, group, cookies).len(),
    ensures
        exists|j: int|
            0 <= j < cookies.len() && #[trigger] cookie_param(hosts, group, cookies[j]) == Some(
                group_params(hosts, group, cookies)[k],
            ),
    decreases cookies.len(),
{
    let head = cookies.drop_last();
    let rest = group_params(hosts, group, head);
    if k < rest.len() {
        lemma_group_belongs(hosts, group, head, k);
        let j = choose|j: int|
            0 <= j < head.len() && #[trigger] cookie_param(hosts, group, head[j]) == Some(rest[k]);
        assert(cookie_param(hosts, group, cookies[j]) == Some(rest[k]));
    } else {
        assert(cookie_param(hosts, group, cookies[cookies.len() - 1]) is Some);
    }
}

/// Only cookies whose domain covers the host of a configured site are handed to the
/// browser, and each comes from the data of the server.
pub proof fn only_cookies_of_sites(
    hosts: Seq<Seq<char>>,
    data: Seq<(Seq<char>, Seq<CloudCookieView>)>,
    k: int,
)
    requires
        0 <= k < all_params(hosts, data).len(),
    ensures
        exists|i: int, j: int|
            0 <= i < data.len() && 0 <= j < data[i].1.len() && #[trigger] cookie_param(
                hosts,
                data[i].0,
                data[i].1[j],
            ) == Some(all_params(hosts, data)[k]) && covers_any(
                hosts,
                domain_of(data[i].0, data[i].1[j]),
            ),
    decreases data.len(),
{
    let head = data.drop_last();
    let rest = all_params(hosts, head);
    let last = data.last();
    if k < rest.len() {
        only_cookies_of_sites(hosts, head, k);
        let (i, j) = choose|i: int, j: int|
            0 <= i < head.len() && 0 <= j < head[i].1.len() && #[trigger] cookie_param(
                hosts,
                head[i].0,
                head[i].1[j],
            ) == Some(rest[k]);
        assert(cookie_param(hosts, data[i].0, data[i].1[j]) == Some(all_params(hosts, data)[k]));
    } else {
        lemma_group_belongs(hosts, last.0, last.1, k - rest.len());
        let j = choose|j: int|
            0 <= j < last.1.len() && #[trigger] cookie_param(hosts, last.0, last.1[j]) == Some(
                group_params(hosts, last.0, last.1)[k - rest.len()],
            );
        let i = data.len() - 1;
        assert(cookie_param(hosts, data[i].0, data[i].1[j]) == Some(all_params(hosts, data)[k]));
    }
}

// ---------------------------------------------------------------- storages

/// The items that an object stands for: its entries whose value is a text.
pub open spec fn text_items(entries: Seq<(Seq<char>, JsonView)>) -> Seq<EntryView>
    decreases entries.len(),
{
    if entries.len() == 0 {
        Seq::empty()
    } else {
        let rest = text_items(entries.drop_last());
        match entries.last().1.text() {
            Some(value) => rest.push(EntryView { name: entries.last().0, value }),
            None => rest,
        }
    }
}

fn items_of_object(object: &Json) -> (r: Vec<CdpLocalStorageEntry>)
    ensures
        entry_views(r@) == match object@ {
            JsonView::Object(entries) => text_items(entries),
            _ => Seq::empty(),
        },
{
    let mut out: Vec<CdpLocalStorageEntry> = Vec::new();
    assert(entry_views(out@) =~= Seq::<EntryView>::empty());
    if let Json::Object(entries) = object {
        let ghost model = object@->Object_0;
        let mut i: usize = 0;
        assert(model.take(0) =~= Seq::<(Seq<char>, JsonView)>::empty());
        while i < entries.len()
            invariant
                i <= entries@.len(),
                *object == Json::Object(*entries),
                model == object@->Object_0,
                entry_views(out@) == text_items(model.take(i as int)),
            decreases entries@.len() - i,
        {
            assert(model.take(i + 1).drop_last() =~= model.take(i as int));
            assert(model.take(i + 1).last() == (entries@[i as int].0@, entries@[i as int].1@));
            let ghost before = entry_views(out@);
            if let Some(value) = entries[i].1.as_str() {
                let item: CdpLocalStorageEntry = CdpLocalStorageEntry {
                    name: entries[i].0.clone(),
                    value: value.to_string(),
                };
                let ghost view = item@;
                out.push(item);
                assert(entry_views(out@) =~= before.push(view));
            }
            i = i + 1;
        }
        assert(model.take(i as int) =~= model);
    }
    out
}

/// The items that the server keeps, by domain: one group for each entry that is an object.
pub open spec fn item_groups(entries: Seq<(Seq<char>, JsonView)>) -> Seq<
    (Seq<char>, Seq<EntryView>),
>
    decreases entries.len(),
{
    if entries.len() == 0 {
        Seq::empty()
    } else {
        let rest = item_groups(entries.drop_last());
        match entries.last().1 {
            JsonView::Object(items) => rest.push((entries.last().0, text_items(items))),
            _ => rest,
        }
    }
}

/// The items that the data of the pages' storages hold, by domain.
pub open spec fn groups_in(data: JsonView) -> Seq<(Seq<char>, Seq<EntryView>)> {
    match data {
        JsonView::Object(entries) => item_groups(entries),
        _ => Seq::empty(),
    }
}

/// What groups of items say.
pub open spec fn item_group_views(groups: Seq<(String, Vec<CdpLocalStorageEntry>)>) -> Seq<
    (Seq<char>, Seq<EntryView>),
> {
    groups.map_values(|g: (String, Vec<CdpLocalStorageEntry>)| (g.0@, entry_views(g.1@)))
}

/// The items that the data of the pages' storages hold, by domain. What is no object of
/// texts is passed over.
pub fn read_item_groups(data: &Json) -> (r: Vec<(String, Vec<CdpLocalStorageEntry>)>)
    ensures
        item_group_views(r@) == groups_in(data@),
{
    let mut out: Vec<(String, Vec<CdpLocalStorageEntry>)> = Vec::new();
    assert(item_group_views(out@) =~= Seq::<(Seq<char>, Seq<EntryView>)>::empty());
    if let Json::Object(entries) = data {
        let ghost model = data@->Object_0;
        let mut i: usize = 0;
        assert(model.take(0) =~= Seq::<(Seq<char>, JsonView)>::empty());
        while i < entries.len()
            invariant
                i <= entries@.len(),
                *data == Json::Object(*entries),
                model == data@->Object_0,
                item_group_views(out@) == item_groups(model.take(i as int)),
            decreases entries@.len() - i,
        {
            assert(model.take(i + 1).drop_last() =~= model.take(i as int));
            assert(model.take(i + 1).last() == (entries@[i as int].0@, entries@[i as int].1@));
            let ghost before = item_group_views(out@);
            if let Json::Object(_) = &entries[i].1 {
                let group: (String, Vec<CdpLocalStorageEntry>) = (
                    entries[i].0.clone(),
                    items_of_object(&entries[i].1),
                );
                let ghost view = (group.0@, entry_views(group.1@));
                out.push(group);
                assert(item_group_views(out@) =~= before.push(view));
            }
            i = i + 1;
        }
        assert(model.take(i as int) =~= model);
    }
    out
}

/// The items of the groups whose domain covers a host, in order.
pub open spec fn items_for(host: Seq<char>, groups: Seq<(Seq<char>, Seq<EntryView>)>) -> Seq<
    EntryView,
>
    decreases groups.len(),
{
    if groups.len() == 0 {
        Seq::empty()
    } else if domain_covers(host, groups.last().0) {
        items_for(host, groups.drop_last()) + groups.last().1
    } else {
        items_for(host, groups.drop_last())
    }
}

fn items_of_host(host: &str, groups: &Vec<(String, Vec<CdpLocalStorageEntry>)>) -> (r: Vec<
    CdpLocalStorageEntry,
>)
    ensures
        entry_views(r@) == items_for(host@, item_group_views(groups@)),
{
    let ghost all = item_group_views(groups@);
    let mut out: Vec<CdpLocalStorageEntry> = Vec::new();
    let mut i: usize = 0;
    assert(all.take(0) =~= Seq::<(Seq<char>, Seq<EntryView>)>::empty());
    assert(entry_views(out@) =~= Seq::<EntryView>::empty());
    while i < groups.len()
        invariant
            i <= groups@.len(),
            all == item_group_views(groups@),
            entry_views(out@) == items_for(host@, all.take(i as int)),
        decreases groups@.len() - i,
    {
        assert(all.take(i + 1).drop_last() =~= all.take(i as int));
        assert(all.take(i + 1).last() == (groups@[i as int].0@, entry_views(groups@[i as int].1@)));
        if domain_matches(host, groups[i].0.as_str()) {
            let items: &Vec<CdpLocalStorageEntry> = &groups[i].1;
            let ghost start = entry_views(out@);
            let ghost more = entry_views(items@);
            let mut k: usize = 0;
            assert(start + more.take(0) =~= start);
            while k < items.len()
                invariant
                    k <= items@.len(),
                    more == entry_views(items@),
                    entry_views(out@) == start + more.take(k as int),
                decreases items@.len() - k,
            {
                let ghost before = entry_views(out@);
                let item: CdpLocalStorageEntry = items[k].clone();
                let ghost view = item@;
                out.push(item);
                assert(entry_views(out@) =~= before.push(view));
                assert(before.push(view) =~= start + more.take(k + 1));
                k = k + 1;
            }
            assert(more.take(k as int) =~= more);
        }
        i = i + 1;
    }
    assert(all.take(i as int) =~= all);
    out
}

/// The origins of storages.
pub open spec fn storage_origins(storages: Seq<StorageView>) -> Seq<Seq<char>> {
    storages.map_values(|s: StorageView| s.origin)
}

/// What is to be stored for the site of an address: the items of the groups that cover its
/// host, of those with one name the first; nothing where there is none.
pub open spec fn storage_for(url: Seq<char>, groups: Seq<(Seq<char>, Seq<EntryView>)>) -> Option<
    StorageView,
> {
    match (url_host(url), url_origin(url)) {
        (Some(host), Some(origin)) => {
            let items = merged(items_for(host, groups));
            if items.len() > 0 {
                Some(StorageView { host, origin, items })
            } else {
                None
            }
        },
        _ => None,
    }
}

/// What is to be stored for sites, in their order and once for each origin.
pub open spec fn storages_for(
    sites: Seq<SiteView>,
    groups: Seq<(Seq<char>, Seq<EntryView>)>,
) -> Seq<StorageView>
    decreases sites.len(),
{
    if sites.len() == 0 {
        Seq::empty()
    } else {
        let rest = storages_for(sites.drop_last(), groups);
        match storage_for(sites.last().url, groups) {
            Some(s) => if storage_origins(rest).contains(s.origin) {
                rest
            } else {
                rest.push(s)
            },
            None => rest,
        }
    }
}

/// What an optional storage says.
pub open spec fn opt_storage(s: Option<CdpLocalStorageParam>) -> Option<StorageView> {
    match s {
        Some(x) => Some(x@),
        None => None,
    }
}

fn storage_of_site(url: &str, groups: &Vec<(String, Vec<CdpLocalStorageEntry>)>) -> (r: Option<
    CdpLocalStorageParam,
>)
    ensures
        opt_storage(r) == storage_for(url@, item_group_views(groups@)),
{
    match (host_from_url(url), origin_from_url(url)) {
        (Some(host), Some(origin)) => {
            let items: Vec<CdpLocalStorageEntry> = merge_items(
                items_of_host(host.as_str(), groups),
            );
            assert(entry_views(items@).len() == items@.len());
            if items.len() > 0 {
                Some(CdpLocalStorageParam { host, origin, items })
            } else {
                None
            }
        },
        _ => None,
    }
}

/// What is to be stored for the sites of what the server keeps of the pages' storages. As
/// with cookies, only domains that cover the host of a configured site count.
pub fn local_storages_for_sites(
    data: &Vec<(String, Vec<CdpLocalStorageEntry>)>,
    sites: &Vec<Site>,
) -> (r: Vec<CdpLocalStorageParam>)
    ensures
        storage_views(r@) == storages_for(site_views(sites@), item_group_views(data@)),
{
    let ghost all = site_views(sites@);
    let ghost groups = item_group_views(data@);
    let mut out: Vec<CdpLocalStorageParam> = Vec::new();
    let mut origins: Vec<String> = Vec::new();
    let mut i: usize = 0;
    assert(all.take(0) =~= Seq::<SiteView>::empty());
    assert(storage_views(out@) =~= Seq::<StorageView>::empty());
    assert(texts(origins@) =~= storage_origins(storage_views(out@)));
    while i < sites.len()
        invariant
            i <= sites@.len(),
            all == site_views(sites@),
            groups == item_group_views(data@),
            storage_views(out@) == storages_for(all.take(i as int), groups),
            texts(origins@) == storage_origins(storage_views(out@)),
        decreases sites@.len() - i,
    {
        assert(all.take(i + 1).drop_last() =~= all.take(i as int));
        assert(all.take(i + 1).last() == sites@[i as int]@);
        let ghost before = storage_views(out@);
        if let Some(s) = storage_of_site(sites[i].url.as_str(), data) {
            let ghost view = s@;
            if push_new(&mut origins, s.origin.as_str()) {
                out.push(s);
                assert(storage_views(out@) =~= before.push(view));
                assert(storage_origins(before).push(view.origin) =~= storage_origins(
                    before.push(view),
                ));
            }
        }
        i = i + 1;
    }
    assert(all.take(i as int) =~= all);
    out
}

proof fn lemma_item_has_group(
    host: Seq<char>,
    groups: Seq<(Seq<char>, Seq<EntryView>)>,
    item: EntryView,
)
    requires
        items_for(host, groups).contains(item),
    ensures
        exists|g: int|
            0 <= g < groups.len() && domain_covers(host, #[trigger] groups[g].0)
                && groups[g].1.contains(item),
    decreases groups.len(),
{
    if groups.len() > 0 {
        let head = groups.drop_last();
        let rest = items_for(host, head);
        let k = choose|k: int|
            0 <= k < items_for(host, groups).len() && items_for(host, groups)[k] == item;
        if k < rest.len() {
            assert(rest[k] == item);
            lemma_item_has_group(host, head, item);
            let g = choose|g: int|
                0 <= g < head.len() && domain_covers(host, #[trigger] head[g].0)
                    && head[g].1.contains(item);
            assert(groups[g] == head[g]);
        } else {
            assert(groups.last().1[k - rest.len()] == item);
            assert(groups[groups.len() - 1].1.contains(item));
        }
    }
}

proof fn lemma_first_is_member(items: Seq<EntryView>, name: Seq<char>)
    requires
        first_named(items, name) is Some,
    ensures
        items.contains(first_named(items, name)->0),
    decreases items.len(),
{
    if items.len() > 0 {
        let head = items.drop_last();
        if first_named(head, name) is Some {
            lemma_first_is_member(head, name);
            let k = choose|k: int| 0 <= k < head.len() && head[k] == first_named(head, name)->0;
            assert(items[k] == head[k]);
        } else {
            assert(items[items.len() - 1] == first_named(items, name)->0);
        }
    }
}

/// What is stored belongs to the address of a configured site.
pub proof fn only_storages_of_sites(
    sites: Seq<SiteView>,
    groups: Seq<(Seq<char>, Seq<EntryView>)>,
    k: int,
)
    requires
        0 <= k < storages_for(sites, groups).len(),
    ensures
        exists|i: int|
            0 <= i < sites.len() && storage_for((#[trigger] sites[i]).url, groups) == Some(
                storages_for(sites, groups)[k],
            ),
    decreases sites.len(),
{
    let head = sites.drop_last();
    let rest = storages_for(head, groups);
    if k < rest.len() {
        only_storages_of_sites(head, groups, k);
        let i = choose|i: int|
            0 <= i < head.len() && storage_for((#[trigger] head[i]).url, groups) == Some(rest[k]);
        assert(sites[i] == head[i]);
    } else {
        assert(sites[sites.len() - 1] == sites.last());
    }
}

/// Every item that is stored for a site comes from a domain that covers its host.
pub proof fn stored_items_belong_to_the_site(
    url: Seq<char>,
    groups: Seq<(Seq<char>, Seq<EntryView>)>,
    k: int,
)
    requires
        storage_for(url, groups) matches Some(s) && 0 <= k < s.items.len(),
    ensures
        exists|g: int|
            0 <= g < groups.len() && domain_covers(url_host(url)->0, #[trigger] groups[g].0)
                && groups[g].1.contains(storage_for(url, groups)->0.items[k]),
{
    let items = items_for(url_host(url)->0, groups);
    merged_keeps_the_first(items, k);
    lemma_first_is_member(items, merged(items)[k].name);
    lemma_item_has_group(url_host(url)->0, groups, merged(items)[k]);
}

/// No origin is stored to twice.
pub proof fn storages_differ_in_origin(
    sites: Seq<SiteView>,
    groups: Seq<(Seq<char>, Seq<EntryView>)>,
)
    ensures
        storage_origins(storages_for(sites, groups)).no_duplicates(),
    decreases sites.len(),
{
    if sites.len() > 0 {
        let rest = storages_for(sites.drop_last(), groups);
        storages_differ_in_origin(sites.drop_last(), groups);
        if storages_for(sites, groups) != rest {
            let s = storage_for(sites.last().url, groups)->0;
            assert(storage_origins(rest.push(s)) =~= storage_origins(rest).push(s.origin));
        }
    }
}

// ---------------------------------------------------------------- what reaches the browser

/// The cookies of a domain go to the domain itself and to the names below it, whatever the
/// case of the domain, and to no other host.
pub proof fn domain_covers_itself_and_below(host: Seq<char>, domain: Seq<char>)
    ensures
        ({
            let d = lowered(bare_domain(domain));
            &&& domain_covers(host, domain) <==> d.len() > 0 && host.len() >= d.len() && (forall|
                i: int,
            |
                0 <= i < d.len() ==> host[host.len() - d.len() + i] == #[trigger] d[i]) && (
            host.len() == d.len() || host[host.len() - d.len() - 1] == '.')
            &&& bare_domain(domain).len() > 0 ==> bare_domain(domain)[0] != '.'
        }),
{
    reveal_strlit(".");
    let d = lowered(bare_domain(domain));
    let longer = "."@ + d;
    trimming_takes_a_run_off(trimmed(domain), '.');
    let n = host.len() - d.len();
    if has_suffix(host, longer) {
        let tail = host.skip(host.len() - longer.len());
        assert(tail[0] == '.');
        assert(host[n - 1] == tail[0]);
        assert forall|i: int| 0 <= i < d.len() implies host[n + i] == #[trigger] d[i] by {
            assert(tail[i + 1] == longer[i + 1]);
        }
    }
    if d.len() > 0 && host.len() >= d.len() && (forall|i: int|
        0 <= i < d.len() ==> host[n + i] == #[trigger] d[i]) {
        if host.len() == d.len() {
            assert(host =~= d);
        } else if host[n - 1] == '.' {
            let tail = host.skip(host.len() - longer.len());
            assert forall|i: int| 0 <= i < longer.len() implies tail[i] == longer[i] by {
                if i > 0 {
                    assert(longer[i] == d[i - 1]);
                }
            }
            assert(tail =~= longer);
        }
    }
}

/// The hosts of the sites are those of their addresses.
pub proof fn hosts_are_those_of_the_sites(sites: Seq<SiteView>)
    ensures
        forall|h: Seq<char>| #[trigger]
            hosts_of(sites).contains(h) <==> exists|i: int|
                0 <= i < sites.len() && url_host((#[trigger] sites[i]).url) == Some(h),
    decreases sites.len(),
{
    if sites.len() > 0 {
        let head = sites.drop_last();
        let all = hosts_of(sites);
        let rest = hosts_of(head);
        hosts_are_those_of_the_sites(head);
        assert forall|h: Seq<char>| #[trigger] all.contains(h) <==> exists|i: int|
            0 <= i < sites.len() && url_host((#[trigger] sites[i]).url) == Some(h) by {
            if all.contains(h) {
                let k = choose|k: int| 0 <= k < all.len() && all[k] == h;
                if k < rest.len() {
                    assert(rest.contains(rest[k]));
                    let i = choose|i: int|
                        0 <= i < head.len() && url_host((#[trigger] head[i]).url) == Some(h);
                    assert(sites[i] == head[i]);
                } else {
                    assert(url_host(sites[sites.len() - 1].url) == Some(h));
                }
            }
            if exists|i: int| 0 <= i < sites.len() && url_host((#[trigger] sites[i]).url) == Some(h) {
                let i = choose|i: int|
                    0 <= i < sites.len() && url_host((#[trigger] sites[i]).url) == Some(h);
                if i < head.len() {
                    assert(head[i] == sites[i]);
                    assert(rest.contains(h));
                    let k = choose|k: int| 0 <= k < rest.len() && rest[k] == h;
                    assert(all[k] == h);
                } else {
                    assert(all[all.len() - 1] == h);
                }
            }
        }
    }
}

proof fn lemma_cookie_param_carries(hosts: Seq<Seq<char>>, group: Seq<char>, c: CloudCookieView)
    ensures
        cookie_param(hosts, group, c) matches Some(p) ==> p.name == c.name && p.value == c.value
            && p.path == c.path && p.secure == c.secure && p.http_only == c.http_only && p.expires
            == c.expiration_date,
{
}

/// Each cookie that is handed to the browser is one that the server keeps, with its name,
/// value, path, flags and expiry as they are kept; it is kept under a domain that covers a
/// host, and only a cookie that is not for one host alone names its domain.
pub proof fn browser_gets_what_is_kept(
    hosts: Seq<Seq<char>>,
    data: Seq<(Seq<char>, Seq<CloudCookieView>)>,
    k: int,
)
    requires
        0 <= k < all_params(hosts, data).len(),
    ensures
        exists|i: int, j: int|
            {
                let p = all_params(hosts, data)[k];
                let c = data[i].1[j];
                let domain = match c.domain {
                    Some(d) => d,
                    None => data[i].0,
                };
                &&& 0 <= i < data.len()
                &&& 0 <= j < (#[trigger] data[i]).1.len()
                &&& p.name == (#[trigger] data[i].1[j]).name
                &&& p.value == c.value
                &&& p.path == c.path
                &&& p.secure == c.secure
                &&& p.http_only == c.http_only
                &&& p.expires == c.expiration_date
                &&& c.host_only == Some(true) ==> p.domain is None
                &&& c.host_only != Some(true) ==> p.domain == Some(domain)
                &&& c.secure == Some(true) ==> p.url == "https://"@ + bare_domain(domain) + (
                match c.path {
                    Some(path) => path,
                    None => "/"@,
                })
                &&& c.secure != Some(true) ==> p.url == "http://"@ + bare_domain(domain) + (
                match c.path {
                    Some(path) => path,
                    None => "/"@,
                })
                &&& p.same_site == same_site_word(c.same_site)
                &&& covers_any(hosts, domain)
            },
{
    only_cookies_of_sites(hosts, data, k);
    let p = all_params(hosts, data)[k];
    let (i, j) = choose|i: int, j: int|
        0 <= i < data.len() && 0 <= j < data[i].1.len() && #[trigger] cookie_param(
            hosts,
            data[i].0,
            data[i].1[j],
        ) == Some(p) && covers_any(hosts, domain_of(data[i].0, data[i].1[j]));
    let c = data[i].1[j];
    let domain = domain_of(data[i].0, c);
    lemma_cookie_param_carries(hosts, data[i].0, c);
    reveal_strlit("http");
    reveal_strlit("https");
    reveal_strlit("://");
    reveal_strlit("http://");
    reveal_strlit("https://");
    assert("http"@ + "://"@ =~= "http://"@);
    assert("https"@ + "://"@ =~= "https://"@);
    assert(p.name == data[i].1[j].name);
}

/// Where a cookie is sent is told in the browser's words, and only where the server's word is
/// known.
pub proof fn browser_words_are_known(value: Seq<char>)
    ensures
        same_site_word(None) is None,
        same_site_word(Some(value)) == Some("Lax"@) <==> lowered(value) == "lax"@,
        same_site_word(Some(value)) == Some("Strict"@) <==> lowered(value) == "strict"@,
        same_site_word(Some(value)) == Some("None"@) <==> lowered(value) == "none"@ || lowered(
            value,
        ) == "no_restriction"@,
        same_site_word(Some(value)) matches Some(w) ==> w == "Lax"@ || w == "Strict"@ || w
            == "None"@,
{
    reveal_strlit("Lax");
    reveal_strlit("Strict");
    reveal_strlit("None");
    reveal_strlit("lax");
    reveal_strlit("strict");
    reveal_strlit("none");
    reveal_strlit("no_restriction");
    assert("Lax"@.len() == 3 && "Strict"@.len() == 6 && "None"@.len() == 4);
    assert("lax"@.len() == 3 && "strict"@.len() == 6 && "none"@.len() == 4);
    assert("no_restriction"@.len() == 14);
}

proof fn lemma_group_holds(
    hosts: Seq<Seq<char>>,
    group: Seq<char>,
    cookies: Seq<CloudCookieView>,
    j: int,
)
    requires
        0 <= j < cookies.len(),
        cookie_param(hosts, group, cookies[j]) is Some,
    ensures
        group_params(hosts, group, cookies).contains(cookie_param(hosts, group, cookies[j])->0),
    decreases cookies.len(),
{
    let all = group_params(hosts, group, cookies);
    let p = cookie_param(hosts, group, cookies[j])->0;
    if j == cookies.len() - 1 {
        assert(all[all.len() - 1] == p);
    } else {
        let head = cookies.drop_last();
        let rest = group_params(hosts, group, head);
        lemma_group_holds(hosts, group, head, j);
        let k = choose|k: int| 0 <= k < rest.len() && rest[k] == p;
        assert(all[k] == p);
    }
}

proof fn lemma_all_hold(
    hosts: Seq<Seq<char>>,
    data: Seq<(Seq<char>, Seq<CloudCookieView>)>,
    i: int,
    j: int,
)
    requires
        0 <= i < data.len(),
        0 <= j < data[i].1.len(),
        cookie_param(hosts, data[i].0, data[i].1[j]) is Some,
    ensures
        all_params(hosts, data).contains(cookie_param(hosts, data[i].0, data[i].1[j])->0),
    decreases data.len(),
{
    let all = all_params(hosts, data);
    let p = cookie_param(hosts, data[i].0, data[i].1[j])->0;
    let head = data.drop_last();
    let rest = all_params(hosts, head);
    if i == data.len() - 1 {
        lemma_group_holds(hosts, data[i].0, data[i].1, j);
        let own = group_params(hosts, data[i].0, data[i].1);
        let k = choose|k: int| 0 <= k < own.len() && own[k] == p;
        assert(all[rest.len() + k] == p);
    } else {
        lemma_all_hold(hosts, head, i, j);
        let k = choose|k: int| 0 <= k < rest.len() && rest[k] == p;
        assert(all[k] == p);
    }
}

/// Every cookie that the server keeps under a domain that covers the host of a site reaches
/// the browser, with its name, value, path, flags and expiry.
pub proof fn every_cookie_of_a_site_reaches_the_browser(
    hosts: Seq<Seq<char>>,
    data: Seq<(Seq<char>, Seq<CloudCookieView>)>,
    i: int,
    j: int,
    h: int,
)
    requires
        0 <= i < data.len(),
        0 <= j < data[i].1.len(),
        0 <= h < hosts.len(),
        domain_covers(
            hosts[h],
            match data[i].1[j].domain {
                Some(d) => d,
                None => data[i].0,
            },
        ),
    ensures
        exists|k: int|
            {
                let p = #[trigger] all_params(hosts, data)[k];
                let c = data[i].1[j];
                &&& 0 <= k < all_params(hosts, data).len()
                &&& p.name == c.name
                &&& p.value == c.value
                &&& p.path == c.path
                &&& p.secure == c.secure
                &&& p.http_only == c.http_only
                &&& p.expires == c.expiration_date
                &&& p.same_site == same_site_word(c.same_site)
            },
{
    let c = data[i].1[j];
    let domain = domain_of(data[i].0, c);
    assert(domain_covers(hosts[h], domain));
    assert(covers_any(hosts, domain));
    assert(lowered(bare_domain(domain)).len() == bare_domain(domain).len());
    lemma_cookie_param_carries(hosts, data[i].0, c);
    lemma_all_hold(hosts, data, i, j);
    let all = all_params(hosts, data);
    let p = cookie_param(hosts, data[i].0, c)->0;
    let k = choose|k: int| 0 <= k < all.len() && all[k] == p;
    assert(all[k] == p);
}

/// The cookies come in the order of the groups, none of them twice for being kept once: what
/// two lists of groups come to is what the one and then the other come to.
pub proof fn groups_come_one_after_the_other(
    hosts: Seq<Seq<char>>,
    a: Seq<(Seq<char>, Seq<CloudCookieView>)>,
    b: Seq<(Seq<char>, Seq<CloudCookieView>)>,
)
    ensures
        all_params(hosts, a + b) == all_params(hosts, a) + all_params(hosts, b),
    decreases b.len(),
{
    if b.len() == 0 {
        assert(a + b =~= a);
        assert(all_params(hosts, a) + all_params(hosts, b) =~= all_params(hosts, a));
    } else {
        groups_come_one_after_the_other(hosts, a, b.drop_last());
        assert((a + b).drop_last() =~= a + b.drop_last());
        assert((a + b).last() == b.last());
        assert(all_params(hosts, a + b) =~= all_params(hosts, a) + all_params(hosts, b));
    }
}

/// The cookies of a group come in their order: what two lists of cookies come to is what the
/// one and then the other come to, and one cookie comes to one at most.
pub proof fn cookies_come_one_after_the_other(
    hosts: Seq<Seq<char>>,
    group: Seq<char>,
    a: Seq<CloudCookieView>,
    b: Seq<CloudCookieView>,
)
    ensures
        all_params(hosts, seq![(group, a + b)]) == all_params(hosts, seq![(group, a)]) + all_params(
            hosts,
            seq![(group, b)],
        ),
        a.len() <= 1 ==> all_params(hosts, seq![(group, a)]).len() <= a.len(),
{
    lemma_cookies_after(hosts, group, a, b);
    lemma_one_group(hosts, group, a);
    lemma_one_group(hosts, group, b);
    lemma_one_group(hosts, group, a + b);
    reveal_with_fuel(group_params, 3);
}

proof fn lemma_one_group(hosts: Seq<Seq<char>>, group: Seq<char>, a: Seq<CloudCookieView>)
    ensures
        all_params(hosts, seq![(group, a)]) == group_params(hosts, group, a),
{
    let data = seq![(group, a)];
    assert(data.drop_last() =~= Seq::<(Seq<char>, Seq<CloudCookieView>)>::empty());
    assert(all_params(hosts, data.drop_last()) =~= Seq::<CookieView>::empty());
    assert(all_params(hosts, data) =~= group_params(hosts, group, a));
}

proof fn lemma_cookies_after(
    hosts: Seq<Seq<char>>,
    group: Seq<char>,
    a: Seq<CloudCookieView>,
    b: Seq<CloudCookieView>,
)
    ensures
        group_params(hosts, group, a + b) == group_params(hosts, group, a) + group_params(
            hosts,
            group,
            b,
        ),
    decreases b.len(),
{
    if b.len() == 0 {
        assert(a + b =~= a);
    } else {
        lemma_cookies_after(hosts, group, a, b.drop_last());
        assert((a + b).drop_last() =~= a + b.drop_last());
        assert((a + b).last() == b.last());
    }
    assert(group_params(hosts, group, a + b) =~= group_params(hosts, group, a) + group_params(
        hosts,
        group,
        b,
    ));
}

/// The items of a storage are the entries of its object that are texts, each with its name
/// and its text.
pub proof fn items_are_the_texts(entries: Seq<(Seq<char>, JsonView)>)
    ensures
        forall|e: EntryView| #[trigger]
            text_items(entries).contains(e) <==> entries.contains(
                (e.name, JsonView::Text(e.value)),
            ),
    decreases entries.len(),
{
    if entries.len() > 0 {
        let head = entries.drop_last();
        let all = text_items(entries);
        let rest = text_items(head);
        let last = entries.last();
        items_are_the_texts(head);
        assert forall|e: EntryView| #[trigger] all.contains(e) <==> entries.contains(
            (e.name, JsonView::Text(e.value)),
        ) by {
            let entry = (e.name, JsonView::Text(e.value));
            if all.contains(e) {
                let k = choose|k: int| 0 <= k < all.len() && all[k] == e;
                if k < rest.len() {
                    assert(rest.contains(e));
                    let i = choose|i: int| 0 <= i < head.len() && head[i] == entry;
                    assert(entries[i] == entry);
                } else {
                    assert(entries[entries.len() - 1] == entry);
                }
            }
            if entries.contains(entry) {
                let i = choose|i: int| 0 <= i < entries.len() && entries[i] == entry;
                if i < head.len() {
                    assert(head[i] == entry);
                    assert(rest.contains(e));
                    let k = choose|k: int| 0 <= k < rest.len() && rest[k] == e;
                    assert(all[k] == e);
                } else {
                    assert(all[all.len() - 1] == e);
                }
            }
        }
    }
}

/// A group holds the texts of an object that is kept under its domain.
pub open spec fn is_kept_object(
    entries: Seq<(Seq<char>, JsonView)>,
    group: (Seq<char>, Seq<EntryView>),
) -> bool {
    exists|i: int|
        0 <= i < entries.len() && (#[trigger] entries[i]).1 is Object && group == (
            entries[i].0,
            text_items(entries[i].1->Object_0),
        )
}

/// Each domain whose entry is an object has a group with the texts of that object, and there
/// are no other groups.
pub proof fn groups_are_the_objects(entries: Seq<(Seq<char>, JsonView)>)
    ensures
        forall|i: int|
            0 <= i < entries.len() && (#[trigger] entries[i]).1 is Object
                ==> item_groups(entries).contains(
                (entries[i].0, text_items(entries[i].1->Object_0)),
            ),
        forall|k: int|
            0 <= k < item_groups(entries).len() ==> is_kept_object(
                entries,
                #[trigger] item_groups(entries)[k],
            ),
    decreases entries.len(),
{
    if entries.len() > 0 {
        let head = entries.drop_last();
        let all = item_groups(entries);
        let rest = item_groups(head);
        groups_are_the_objects(head);
        assert forall|i: int|
            0 <= i < entries.len() && (#[trigger] entries[i]).1 is Object implies all.contains(
            (entries[i].0, text_items(entries[i].1->Object_0)),
        ) by {
            let g = (entries[i].0, text_items(entries[i].1->Object_0));
            if i < head.len() {
                assert(head[i] == entries[i]);
                assert(rest.contains(g));
                let k = choose|k: int| 0 <= k < rest.len() && rest[k] == g;
                assert(all[k] == g);
            } else {
                assert(all[all.len() - 1] == g);
            }
        }
        assert forall|k: int| 0 <= k < all.len() implies is_kept_object(
            entries,
            #[trigger] all[k],
        ) by {
            if k < rest.len() {
                assert(all[k] == rest[k]);
                assert(is_kept_object(head, rest[k]));
                let i = choose|i: int|
                    0 <= i < head.len() && (#[trigger] head[i]).1 is Object && rest[k] == (
                        head[i].0,
                        text_items(head[i].1->Object_0),
                    );
                assert(entries[i] == head[i]);
            } else {
                assert(entries[entries.len() - 1].1 is Object);
            }
        }
    }
}

proof fn lemma_item_is_for(
    host: Seq<char>,
    groups: Seq<(Seq<char>, Seq<EntryView>)>,
    g: int,
    item: EntryView,
)
    requires
        0 <= g < groups.len(),
        domain_covers(host, groups[g].0),
        groups[g].1.contains(item),
    ensures
        items_for(host, groups).contains(item),
    decreases groups.len(),
{
    let all = items_for(host, groups);
    let head = groups.drop_last();
    let rest = items_for(host, head);
    if g < head.len() {
        lemma_item_is_for(host, head, g, item);
        let k = choose|k: int| 0 <= k < rest.len() && rest[k] == item;
        assert(all[k] == item);
    } else {
        let own = groups.last().1;
        let k = choose|k: int| 0 <= k < own.len() && own[k] == item;
        assert(all[rest.len() + k] == item);
    }
}

/// Every name that the server keeps under a domain that covers the host of a site is stored
/// for that site, under its origin.
pub proof fn every_name_of_a_site_is_stored(
    url: Seq<char>,
    groups: Seq<(Seq<char>, Seq<EntryView>)>,
    g: int,
    item: EntryView,
)
    requires
        url_host(url) is Some,
        url_origin(url) is Some,
        0 <= g < groups.len(),
        domain_covers(url_host(url)->0, groups[g].0),
        groups[g].1.contains(item),
    ensures
        storage_for(url, groups) matches Some(s) && s.host == url_host(url)->0 && s.origin
            == url_origin(url)->0 && (exists|k: int|
            0 <= k < s.items.len() && (#[trigger] s.items[k]).name == item.name),
{
    let host = url_host(url)->0;
    let items = items_for(host, groups);
    lemma_item_is_for(host, groups, g, item);
    merged_names_rise(items);
    sorted_distinct_is_sorted_set(item_names(items));
    let at = choose|k: int| 0 <= k < items.len() && items[k] == item;
    assert(item_names(items)[at] == item.name);
    assert(item_names(items).contains(item.name));
    assert(item_names(merged(items)).contains(item.name));
    let k = choose|k: int|
        0 <= k < item_names(merged(items)).len() && item_names(merged(items))[k] == item.name;
    assert(storage_for(url, groups)->0.items[k].name == item.name);
}

/// Every site that there is something to store for has its storage, under its origin.
pub proof fn every_site_has_its_storage(
    sites: Seq<SiteView>,
    groups: Seq<(Seq<char>, Seq<EntryView>)>,
    i: int,
)
    requires
        0 <= i < sites.len(),
        storage_for(sites[i].url, groups) is Some,
    ensures
        storage_origins(storages_for(sites, groups)).contains(
            storage_for(sites[i].url, groups)->0.origin,
        ),
    decreases sites.len(),
{
    let head = sites.drop_last();
    let all = storages_for(sites, groups);
    let rest = storages_for(head, groups);
    let s = storage_for(sites[i].url, groups)->0;
    if i < head.len() {
        every_site_has_its_storage(head, groups, i);
        let k = choose|k: int|
            0 <= k < storage_origins(rest).len() && storage_origins(rest)[k] == s.origin;
        assert(storage_origins(all)[k] == s.origin);
    } else if !storage_origins(rest).contains(s.origin) {
        assert(storage_origins(all)[all.len() - 1] == s.origin);
    }
}

// ---------------------------------------------------------------- requests and replies

/// An address as it is written, with its port.
pub open spec fn written_url(u: UrlView) -> Seq<char> {
    (if u.secure {
        "https://"@
    } else {
        "http://"@
    }) + u.host + ":"@ + decimal(u.port as nat) + u.path
}

/// An address is read back from how it is written: its host, its port and its path.
pub proof fn written_address_reads_back(u: UrlView)
    requires
        u.host.len() > 0,
        !u.host.contains('/'),
        u.path.len() > 0,
        u.path[0] == '/',
    ensures
        http_url_of(written_url(u)) == Ok::<UrlView, Seq<char>>(u),
{
    let port = decimal(u.port as nat);
    let rest = u.host + ":"@ + port + u.path;
    let authority = u.host + ":"@ + port;
    lemma_written_scheme(u, rest);
    lemma_port_text(u.port);
    reveal_strlit("/");
    reveal_strlit(":");
    let n = authority.len() as int;
    assert forall|j: int| 0 <= j < n implies rest[j] != '/' by {
        if j < u.host.len() {
            assert(rest[j] == u.host[j]);
            assert(u.host.contains(u.host[j]));
        } else if j > u.host.len() {
            assert(rest[j] == port[j - u.host.len() - 1]);
        }
    }
    assert(rest[n] == u.path[0]);
    crate::text::lemma_index_of_is(rest, '/', n);
    assert(rest.take(n) =~= authority);
    assert("/"@ + rest.skip(n + 1) =~= u.path);
    crate::text::lemma_last_index_of(authority, ':');
    let k = crate::text::last_index_of(authority, ':');
    assert(authority[u.host.len() as int] == ':');
    if k > u.host.len() {
        assert(authority[k] == port[k - u.host.len() - 1]);
    }
    assert(k == u.host.len());
    assert(authority.take(k) =~= u.host);
    assert(authority.skip(k + 1) =~= port);
}

proof fn lemma_port_text(port: u16)
    ensures
        u16_in(decimal(port as nat)) == Some(port),
        forall|j: int|
            0 <= j < decimal(port as nat).len() ==> (#[trigger] decimal(port as nat)[j]) != '/'
                && decimal(port as nat)[j] != ':',
{
    crate::number::decimal_reads_back(port as nat, u16::MAX as int);
    crate::number::decimal_is_digits(port as nat);
}

proof fn lemma_written_scheme(u: UrlView, rest: Seq<char>)
    requires
        rest == u.host + ":"@ + decimal(u.port as nat) + u.path,
    ensures
        http_url_of(written_url(u)) == url_parts(
            u.secure,
            rest,
            if u.secure {
                443
            } else {
                80
            },
        ),
{
    reveal_strlit("https://");
    reveal_strlit("http://");
    let w = written_url(u);
    if u.secure {
        assert(w =~= "https://"@ + rest);
        assert(w.take(8) =~= "https://"@);
        assert(w.skip(8) =~= rest);
    } else {
        assert(w =~= "http://"@ + rest);
        assert(w.take(7) =~= "http://"@);
        assert(w.skip(7) =~= rest);
        if has_prefix(w, "https://"@) {
            assert(w.take(8)[4] == 's');
            assert(w[4] == ':');
        }
    }
}

/// A host alone stands for its standard port and its top page.
pub proof fn bare_host_means_standard_port(secure: bool, host: Seq<char>)
    requires
        host.len() > 0,
        !host.contains('/'),
        !host.contains(':'),
    ensures
        http_url_of(
            (if secure {
                "https://"@
            } else {
                "http://"@
            }) + host,
        ) == Ok::<UrlView, Seq<char>>(
            UrlView {
                secure,
                host,
                port: if secure {
                    443
                } else {
                    80
                },
                path: "/"@,
            },
        ),
{
    reveal_strlit("https://");
    reveal_strlit("http://");
    let w = (if secure {
        "https://"@
    } else {
        "http://"@
    }) + host;
    if secure {
        assert(w.take(8) =~= "https://"@);
        assert(w.skip(8) =~= host);
    } else {
        assert(w.take(7) =~= "http://"@);
        assert(w.skip(7) =~= host);
        if has_prefix(w, "https://"@) {
            assert(w.take(8)[4] == 's');
            assert(w[4] == ':');
        }
    }
    crate::text::lemma_index_of(host, '/');
    let i = crate::text::index_of(host, '/');
    if i < host.len() {
        assert(host.contains(host[i]));
    }
    crate::text::lemma_last_index_of(host, ':');
    let k = crate::text::last_index_of(host, ':');
    if k >= 0 {
        assert(host.contains(host[k]));
    }
}

/// A chunk of no data ends a body, whatever follows it.
pub proof fn empty_chunk_ends_the_body(line: Seq<u8>, rest: Seq<u8>)
    requires
        bytes_from(line + line_break(), line_break(), 0) == Some(line.len() as int),
        chunk_size(lossy_decoded(line)) == Some(0usize),
    ensures
        dechunked(line + line_break() + rest) == Ok::<Seq<u8>, Seq<char>>(Seq::empty()),
{
    let b = line + line_break() + rest;
    let head = line + line_break();
    crate::bytes::lemma_bytes_from(head, line_break(), 0);
    assert(b.subrange(line.len() as int, line.len() as int + 2) =~= line_break());
    assert forall|j: int| 0 <= j < line.len() implies !crate::bytes::bytes_at(
        b,
        line_break(),
        j,
    ) by {
        assert(!crate::bytes::bytes_at(head, line_break(), j));
        if crate::bytes::bytes_at(b, line_break(), j) {
            assert(head.subrange(j, j + 2) =~= b.subrange(j, j + 2));
        }
    }
    crate::bytes::lemma_bytes_from_is(b, line_break(), 0, line.len() as int);
    assert(b.take(line.len() as int) =~= line);
}

/// A response gives the status of its head, and what follows the empty line as its text.
pub proof fn response_gives_status_and_text(head: Seq<u8>, body: Seq<u8>)
    requires
        bytes_from(head + blank_line(), blank_line(), 0) == Some(head.len() as int),
        !is_chunked(lossy_decoded(head)),
        status_in(lossy_decoded(head)) is Some,
        utf8_text(body) is Ok,
    ensures
        response_in(head + blank_line() + body) == Ok::<(u16, Seq<char>), Seq<char>>(
            (status_in(lossy_decoded(head))->0, utf8_text(body)->Ok_0),
        ),
{
    let raw = head + blank_line() + body;
    let top = head + blank_line();
    crate::bytes::lemma_bytes_from(top, blank_line(), 0);
    assert(raw.subrange(head.len() as int, head.len() as int + 4) =~= blank_line());
    assert forall|j: int| 0 <= j < head.len() implies !crate::bytes::bytes_at(
        raw,
        blank_line(),
        j,
    ) by {
        assert(!crate::bytes::bytes_at(top, blank_line(), j));
        if crate::bytes::bytes_at(raw, blank_line(), j) {
            assert(top.subrange(j, j + 4) =~= raw.subrange(j, j + 4));
        }
    }
    crate::bytes::lemma_bytes_from_is(raw, blank_line(), 0, head.len() as int);
    assert(raw.take(head.len() as int) =~= head);
    assert(raw.skip(head.len() as int + 4) =~= body);
}

/// A fetch ends with data exactly where a place answers with success and a payload that holds
/// cookies, and hands over those cookies and the storages beside them.
pub proof fn fetch_hands_over_what_came(
    s: FetchModel,
    response: Result<(u16, Seq<char>), Seq<char>>,
)
    requires
        s.well_formed(),
        s.phase != FetchPhase::Done,
    ensures
        ({
            let (t, turn) = s.next(response);
            let good = response matches Ok(x) && 200 <= x.0 <= 299;
            let payload = payload_in((response->Ok_0).1);
            let held = good && payload is Ok && (payload->Ok_0).at("cookie_data"@) is Some;
            &&& turn is Data <==> held
            &&& turn is Data ==> Some(turn->Data_cookies) == (payload->Ok_0).at("cookie_data"@)
                && turn->Data_storages == (payload->Ok_0).at("local_storage_data"@)
            &&& turn is Get <==> s.phase == FetchPhase::Posting && response is Ok && !good
            &&& turn is Get ==> t.at == s.at
            &&& turn is Post ==> t.at == s.at + 1 && turn->Post_0 == s.endpoints[t.at as int]
                && t.phase == FetchPhase::Posting
            &&& turn is Data || turn is Failed <==> t.phase == FetchPhase::Done
            &&& turn is Failed ==> s.at + 1 == s.endpoints.len() || good && payload is Ok && (
            payload->Ok_0).at("encrypted"@) is Some
            &&& !held && !(turn is Get) && s.at + 1 < s.endpoints.len() ==> turn is Post || good
                && payload is Ok && (payload->Ok_0).at("encrypted"@) is Some
            &&& t.endpoints == s.endpoints && t.uuid == s.uuid && t.password == s.password
        }),
{
}

/// What is handed over is a payload where it holds cookies, and else the cookies themselves.
pub proof fn handed_cookies_are_found(v: JsonView)
    ensures
        v.at("cookie_data"@) is Some ==> Some(data_in(v).0) == v.at("cookie_data"@) && data_in(v).1
            == v.at("local_storage_data"@),
        v.at("cookie_data"@) is None ==> data_in(v).0 == v && data_in(v).1 is None,
{
}

/// A fetch begins exactly where a server, an id and a password are given, by sending the
/// password in a body to the first place of the server.
pub proof fn fetch_begins_at_the_first_place(
    config: &CookieCloudConfig,
    r: Result<(Fetch, FetchAction), String>,
)
    requires
        call_ensures(Fetch::begin, (config,), r),
    ensures
        r is Ok <==> trimmed(config.server_url@).len() > 0 && trimmed(config.uuid@).len() > 0
            && config.password@.len() > 0,
        r matches Ok(x) ==> x.1@ == FetchView::Post(
            endpoints_for(trimmed(config.server_url@), trimmed(config.uuid@))[0],
        ) && x.0@.endpoints == endpoints_for(trimmed(config.server_url@), trimmed(config.uuid@))
            && x.0@.uuid == trimmed(config.uuid@) && x.0@.password == config.password@ && x.0@.at
            == 0 && x.0@.phase == FetchPhase::Posting,
{
}

/// No host of a local network is taken for one of the public network: not a name under one of
/// the domains that are kept for it, not an address in numbers, not a single name and not a
/// place with a port.
pub proof fn local_hosts_are_not_public(name: Seq<char>, host: Seq<char>)
    ensures
        !is_public_domain(name + ".local"@),
        !is_public_domain(name + ".localhost"@),
        !is_public_domain(name + ".lan"@),
        !is_public_domain(name + ".internal"@),
        !is_public_domain(name + ".home.arpa"@),
        !host.contains('.') ==> !is_public_domain(host),
        host.contains(':') ==> !is_public_domain(host),
        (forall|i: int| 0 <= i < host.len() ==> #[trigger] host[i] == '.' || '0' <= host[i] <= '9')
            ==> !is_public_domain(host),
{
    reveal_strlit(".local");
    reveal_strlit(".localhost");
    reveal_strlit(".lan");
    reveal_strlit(".internal");
    reveal_strlit(".home.arpa");
    lemma_lower_suffix(name, ".local"@);
    lemma_lower_suffix(name, ".localhost"@);
    lemma_lower_suffix(name, ".lan"@);
    lemma_lower_suffix(name, ".internal"@);
    lemma_lower_suffix(name, ".home.arpa"@);
}

proof fn lemma_lower_suffix(name: Seq<char>, end: Seq<char>)
    requires
        forall|i: int| 0 <= i < end.len() ==> lower(#[trigger] end[i]) == end[i],
    ensures
        has_suffix(lowered(name + end), end),
{
    let all = lowered(name + end);
    assert(all.len() == name.len() + end.len());
    assert forall|i: int| 0 <= i < end.len() implies all[name.len() + i] == #[trigger] end[i] by {
        assert((name + end)[name.len() + i] == end[i]);
    }
    assert(all.skip(all.len() - end.len()) =~= end);
}

/// A name of letters below another domain is one of the public network.
pub proof fn other_domains_are_public(host: Seq<char>, k: int)
    requires
        host.contains('.'),
        !host.contains(':'),
        0 <= k < host.len(),
        host[k] != '.',
        !('0' <= host[k] <= '9'),
        !has_suffix(lowered(host), ".local"@),
        !has_suffix(lowered(host), ".localhost"@),
        !has_suffix(lowered(host), ".lan"@),
        !has_suffix(lowered(host), ".internal"@),
        !has_suffix(lowered(host), ".home.arpa"@),
    ensures
        is_public_domain(host),
{
}

} // verus!
