//! Hosts and origins in addresses.

use crate::list::{distinct, distinct_is_a_set, push_new};
use crate::text::{
    after_prefix, before_any, chars_of, has_prefix, lower, lowered, opt_text, str_eq, string_of,
    strip_prefix, strip_prefixes, take_before_any, texts, to_lower, trim, trim_start_char,
    trim_start_of, trimmed, white, without_prefixes,
};
use vstd::prelude::*;

verus! {

/// What stands behind the scheme of a web address.
pub open spec fn behind_scheme(url: Seq<char>) -> Option<Seq<char>> {
    match after_prefix(trimmed(url), "https://"@) {
        Some(rest) => Some(rest),
        None => after_prefix(trimmed(url), "http://"@),
    }
}

/// The marks that end a host.
pub open spec fn host_ends() -> Seq<char> {
    seq!['/', ':', '?', '#']
}

fn host_end_marks() -> (r: Vec<char>)
    ensures
        r@ == host_ends(),
{
    let mut v: Vec<char> = Vec::new();
    v.push('/');
    v.push(':');
    v.push('?');
    v.push('#');
    assert(v@ =~= host_ends());
    v
}

/// A text, unless it is empty.
pub open spec fn unless_empty(s: Seq<char>) -> Option<Seq<char>> {
    if s.len() == 0 {
        None
    } else {
        Some(s)
    }
}

fn nonempty(s: String) -> (r: Option<String>)
    ensures
        opt_text(r) == unless_empty(s@),
{
    if s.as_str().is_empty() {
        None
    } else {
        Some(s)
    }
}

/// The host of a web address, in lower case.
pub open spec fn url_host(url: Seq<char>) -> Option<Seq<char>> {
    match behind_scheme(url) {
        Some(rest) => unless_empty(lowered(trimmed(before_any(rest, host_ends())))),
        None => None,
    }
}

/// The host of a web address, in lower case.
pub fn host_from_url(url: &str) -> (r: Option<String>)
    ensures
        opt_text(r) == url_host(url@),
{
    let chars: Vec<char> = chars_of(url);
    let clean: &[char] = trim(chars.as_slice());
    let rest: Option<&[char]> = match strip_prefix(clean, "https://") {
        Some(rest) => Some(rest),
        None => strip_prefix(clean, "http://"),
    };
    match rest {
        Some(rest) => {
            let marks: Vec<char> = host_end_marks();
            let host: &[char] = trim(take_before_any(rest, marks.as_slice()));
            let lower: Vec<char> = to_lower(host);
            nonempty(string_of(lower.as_slice()))
        },
        None => None,
    }
}

/// The scheme, host and port of a web address.
pub open spec fn url_origin(url: Seq<char>) -> Option<Seq<char>> {
    let marks = seq!['/', '?', '#'];
    match after_prefix(trimmed(url), "https://"@) {
        Some(rest) => {
            let host = trimmed(before_any(rest, marks));
            if host.len() == 0 {
                None
            } else {
                Some("https://"@ + lowered(host))
            }
        },
        None => match after_prefix(trimmed(url), "http://"@) {
            Some(rest) => {
                let host = trimmed(before_any(rest, marks));
                if host.len() == 0 {
                    None
                } else {
                    Some("http://"@ + lowered(host))
                }
            },
            None => None,
        },
    }
}

fn origin_of_rest(scheme: &str, rest: &[char]) -> (r: Option<String>)
    ensures
        ({
            let host = trimmed(before_any(rest@, seq!['/', '?', '#']));
            opt_text(r) == (if host.len() == 0 {
                None
            } else {
                Some(scheme@ + lowered(host))
            })
        }),
{
    let mut marks: Vec<char> = Vec::new();
    marks.push('/');
    marks.push('?');
    marks.push('#');
    assert(marks@ =~= seq!['/', '?', '#']);
    let host: &[char] = trim(take_before_any(rest, marks.as_slice()));
    if host.len() == 0 {
        None
    } else {
        let lower: Vec<char> = to_lower(host);
        Some(scheme.to_string().concat(string_of(lower.as_slice()).as_str()))
    }
}

/// The scheme, host and port of a web address.
pub fn origin_from_url(url: &str) -> (r: Option<String>)
    ensures
        opt_text(r) == url_origin(url@),
{
    let chars: Vec<char> = chars_of(url);
    let clean: &[char] = trim(chars.as_slice());
    match strip_prefix(clean, "https://") {
        Some(rest) => origin_of_rest("https://", rest),
        None => match strip_prefix(clean, "http://") {
            Some(rest) => origin_of_rest("http://", rest),
            None => None,
        },
    }
}

/// The origins of the addresses that have one.
pub open spec fn origins_of(urls: Seq<Seq<char>>) -> Seq<Seq<char>>
    decreases urls.len(),
{
    if urls.len() == 0 {
        Seq::empty()
    } else {
        match url_origin(urls.last()) {
            Some(o) => origins_of(urls.drop_last()).push(o),
            None => origins_of(urls.drop_last()),
        }
    }
}

/// The origins of addresses, each once, in the order in which they come first.
pub fn unique_origins(urls: &Vec<String>) -> (r: Vec<String>)
    ensures
        texts(r@) == distinct(origins_of(texts(urls@))),
{
    let ghost all = texts(urls@);
    let mut out: Vec<String> = Vec::new();
    let mut i: usize = 0;
    assert(texts(out@) =~= distinct(origins_of(all.take(0))));
    while i < urls.len()
        invariant
            i <= urls@.len(),
            all == texts(urls@),
            texts(out@) == distinct(origins_of(all.take(i as int))),
        decreases urls@.len() - i,
    {
        assert(all.take(i + 1).drop_last() =~= all.take(i as int));
        assert(all.take(i + 1).last() == urls@[i as int]@);
        match origin_from_url(urls[i].as_str()) {
            Some(o) => {
                proof {
                    let before = origins_of(all.take(i as int));
                    assert(before.push(o@).drop_last() =~= before);
                }
                push_new(&mut out, o.as_str());
            },
            None => {},
        }
        i = i + 1;
    }
    assert(all.take(i as int) =~= all);
    out
}

/// A host without schemes and dots before it and without what follows it.
pub open spec fn bare_host(value: Seq<char>) -> Seq<char> {
    before_any(
        trim_start_of(
            without_prefixes(without_prefixes(trimmed(value), "https://"@), "http://"@),
            '.',
        ),
        host_ends(),
    )
}

fn find_bare_host(value: &str) -> (r: Vec<char>)
    ensures
        r@ == bare_host(value@),
{
    proof {
        reveal_strlit("https://");
        reveal_strlit("http://");
    }
    let chars: Vec<char> = chars_of(value);
    let clean: &[char] = strip_prefixes(
        strip_prefixes(trim(chars.as_slice()), "https://"),
        "http://",
    );
    let marks: Vec<char> = host_end_marks();
    let host: &[char] = take_before_any(trim_start_char(clean, '.'), marks.as_slice());
    let mut out: Vec<char> = Vec::new();
    out.extend_from_slice(host);
    assert(out@ =~= host@);
    out
}

/// A host without schemes, dots and what follows it, in lower case.
pub open spec fn plain_host(value: Seq<char>) -> Seq<char> {
    lowered(trimmed(bare_host(value)))
}

fn find_plain_host(value: &str) -> (r: String)
    ensures
        r@ == plain_host(value@),
{
    let bare: Vec<char> = find_bare_host(value);
    let lower: Vec<char> = to_lower(trim(bare.as_slice()));
    string_of(lower.as_slice())
}

/// A host without schemes, dots and what follows it, in lower case, unless nothing
/// is left.
pub fn normalize_host(value: &str) -> (r: Option<String>)
    ensures
        opt_text(r) == unless_empty(plain_host(value@)),
{
    nonempty(find_plain_host(value))
}

/// The host under which data of a site are listed, in lower case.
pub fn listed_host(value: &str) -> (r: String)
    ensures
        r@ == lowered(bare_host(value@)),
{
    let bare: Vec<char> = find_bare_host(value);
    let lower: Vec<char> = to_lower(bare.as_slice());
    string_of(lower.as_slice())
}

/// The host of a site by its web address.
pub open spec fn site_host(url: Seq<char>) -> Option<Seq<char>> {
    match behind_scheme(url) {
        Some(rest) => unless_empty(plain_host(rest)),
        None => None,
    }
}

/// The host of a site by its web address.
pub fn site_host_from_url(url: &str) -> (r: Option<String>)
    ensures
        opt_text(r) == site_host(url@),
{
    let chars: Vec<char> = chars_of(url);
    let clean: &[char] = trim(chars.as_slice());
    let rest: Option<&[char]> = match strip_prefix(clean, "https://") {
        Some(rest) => Some(rest),
        None => strip_prefix(clean, "http://"),
    };
    match rest {
        Some(rest) => normalize_host(string_of(rest).as_str()),
        None => None,
    }
}

/// A host without a leading `www.`, for comparison.
pub open spec fn compared_host(value: Seq<char>) -> Seq<char> {
    match after_prefix(plain_host(value), "www."@) {
        Some(rest) => rest,
        None => plain_host(value),
    }
}

/// A host without a leading `www.`, for comparison.
pub fn match_host(value: &str) -> (r: String)
    ensures
        r@ == compared_host(value@),
{
    let host: String = find_plain_host(value);
    let chars: Vec<char> = chars_of(host.as_str());
    match strip_prefix(chars.as_slice(), "www.") {
        Some(rest) => string_of(rest),
        None => host,
    }
}

/// Whether two hosts are the same but for a leading `www.`.
pub open spec fn same_host(a: Seq<char>, b: Seq<char>) -> bool {
    compared_host(a) == compared_host(b)
}

/// Whether two hosts are the same but for a leading `www.`.
pub fn hosts_match(site_host: &str, data_host: &str) -> (r: bool)
    ensures
        r == same_host(site_host@, data_host@),
{
    str_eq(match_host(site_host).as_str(), match_host(data_host).as_str())
}

// ---------------------------------------------------------------- what an address names

/// A host in its plain form: no white space, no capital letters, none of the marks that end a
/// host, and no dot in front.
pub open spec fn is_plain(h: Seq<char>) -> bool {
    &&& h.len() > 0
    &&& h[0] != '.'
    &&& forall|i: int|
        0 <= i < h.len() ==> !white(#[trigger] h[i]) && lower(h[i]) == h[i] && h[i] != '/' && h[i]
            != ':' && h[i] != '?' && h[i] != '#'
}

/// What may follow a host in an address.
pub open spec fn is_tail(t: Seq<char>) -> bool {
    t.len() > 0 ==> (t[0] == '/' || t[0] == '?' || t[0] == '#') && !white(t.last())
}

/// The scheme in front of an address.
pub open spec fn scheme_text(secure: bool) -> Seq<char> {
    if secure {
        "https://"@
    } else {
        "http://"@
    }
}

proof fn lemma_before_tail(h: Seq<char>, t: Seq<char>, set: Seq<char>)
    requires
        forall|i: int| 0 <= i < h.len() ==> !set.contains(#[trigger] h[i]),
        t.len() > 0 ==> set.contains(t[0]),
    ensures
        before_any(h + t, set) == h,
{
    let s = h + t;
    let n = h.len() as int;
    assert forall|j: int| 0 <= j < n implies !set.contains(#[trigger] s[j]) by {
        assert(s[j] == h[j]);
    }
    if t.len() > 0 {
        assert(s[n] == t[0]);
    }
    crate::text::lemma_index_of_any_is(s, set, n);
    assert(s.take(n) =~= h);
}

proof fn lemma_scheme(secure: bool, rest: Seq<char>)
    requires
        rest.len() > 0,
        !white(rest.last()),
    ensures
        trimmed(scheme_text(secure) + rest) == scheme_text(secure) + rest,
        behind_scheme(scheme_text(secure) + rest) == Some(rest),
        secure ==> after_prefix(scheme_text(secure) + rest, "https://"@) == Some(rest),
        !secure ==> after_prefix(scheme_text(secure) + rest, "https://"@) is None && after_prefix(
            scheme_text(secure) + rest,
            "http://"@,
        ) == Some(rest),
{
    reveal_strlit("https://");
    reveal_strlit("http://");
    let w = scheme_text(secure) + rest;
    assert(w[0] == 'h');
    assert(w.last() == rest.last());
    crate::text::trimming_keeps_what_is_bare(w);
    if secure {
        assert(w.take(8) =~= "https://"@);
        assert(w.skip(8) =~= rest);
    } else {
        assert(w.take(7) =~= "http://"@);
        assert(w.skip(7) =~= rest);
        if has_prefix(w, "https://"@) {
            assert(w.take(8)[4] == 's');
            assert(w[4] == ':');
        }
    }
}

proof fn lemma_lowered_plain(h: Seq<char>)
    requires
        is_plain(h),
    ensures
        trimmed(h) == h,
        lowered(h) == h,
{
    assert(!white(h[0]) && !white(h[h.len() - 1]));
    crate::text::trimming_keeps_what_is_bare(h);
    assert forall|i: int| 0 <= i < h.len() implies lowered(h)[i] == h[i] by {
        assert(lower(h[i]) == h[i]);
    }
    assert(lowered(h) =~= h);
}

proof fn lemma_no_scheme(h: Seq<char>, t: Seq<char>)
    requires
        is_plain(h),
        is_tail(t),
    ensures
        !has_prefix(h + t, "https://"@),
        !has_prefix(h + t, "http://"@),
{
    reveal_strlit("https://");
    reveal_strlit("http://");
    let s = h + t;
    let n = h.len() as int;
    if has_prefix(s, "https://"@) {
        assert("https://"@[5] == ':');
        assert(s.take(8)[5] == s[5]);
        if n < 5 {
            assert(s[n] == t[0]);
            assert(s.take(8)[n] == "https://"@[n]);
        } else if n == 5 {
            assert(s[5] == t[0]);
        } else {
            assert(s[5] == h[5]);
        }
    }
    if has_prefix(s, "http://"@) {
        assert("http://"@[4] == ':');
        assert(s.take(7)[4] == s[4]);
        if n < 4 {
            assert(s[n] == t[0]);
            assert(s.take(7)[n] == "http://"@[n]);
        } else if n == 4 {
            assert(s[4] == t[0]);
        } else {
            assert(s[4] == h[4]);
        }
    }
}

proof fn lemma_plain_host(h: Seq<char>, t: Seq<char>)
    requires
        is_plain(h),
        is_tail(t),
    ensures
        plain_host(h + t) == h,
{
    let s = h + t;
    assert(s[0] == h[0]);
    assert(!white(h[0]) && !white(h[h.len() - 1]));
    if t.len() > 0 {
        assert(s.last() == t.last());
    } else {
        assert(s.last() == h.last());
    }
    crate::text::trimming_keeps_what_is_bare(s);
    lemma_no_scheme(h, t);
    lemma_before_tail(h, t, host_ends());
    lemma_lowered_plain(h);
}

/// The host of an address is what stands between its scheme and the first mark behind it, and
/// its origin is its scheme and its host.
pub proof fn address_names_its_host(secure: bool, h: Seq<char>, t: Seq<char>)
    requires
        is_plain(h),
        is_tail(t),
    ensures
        url_host(scheme_text(secure) + (h + t)) == Some(h),
        site_host(scheme_text(secure) + (h + t)) == Some(h),
        url_origin(scheme_text(secure) + (h + t)) == Some(scheme_text(secure) + h),
{
    let rest = h + t;
    if t.len() > 0 {
        assert(rest.last() == t.last());
    } else {
        assert(rest.last() == h[h.len() - 1]);
    }
    lemma_scheme(secure, rest);
    let ends = host_ends();
    assert(ends[0] == '/' && ends[2] == '?' && ends[3] == '#');
    lemma_before_tail(h, t, ends);
    let marks = seq!['/', '?', '#'];
    assert(marks[0] == '/' && marks[1] == '?' && marks[2] == '#');
    lemma_before_tail(h, t, marks);
    lemma_lowered_plain(h);
    lemma_plain_host(h, t);
}

/// An address with a port names the same host, and its origin keeps the port.
pub proof fn port_belongs_to_the_origin(secure: bool, h: Seq<char>, port: Seq<char>, t: Seq<char>)
    requires
        is_plain(h),
        is_plain(port),
        is_tail(t),
    ensures
        url_host(scheme_text(secure) + (h + ":"@ + port + t)) == Some(h),
        url_origin(scheme_text(secure) + (h + ":"@ + port + t)) == Some(
            scheme_text(secure) + (h + ":"@ + port),
        ),
{
    reveal_strlit(":");
    let rest = h + ":"@ + port + t;
    let place = h + ":"@ + port;
    let behind = ":"@ + port + t;
    if t.len() > 0 {
        assert(rest.last() == t.last());
    } else {
        assert(rest.last() == port[port.len() - 1]);
    }
    lemma_scheme(secure, rest);
    assert(rest =~= h + behind);
    let ends = host_ends();
    assert(ends[1] == ':');
    lemma_before_tail(h, behind, ends);
    lemma_lowered_plain(h);
    let marks = seq!['/', '?', '#'];
    assert(marks[0] == '/' && marks[1] == '?' && marks[2] == '#');
    assert(rest =~= place + t);
    assert forall|i: int| 0 <= i < place.len() implies !marks.contains(#[trigger] place[i])
        && lower(place[i]) == place[i] by {
        if i < h.len() {
            assert(place[i] == h[i]);
        } else if i > h.len() {
            assert(place[i] == port[i - h.len() - 1]);
        }
    }
    lemma_before_tail(place, t, marks);
    assert(place[0] == h[0] && place.last() == port[port.len() - 1]);
    crate::text::trimming_keeps_what_is_bare(place);
    assert(lowered(place) =~= place);
}

/// Two plain hosts are the same where they are equal or differ in a leading `www.` alone.
pub proof fn www_makes_no_difference(a: Seq<char>, b: Seq<char>)
    requires
        is_plain(a),
        is_plain(b),
        !has_prefix(a, "www."@),
        !has_prefix(b, "www."@),
    ensures
        same_host(a, b) <==> a == b,
        same_host("www."@ + a, b) <==> a == b,
        same_host(a, "www."@ + b) <==> a == b,
        same_host("www."@ + a, "www."@ + b) <==> a == b,
{
    lemma_compared(a);
    lemma_compared(b);
}

proof fn lemma_compared(a: Seq<char>)
    requires
        is_plain(a),
        !has_prefix(a, "www."@),
    ensures
        compared_host(a) == a,
        compared_host("www."@ + a) == a,
{
    reveal_strlit("www.");
    lemma_plain_host(a, Seq::empty());
    assert(a + Seq::<char>::empty() =~= a);
    let w = "www."@ + a;
    assert forall|i: int| 0 <= i < w.len() implies !white(#[trigger] w[i]) && lower(w[i]) == w[i]
        && w[i] != '/' && w[i] != ':' && w[i] != '?' && w[i] != '#' by {
        if i >= 4 {
            assert(w[i] == a[i - 4]);
        }
    }
    assert(w[0] == 'w');
    lemma_plain_host(w, Seq::empty());
    assert(w + Seq::<char>::empty() =~= w);
    assert(w.take(4) =~= "www."@);
    assert(w.skip(4) =~= a);
}

/// The origins of addresses are told once each, and all of them.
pub proof fn origins_are_told_once(urls: Seq<Seq<char>>)
    ensures
        distinct(origins_of(urls)).no_duplicates(),
        forall|o: Seq<char>| #[trigger]
            distinct(origins_of(urls)).contains(o) <==> exists|i: int|
                0 <= i < urls.len() && url_origin(#[trigger] urls[i]) == Some(o),
{
    distinct_is_a_set(origins_of(urls));
    lemma_origins(urls);
}

proof fn lemma_origins(urls: Seq<Seq<char>>)
    ensures
        forall|o: Seq<char>| #[trigger]
            origins_of(urls).contains(o) <==> exists|i: int|
                0 <= i < urls.len() && url_origin(#[trigger] urls[i]) == Some(o),
    decreases urls.len(),
{
    if urls.len() > 0 {
        let head = urls.drop_last();
        let all = origins_of(urls);
        let rest = origins_of(head);
        lemma_origins(head);
        assert forall|o: Seq<char>| #[trigger] all.contains(o) <==> exists|i: int|
            0 <= i < urls.len() && url_origin(#[trigger] urls[i]) == Some(o) by {
            if all.contains(o) {
                let k = choose|k: int| 0 <= k < all.len() && all[k] == o;
                if k < rest.len() {
                    assert(rest.contains(rest[k]));
                    let i = choose|i: int|
                        0 <= i < head.len() && url_origin(#[trigger] head[i]) == Some(o);
                    assert(urls[i] == head[i]);
                } else {
                    assert(url_origin(urls[urls.len() - 1]) == Some(o));
                }
            }
            if exists|i: int| 0 <= i < urls.len() && url_origin(#[trigger] urls[i]) == Some(o) {
                let i = choose|i: int|
                    0 <= i < urls.len() && url_origin(#[trigger] urls[i]) == Some(o);
                if i < head.len() {
                    assert(head[i] == urls[i]);
                    assert(rest.contains(o));
                    let k = choose|k: int| 0 <= k < rest.len() && rest[k] == o;
                    assert(all[k] == o);
                } else {
                    assert(all[all.len() - 1] == o);
                }
            }
        }
    }
}

} // verus!
