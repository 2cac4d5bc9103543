//! Updates of the program: where they are looked for, directly or through a proxy.

use crate::sites::{clean_address, cleaned_address};
use crate::text::{opt_text, str_eq, text_result};
use vstd::prelude::*;

verus! {

/// Where the newest version is announced.
pub const UPDATE_ENDPOINT: &'static str = "https://github.com/Edwinzzzs2/pt-manager-tauri/releases/latest/download/latest.json";

/// An available version.
#[derive(Debug)]
pub struct AppUpdateInfo {
    pub version: String,
}

/// The parts of a web address that matter here.
pub struct UrlParts {
    pub scheme: String,
    pub has_host: bool,
    pub has_query: bool,
    pub has_fragment: bool,
    /// The address as a whole, in its normal form.
    pub text: String,
}

/// What a `UrlParts` says.
pub struct UrlPartsView {
    pub scheme: Seq<char>,
    pub has_host: bool,
    pub has_query: bool,
    pub has_fragment: bool,
    pub text: Seq<char>,
}

impl View for UrlParts {
    type V = UrlPartsView;

    open spec fn view(&self) -> UrlPartsView {
        UrlPartsView {
            scheme: self.scheme@,
            has_host: self.has_host,
            has_query: self.has_query,
            has_fragment: self.has_fragment,
            text: self.text@,
        }
    }
}

/// What `Url::parse` reads from a text.
pub uninterp spec fn parsed_url(text: Seq<char>) -> Option<UrlPartsView>;

/// What optional parts of an address say.
pub open spec fn opt_parts(p: Option<UrlParts>) -> Option<UrlPartsView> {
    match p {
        Some(x) => Some(x@),
        None => None,
    }
}

/// Calls `reqwest::Url::parse`. Claimed is only that the parts of the address, or that
/// there is none, depend on the text alone.
#[verifier::external_body]
fn parse_url(text: &str) -> (r: Option<UrlParts>)
    ensures
        opt_parts(r) == parsed_url(text@),
{
    let url = reqwest::Url::parse(text).ok()?;
    Some(UrlParts {
        scheme: url.scheme().to_string(),
        has_host: url.host_str().is_some(),
        has_query: url.query().is_some(),
        has_fragment: url.fragment().is_some(),
        text: url.as_str().to_string(),
    })
}

/// Why the address of a proxy is refused.
pub open spec fn proxy_problem(parts: Option<UrlPartsView>) -> Option<Seq<char>> {
    match parts {
        None => Some("更新代理地址格式不正确"@),
        Some(url) => if !(url.scheme == "http"@ || url.scheme == "https"@) || !url.has_host {
            Some("更新代理地址必须是有效的 HTTP 或 HTTPS 地址"@)
        } else if url.has_query || url.has_fragment {
            Some("更新代理地址不能包含查询参数或锚点"@)
        } else {
            None
        },
    }
}

/// Why the address of a proxy is refused.
pub fn check_proxy(parts: &Option<UrlParts>) -> (r: Option<String>)
    ensures
        opt_text(r) == proxy_problem(opt_parts(*parts)),
{
    match parts {
        None => Some("更新代理地址格式不正确".to_string()),
        Some(url) => if !(str_eq(url.scheme.as_str(), "http") || str_eq(
            url.scheme.as_str(),
            "https",
        )) || !url.has_host {
            Some("更新代理地址必须是有效的 HTTP 或 HTTPS 地址".to_string())
        } else if url.has_query || url.has_fragment {
            Some("更新代理地址不能包含查询参数或锚点".to_string())
        } else {
            None
        },
    }
}

/// The address of a proxy in its plain form; an empty one stands for no proxy.
pub open spec fn normal_proxy(value: Seq<char>) -> Result<Seq<char>, Seq<char>> {
    let clean = clean_address(value);
    if clean.len() == 0 {
        Ok(clean)
    } else {
        match proxy_problem(parsed_url(clean)) {
            Some(e) => Err(e),
            None => Ok(clean),
        }
    }
}

/// The address of a proxy in its plain form; an empty one stands for no proxy.
pub fn normalize_proxy_url(value: &str) -> (r: Result<String, String>)
    ensures
        text_result(r) == normal_proxy(value@),
{
    let clean: String = cleaned_address(value);
    if clean.as_str().is_empty() {
        return Ok(clean);
    }
    let parts: Option<UrlParts> = parse_url(clean.as_str());
    match check_proxy(&parts) {
        Some(e) => Err(e),
        None => Ok(clean),
    }
}

/// The address through a proxy, given what is read from the two put together.
pub open spec fn through_proxy(parts: Option<UrlPartsView>) -> Result<Seq<char>, Seq<char>> {
    match parts {
        Some(url) => Ok(url.text),
        None => Err("无法生成更新代理地址"@),
    }
}

/// The address that is asked for a target: the target itself, or behind the proxy.
pub open spec fn proxied(proxy_url: Seq<char>, target_url: Seq<char>) -> Result<
    Seq<char>,
    Seq<char>,
> {
    match normal_proxy(proxy_url) {
        Err(e) => Err(e),
        Ok(proxy) => if proxy.len() == 0 {
            Ok(target_url)
        } else {
            through_proxy(parsed_url(proxy + "/"@ + target_url))
        },
    }
}

/// The address that is asked for a target, which is given in its normal form.
pub fn prepend_proxy_url(proxy_url: &str, target_url: &str) -> (r: Result<String, String>)
    ensures
        text_result(r) == proxied(proxy_url@, target_url@),
{
    let proxy: String = match normalize_proxy_url(proxy_url) {
        Ok(proxy) => proxy,
        Err(e) => return Err(e),
    };
    if proxy.as_str().is_empty() {
        return Ok(target_url.to_string());
    }
    match parse_url(proxy.concat("/").concat(target_url).as_str()) {
        Some(url) => Ok(url.text),
        None => Err("无法生成更新代理地址".to_string()),
    }
}

/// Without a proxy every target is asked for directly.
pub proof fn no_proxy_keeps_the_target(proxy_url: Seq<char>, target_url: Seq<char>)
    requires
        clean_address(proxy_url).len() == 0,
    ensures
        proxied(proxy_url, target_url) == Ok::<Seq<char>, Seq<char>>(target_url),
{
}

/// Why an update is not installed: there is none, or it is another one than was offered.
pub fn check_version(found: Option<&str>, expected_version: &str) -> (r: Option<String>)
    ensures
        opt_text(r) == match found {
            None => Some("当前已是最新版本"@),
            Some(version) => if version@ == expected_version@ {
                None
            } else {
                Some(
                    "可用版本已从 "@ + expected_version@ + " 变更为 "@ + version@
                        + "，请重新检查更新"@,
                )
            },
        },
{
    match found {
        None => Some("当前已是最新版本".to_string()),
        Some(version) => if str_eq(version, expected_version) {
            None
        } else {
            Some(
                "可用版本已从 ".to_string().concat(expected_version).concat(
                    " 变更为 ",
                ).concat(version).concat("，请重新检查更新"),
            )
        },
    }
}

/// An address serves as a proxy exactly where it is none at all, or one of HTTP with a host
/// and with neither a query nor a fragment; it is kept as it is but for what surrounds it.
pub proof fn proxy_is_a_plain_address(value: Seq<char>)
    ensures
        ({
            let clean = clean_address(value);
            let fits = parsed_url(clean) matches Some(u) && (u.scheme == "http"@ || u.scheme
                == "https"@) && u.has_host && !u.has_query && !u.has_fragment;
            &&& normal_proxy(value) is Ok <==> clean.len() == 0 || fits
            &&& normal_proxy(value) matches Ok(t) ==> t == clean
        }),
{
}

/// Through a proxy the target is asked for behind the address of the proxy, and an address
/// that does not serve as one is refused.
pub proof fn target_stands_behind_the_proxy(proxy_url: Seq<char>, target_url: Seq<char>)
    ensures
        normal_proxy(proxy_url) matches Err(e) ==> proxied(proxy_url, target_url) == Err::<
            Seq<char>,
            Seq<char>,
        >(e),
        normal_proxy(proxy_url) is Ok && clean_address(proxy_url).len() > 0 ==> (match parsed_url(
            clean_address(proxy_url) + "/"@ + target_url,
        ) {
            Some(u) => proxied(proxy_url, target_url) == Ok::<Seq<char>, Seq<char>>(u.text),
            None => proxied(proxy_url, target_url) is Err,
        }),
{
}

/// An update is installed exactly where the version that is found is the one that was asked
/// for.
pub proof fn update_is_the_one_asked_for(
    found: Option<&str>,
    expected_version: &str,
    r: Option<String>,
)
    requires
        call_ensures(check_version, (found, expected_version), r),
    ensures
        r is None <==> (found matches Some(v) && v@ == expected_version@),
{
    let x = opt_text(r);
    if r is Some {
        assert(x is Some);
    }
}

} // verus!
