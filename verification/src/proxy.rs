//! Which proxy a request uses: the provider's own proxy wins over the
//! global one; without either the request goes direct (the HTTP client then
//! falls back to the proxy environment variables).

use vstd::prelude::*;
use crate::models::{GlobalProxy, Provider, ProxyType};
use crate::text::{chars_blank, chars_of, is_blank, owned};

verus! {

pub open spec fn proxy_type_name(t: ProxyType) -> Seq<char> {
    match t {
        ProxyType::Direct => "direct"@,
        ProxyType::Http => "http"@,
        ProxyType::Socks5 => "socks5"@,
    }
}

/// The configuration name of a proxy type.
pub fn proxy_type_str(t: ProxyType) -> (r: &'static str)
    ensures
        r@ == proxy_type_name(t),
{
    match t {
        ProxyType::Direct => "direct",
        ProxyType::Http => "http",
        ProxyType::Socks5 => "socks5",
    }
}

/// A proxy setting that takes effect: not direct, with a URL that is not
/// blank.
pub open spec fn proxy_in_effect(t: ProxyType, url: Option<String>) -> bool {
    &&& t != ProxyType::Direct
    &&& url matches Some(u) && !is_blank(u@)
}

/// The proxy a request to `provider` goes through: `(type, url)`.
pub open spec fn resolve_proxy_spec(provider: Provider, global: Option<GlobalProxy>) -> (
    Seq<char>,
    Option<Seq<char>>,
) {
    if proxy_in_effect(provider.proxy_type, provider.proxy_url) {
        (proxy_type_name(provider.proxy_type), Some(provider.proxy_url.unwrap()@))
    } else if global is Some && proxy_in_effect(global.unwrap().proxy_type, global.unwrap().proxy_url) {
        (proxy_type_name(global.unwrap().proxy_type), Some(global.unwrap().proxy_url.unwrap()@))
    } else {
        ("direct"@, None)
    }
}

fn in_effect(t: ProxyType, url: &Option<String>) -> (r: bool)
    ensures
        r == proxy_in_effect(t, *url),
{
    if t == ProxyType::Direct {
        return false;
    }
    match url {
        Some(u) => {
            let c = chars_of(u.as_str());
            !chars_blank(c.as_slice())
        },
        None => false,
    }
}

/// The proxy that applies to a request: the provider's own proxy when set,
/// else the global proxy when set, else direct.
pub fn resolve_proxy(provider: &Provider, global: Option<&GlobalProxy>) -> (r: (
    &'static str,
    Option<String>,
))
    ensures
        (r.0@, match r.1 {
            Some(u) => Some(u@),
            None => None::<Seq<char>>,
        }) == resolve_proxy_spec(
            *provider,
            match global {
                Some(g) => Some(*g),
                None => None::<GlobalProxy>,
            },
        ),
{
    if in_effect(provider.proxy_type, &provider.proxy_url) {
        let url = match &provider.proxy_url {
            Some(u) => owned(u.as_str()),
            None => owned(""),
        };
        return (proxy_type_str(provider.proxy_type), Some(url));
    }
    if let Some(g) = global {
        if in_effect(g.proxy_type, &g.proxy_url) {
            let url = match &g.proxy_url {
                Some(u) => owned(u.as_str()),
                None => owned(""),
            };
            return (proxy_type_str(g.proxy_type), Some(url));
        }
    }
    ("direct", None)
}

/// The target of a proxy test: the URL trimmed; it must be an `http://` or
/// `https://` URL.
pub open spec fn test_target_spec(url: Seq<char>) -> Result<Seq<char>, Seq<char>> {
    let t = crate::text::trim_spec(url);
    if t.len() == 0 || !(crate::text::starts_with(t, "http://"@) || crate::text::starts_with(t, "https://"@)) {
        Err("目标 URL 需以 http:// 或 https:// 开头"@)
    } else {
        Ok(t)
    }
}

/// Checks the target of a proxy test (see `test_target_spec`).
pub fn proxy_test_target(url: &str) -> (r: Result<String, String>)
    ensures
        match r {
            Ok(t) => test_target_spec(url@) == Ok::<Seq<char>, Seq<char>>(t@),
            Err(e) => test_target_spec(url@) == Err::<Seq<char>, Seq<char>>(e@),
        },
{
    let t = crate::text::trim_str(url);
    let c = chars_of(t.as_str());
    let http = chars_of("http://");
    let https = chars_of("https://");
    if c.len() == 0 || !(crate::text::chars_start_with(c.as_slice(), http.as_slice())
        || crate::text::chars_start_with(c.as_slice(), https.as_slice())) {
        return Err(owned("目标 URL 需以 http:// 或 https:// 开头"));
    }
    Ok(t)
}

} // verus!
