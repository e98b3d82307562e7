//! Providers as the database stores them. The API key never goes into the
//! database: it lives in the system keyring, and a provider read back shows
//! only its mask.

use vstd::prelude::*;
use crate::models::{ModelInput, Provider, ProviderInput, ProviderType, ProxyType};
use crate::text::{chars_of, concat_str, owned, str_eq};

verus! {

// ---------- type names ----------

/// The database name of a provider type.
pub open spec fn provider_type_label(t: ProviderType) -> Seq<char> {
    match t {
        ProviderType::OpenAiCompatible => "openai-compatible"@,
        ProviderType::Anthropic => "anthropic"@,
        ProviderType::OpenAiResponse => "openai-response"@,
        ProviderType::Ollama => "ollama"@,
        ProviderType::Custom => "custom"@,
    }
}

/// A provider type by its database name.
pub open spec fn type_from_name(s: Seq<char>) -> Result<ProviderType, Seq<char>> {
    if s == "openai-compatible"@ {
        Ok(ProviderType::OpenAiCompatible)
    } else if s == "anthropic"@ {
        Ok(ProviderType::Anthropic)
    } else if s == "openai-response"@ {
        Ok(ProviderType::OpenAiResponse)
    } else if s == "ollama"@ {
        Ok(ProviderType::Ollama)
    } else if s == "custom"@ {
        Ok(ProviderType::Custom)
    } else {
        Err("未知的供应商类型: "@ + s)
    }
}

pub fn type_to_db(t: ProviderType) -> (r: &'static str)
    ensures
        r@ == provider_type_label(t),
{
    match t {
        ProviderType::OpenAiCompatible => "openai-compatible",
        ProviderType::Anthropic => "anthropic",
        ProviderType::OpenAiResponse => "openai-response",
        ProviderType::Ollama => "ollama",
        ProviderType::Custom => "custom",
    }
}

pub fn type_from_db(s: &str) -> (r: Result<ProviderType, String>)
    ensures
        match r {
            Ok(t) => type_from_name(s@) == Ok::<ProviderType, Seq<char>>(t),
            Err(e) => type_from_name(s@) == Err::<ProviderType, Seq<char>>(e@),
        },
{
    if str_eq(s, "openai-compatible") {
        Ok(ProviderType::OpenAiCompatible)
    } else if str_eq(s, "anthropic") {
        Ok(ProviderType::Anthropic)
    } else if str_eq(s, "openai-response") {
        Ok(ProviderType::OpenAiResponse)
    } else if str_eq(s, "ollama") {
        Ok(ProviderType::Ollama)
    } else if str_eq(s, "custom") {
        Ok(ProviderType::Custom)
    } else {
        Err(concat_str("未知的供应商类型: ", s))
    }
}

/// The database name of a proxy type.
pub open spec fn proxy_name(p: ProxyType) -> Seq<char> {
    match p {
        ProxyType::Direct => "direct"@,
        ProxyType::Http => "http"@,
        ProxyType::Socks5 => "socks5"@,
    }
}

/// A proxy type by its database name.
pub open spec fn proxy_from_name(s: Seq<char>) -> Result<ProxyType, Seq<char>> {
    if s == "direct"@ {
        Ok(ProxyType::Direct)
    } else if s == "http"@ {
        Ok(ProxyType::Http)
    } else if s == "socks5"@ {
        Ok(ProxyType::Socks5)
    } else {
        Err("未知的代理类型: "@ + s)
    }
}

pub fn proxy_to_db(p: ProxyType) -> (r: &'static str)
    ensures
        r@ == proxy_name(p),
{
    match p {
        ProxyType::Direct => "direct",
        ProxyType::Http => "http",
        ProxyType::Socks5 => "socks5",
    }
}

pub fn proxy_from_db(s: &str) -> (r: Result<ProxyType, String>)
    ensures
        match r {
            Ok(p) => proxy_from_name(s@) == Ok::<ProxyType, Seq<char>>(p),
            Err(e) => proxy_from_name(s@) == Err::<ProxyType, Seq<char>>(e@),
        },
{
    if str_eq(s, "direct") {
        Ok(ProxyType::Direct)
    } else if str_eq(s, "http") {
        Ok(ProxyType::Http)
    } else if str_eq(s, "socks5") {
        Ok(ProxyType::Socks5)
    } else {
        Err(concat_str("未知的代理类型: ", s))
    }
}

/// A type read back is the type written; a name that reads is the name of
/// what it reads as.
pub proof fn lemma_type_round_trip(t: ProviderType, s: Seq<char>)
    ensures
        type_from_name(provider_type_label(t)) == Ok::<ProviderType, Seq<char>>(t),
        type_from_name(s) matches Ok(u) ==> provider_type_label(u) == s,
{
    reveal_strlit("openai-compatible");
    reveal_strlit("anthropic");
    reveal_strlit("openai-response");
    reveal_strlit("ollama");
    reveal_strlit("custom");
    assert("openai-compatible"@.len() == 17 && "anthropic"@.len() == 9 && "openai-response"@.len() == 15);
    assert("ollama"@.len() == 6 && "custom"@.len() == 6);
    assert("ollama"@[0] != "custom"@[0]);
}

/// A proxy type read back is the type written; a name that reads is the
/// name of what it reads as.
pub proof fn lemma_proxy_round_trip(p: ProxyType, s: Seq<char>)
    ensures
        proxy_from_name(proxy_name(p)) == Ok::<ProxyType, Seq<char>>(p),
        proxy_from_name(s) matches Ok(q) ==> proxy_name(q) == s,
{
    reveal_strlit("direct");
    reveal_strlit("http");
    reveal_strlit("socks5");
    assert("direct"@.len() == 6 && "http"@.len() == 4 && "socks5"@.len() == 6);
    assert("direct"@[0] != "socks5"@[0]);
}

// ---------- rows ----------

/// A provider row: what the database holds of a provider.
#[derive(Debug)]
pub struct ProviderRow {
    pub id: String,
    pub name: String,
    pub kind: String,
    pub base_url: String,
    pub proxy_type: String,
    pub proxy_url: Option<String>,
    pub timeout: i64,
    pub retries: i64,
    pub order_index: i64,
    pub enabled: bool,
}

pub open spec fn masked(key: Option<String>) -> Option<Seq<char>> {
    match key {
        Some(k) => Some(crate::keyring::mask_spec(k@)),
        None => None,
    }
}

/// A provider read from its row with the stored key shown masked: the row's
/// fields, its type and proxy type read from their names (the type first).
pub open spec fn provider_from_row_spec(row: ProviderRow, p: Provider, mask: Option<Seq<char>>) -> bool {
    &&& type_from_name(row.kind@) == Ok::<ProviderType, Seq<char>>(p.provider_type)
    &&& proxy_from_name(row.proxy_type@) == Ok::<ProxyType, Seq<char>>(p.proxy_type)
    &&& p.id == row.id
    &&& p.name == row.name
    &&& p.base_url == row.base_url
    &&& p.proxy_url == row.proxy_url
    &&& p.timeout == row.timeout
    &&& p.retries == row.retries
    &&& p.order_index == row.order_index
    &&& p.enabled == row.enabled
    &&& crate::skills::opt_view(p.api_key_masked) == mask
}

/// Why a row does not read: its type name, else its proxy type name.
pub open spec fn row_error(row: ProviderRow) -> Option<Seq<char>> {
    match type_from_name(row.kind@) {
        Err(e) => Some(e),
        Ok(_) => match proxy_from_name(row.proxy_type@) {
            Err(e) => Some(e),
            Ok(_) => None,
        },
    }
}

/// Reads a provider row with the key the keyring returned for it (see
/// `provider_from_row_spec`).
pub fn provider_from_row(row: ProviderRow, key: Option<String>) -> (r: Result<Provider, String>)
    ensures
        match r {
            Ok(p) => row_error(row) is None && provider_from_row_spec(row, p, masked(key)),
            Err(e) => row_error(row) == Some(e@),
        },
{
    let provider_type = match type_from_db(row.kind.as_str()) {
        Ok(t) => t,
        Err(e) => return Err(e),
    };
    let mask = match &key {
        Some(k) => Some(crate::keyring::mask_key(k.as_str())),
        None => None,
    };
    let proxy_type = match proxy_from_db(row.proxy_type.as_str()) {
        Ok(p) => p,
        Err(e) => return Err(e),
    };
    Ok(Provider {
        id: row.id,
        name: row.name,
        provider_type,
        base_url: row.base_url,
        api_key_masked: mask,
        proxy_type,
        proxy_url: row.proxy_url,
        timeout: row.timeout,
        retries: row.retries,
        order_index: row.order_index,
        enabled: row.enabled,
    })
}

/// Reads a provider row, asking the keyring for its key (see
/// `provider_from_row_spec`); the mask is that of whatever key the keyring
/// returns, if any.
pub fn raw_to_provider(row: ProviderRow) -> (r: Result<Provider, String>)
    ensures
        match r {
            Ok(p) => row_error(row) is None && exists|k: Option<String>| #[trigger] provider_from_row_spec(row, p, masked(k)),
            Err(e) => row_error(row) == Some(e@),
        },
{
    let ghost g = row;
    let key = crate::keyring::get_api_key(row.id.as_str());
    let r = provider_from_row(row, key);
    proof {
        if r is Ok {
            assert(provider_from_row_spec(g, r->Ok_0, masked(key)));
        }
    }
    r
}

/// The values a provider save writes: on update, what the input leaves
/// out keeps its current value (the proxy URL is always the input's); on
/// create, the defaults are direct, 60 s, 2 retries, order 0, enabled.
#[derive(Debug)]
pub struct ProviderValues {
    pub name: String,
    pub kind: &'static str,
    pub base_url: String,
    pub proxy_type: &'static str,
    pub proxy_url: Option<String>,
    pub timeout: i64,
    pub retries: i64,
    pub order_index: i64,
    pub enabled: bool,
}

pub open spec fn or_value<T>(o: Option<T>, d: T) -> T {
    match o {
        Some(v) => v,
        None => d,
    }
}

/// Values for an update of `cur` by `input`.
pub fn provider_update_values(input: &ProviderInput, cur: &Provider) -> (r: ProviderValues)
    ensures
        r.name == input.name,
        r.kind@ == provider_type_label(input.provider_type),
        r.base_url == input.base_url,
        r.proxy_type@ == proxy_name(or_value(input.proxy_type, cur.proxy_type)),
        r.proxy_url == input.proxy_url,
        r.timeout == or_value(input.timeout, cur.timeout),
        r.retries == or_value(input.retries, cur.retries),
        r.order_index == or_value(input.order_index, cur.order_index),
        r.enabled == or_value(input.enabled, cur.enabled),
{
    ProviderValues {
        name: input.name.clone(),
        kind: type_to_db(input.provider_type),
        base_url: input.base_url.clone(),
        proxy_type: proxy_to_db(match input.proxy_type {
            Some(p) => p,
            None => cur.proxy_type,
        }),
        proxy_url: crate::models::clone_opt_string(&input.proxy_url),
        timeout: match input.timeout {
            Some(t) => t,
            None => cur.timeout,
        },
        retries: match input.retries {
            Some(t) => t,
            None => cur.retries,
        },
        order_index: match input.order_index {
            Some(t) => t,
            None => cur.order_index,
        },
        enabled: match input.enabled {
            Some(e) => e,
            None => cur.enabled,
        },
    }
}

/// Values for a new provider.
pub fn provider_insert_values(input: &ProviderInput) -> (r: ProviderValues)
    ensures
        r.name == input.name,
        r.kind@ == provider_type_label(input.provider_type),
        r.base_url == input.base_url,
        r.proxy_type@ == proxy_name(or_value(input.proxy_type, ProxyType::Direct)),
        r.proxy_url == input.proxy_url,
        r.timeout == or_value(input.timeout, 60i64),
        r.retries == or_value(input.retries, 2i64),
        r.order_index == or_value(input.order_index, 0i64),
        r.enabled == or_value(input.enabled, true),
{
    ProviderValues {
        name: input.name.clone(),
        kind: type_to_db(input.provider_type),
        base_url: input.base_url.clone(),
        proxy_type: proxy_to_db(match input.proxy_type {
            Some(p) => p,
            None => ProxyType::Direct,
        }),
        proxy_url: crate::models::clone_opt_string(&input.proxy_url),
        timeout: match input.timeout {
            Some(t) => t,
            None => 60,
        },
        retries: match input.retries {
            Some(t) => t,
            None => 2,
        },
        order_index: match input.order_index {
            Some(t) => t,
            None => 0,
        },
        enabled: match input.enabled {
            Some(e) => e,
            None => true,
        },
    }
}

/// The key a save stores in the keyring: the given key, trimmed, unless it
/// is blank (then the stored key stays as it is).
pub fn key_to_store(key: &Option<String>) -> (r: Option<String>)
    ensures
        match *key {
            Some(k) => if !crate::text::is_blank(k@) {
                r matches Some(s) && s@ == crate::text::trim_spec(k@)
            } else {
                r is None
            },
            None => r is None,
        },
{
    match key {
        Some(k) => {
            let c = chars_of(k.as_str());
            if crate::text::chars_blank(c.as_slice()) {
                None
            } else {
                Some(crate::text::trim_str(k.as_str()))
            }
        },
        None => None,
    }
}

// ---------- models ----------

/// The display name a model is saved with: the given one when not blank,
/// else its model id.
pub fn model_display_name(input: &ModelInput) -> (r: String)
    ensures
        r@ == (match input.display_name {
            Some(d) => if !crate::text::is_blank(d@) {
                d@
            } else {
                input.model_id@
            },
            None => input.model_id@,
        }),
{
    match &input.display_name {
        Some(d) => {
            let c = chars_of(d.as_str());
            if crate::text::chars_blank(c.as_slice()) {
                owned(input.model_id.as_str())
            } else {
                owned(d.as_str())
            }
        },
        None => owned(input.model_id.as_str()),
    }
}

/// The capabilities a model row stores as JSON text: a JSON list of
/// strings; anything else reads as none.
pub open spec fn caps_of(text: Option<Seq<char>>) -> Seq<Seq<char>> {
    match text {
        Some(t) => match crate::json::json_of_text(t) {
            Some(crate::json::Json::Array(xs)) => if crate::agent::all_strings(xs@) {
                xs@.map_values(|x: crate::json::Json| crate::stream::text_or_empty(Some(x)))
            } else {
                Seq::empty()
            },
            _ => Seq::empty(),
        },
        None => Seq::empty(),
    }
}

/// Reads stored capabilities (see `caps_of`).
pub fn parse_caps(text: Option<&str>) -> (r: Vec<String>)
    ensures
        crate::text::views(r@) == caps_of(crate::skills::opt_str_view(text)),
{
    let t = match text {
        Some(t) => t,
        None => return Vec::new(),
    };
    let parsed = crate::json::parse_json(t);
    match &parsed {
        Some(crate::json::Json::Array(xs)) => {
            let mut out: Vec<String> = Vec::new();
            let mut i: usize = 0;
            while i < xs.len()
                invariant
                    i <= xs.len(),
                    text == Some(t),
                    crate::json::json_of_text(t@) == Some(crate::json::Json::Array(*xs)),
                    forall|k: int| 0 <= k < i ==> (#[trigger] xs@[k] is Str),
                    crate::text::views(out@) == xs@.take(i as int).map_values(|x: crate::json::Json| crate::stream::text_or_empty(Some(x))),
                decreases xs.len() - i,
            {
                match &xs[i] {
                    crate::json::Json::Str(s) => {
                        let ghost before = out@;
                        out.push(owned(s.as_str()));
                        assert(crate::text::views(out@) =~= crate::text::views(before).push(s@));
                        assert(xs@.take(i + 1).map_values(|x: crate::json::Json| crate::stream::text_or_empty(Some(x))) =~= xs@.take(i as int).map_values(|x: crate::json::Json| crate::stream::text_or_empty(Some(x))).push(s@));
                    },
                    _ => {
                        assert(!crate::agent::all_strings(xs@));
                        return Vec::new();
                    },
                }
                i = i + 1;
            }
            assert(xs@.take(xs.len() as int) == xs@);
            out
        },
        _ => Vec::new(),
    }
}

} // verus!
