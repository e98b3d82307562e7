//! Model discovery: where to ask a provider for its model list, and how the
//! announced models meet the local ones.

use vstd::prelude::*;
use crate::models::{DiscoveredModel, Model};
use crate::text::{chars_end_with, chars_of, concat_str, ends_with, string_of, trim_trailing, trim_trailing_chars, str_eq, owned};

verus! {

/// The two model-list URLs to try, in order: `{base}/v1/models` (or
/// `{base}/models` when the base already ends in `/v1`), then
/// `{base}/models`, trailing slashes of the base removed.
pub open spec fn models_urls_spec(base: Seq<char>) -> Seq<Seq<char>> {
    let b = trim_trailing(base, '/');
    if ends_with(b, "/v1"@) {
        seq![b + "/models"@, b + "/models"@]
    } else {
        seq![b + "/v1/models"@, b + "/models"@]
    }
}

/// Model-list URL candidates for a provider base URL.
pub fn models_url_candidates(base: &str) -> (r: Vec<String>)
    ensures
        r@.len() == 2,
        r@[0]@ == models_urls_spec(base@)[0],
        r@[1]@ == models_urls_spec(base@)[1],
{
    let chars = chars_of(base);
    let b = trim_trailing_chars(chars.as_slice(), '/');
    let bs = string_of(b.as_slice());
    let v1 = chars_of("/v1");
    let second = concat_str(bs.as_str(), "/models");
    let first = if chars_end_with(b.as_slice(), v1.as_slice()) {
        concat_str(bs.as_str(), "/models")
    } else {
        concat_str(bs.as_str(), "/v1/models")
    };
    let mut out: Vec<String> = Vec::new();
    out.push(first);
    out.push(second);
    out
}

/// Whether a model id is enabled locally: the setting of the last local
/// model with that id, or false when there is none.
pub open spec fn local_enabled(existing: Seq<Model>, model_id: Seq<char>) -> bool
    decreases existing.len(),
{
    if existing.len() == 0 {
        false
    } else if existing.last().model_id@ == model_id {
        existing.last().enabled
    } else {
        local_enabled(existing.drop_last(), model_id)
    }
}

fn lookup_enabled(existing: &[Model], model_id: &str) -> (r: bool)
    ensures
        r == local_enabled(existing@, model_id@),
{
    let mut n: usize = existing.len();
    assert(existing@.take(n as int) == existing@);
    while n > 0
        invariant
            n <= existing.len(),
            local_enabled(existing@, model_id@) == local_enabled(existing@.take(n as int), model_id@),
        decreases n,
    {
        assert(existing@.take(n as int).last() == existing@[n - 1]);
        assert(existing@.take(n as int).drop_last() == existing@.take(n - 1));
        if str_eq(existing[n - 1].model_id.as_str(), model_id) {
            return existing[n - 1].enabled;
        }
        n = n - 1;
    }
    false
}

/// The discovered models (id, display name), each marked with whether it is
/// already enabled locally.
pub fn merge_with_local(existing: &[Model], raw: &[(String, String)]) -> (r: Vec<DiscoveredModel>)
    ensures
        r@.len() == raw@.len(),
        forall|k: int|
            0 <= k < raw@.len() ==> {
                &&& (#[trigger] r@[k]).model_id@ == raw@[k].0@
                &&& r@[k].display_name@ == raw@[k].1@
                &&& r@[k].enabled == local_enabled(existing@, raw@[k].0@)
            },
{
    let mut out: Vec<DiscoveredModel> = Vec::new();
    let mut k: usize = 0;
    while k < raw.len()
        invariant
            k <= raw.len(),
            out@.len() == k,
            forall|j: int|
                0 <= j < k ==> {
                    &&& (#[trigger] out@[j]).model_id@ == raw@[j].0@
                    &&& out@[j].display_name@ == raw@[j].1@
                    &&& out@[j].enabled == local_enabled(existing@, raw@[j].0@)
                },
        decreases raw.len() - k,
    {
        let (mid, name) = &raw[k];
        let enabled = lookup_enabled(existing, mid.as_str());
        out.push(DiscoveredModel { model_id: owned(mid.as_str()), display_name: owned(name.as_str()), enabled });
        k = k + 1;
    }
    out
}

} // verus!

verus! {

/// The models a list answer announces: for each entry of `data`, its `id`
/// and its non-empty `display_name` (else the id). No list, an entry
/// without an id, or an empty list give nothing.
pub open spec fn models_of(items: Seq<crate::json::Json>) -> Option<Seq<(Seq<char>, Seq<char>)>>
    decreases items.len(),
{
    if items.len() == 0 {
        Some(Seq::empty())
    } else {
        match models_of(items.drop_last()) {
            None => None,
            Some(prev) => {
                let it = Some(items.last());
                match crate::json::text(crate::json::field(it, "id"@)) {
                    None => None,
                    Some(mid) => {
                        let name = match crate::stream::nonempty_text(crate::json::field(it, "display_name"@)) {
                            Some(n) => n,
                            None => mid,
                        };
                        Some(prev.push((mid, name)))
                    },
                }
            },
        }
    }
}

pub open spec fn parse_models_spec(v: crate::json::Json) -> Option<Seq<(Seq<char>, Seq<char>)>> {
    match crate::json::elements(crate::json::field(Some(v), "data"@)) {
        None => None,
        Some(items) => match models_of(items) {
            Some(raw) => if raw.len() > 0 {
                Some(raw)
            } else {
                None
            },
            None => None,
        },
    }
}

/// Lemma: once an entry lacks an id, the whole list reads as nothing.
pub proof fn lemma_models_of_none(items: Seq<crate::json::Json>, i: int)
    requires
        0 <= i <= items.len(),
        models_of(items.take(i)) is None,
    ensures
        models_of(items) is None,
    decreases items.len(),
{
    if i < items.len() {
        assert(items.drop_last().take(i) == items.take(i));
        lemma_models_of_none(items.drop_last(), i);
    } else {
        assert(items.take(i) == items);
    }
}

/// Reads the model list of an OpenAI- or Anthropic-style answer (see
/// `parse_models_spec`).
pub fn parse_models_json(v: &crate::json::Json) -> (r: Option<Vec<(String, String)>>)
    ensures
        match r {
            Some(raw) => parse_models_spec(*v) == Some(crate::dsml::pairs_view(raw@)),
            None => parse_models_spec(*v) is None,
        },
{
    let items = match crate::json::as_array(crate::json::get(Some(v), "data")) {
        Some(a) => a,
        None => return None,
    };
    let mut raw: Vec<(String, String)> = Vec::new();
    let mut i: usize = 0;
    assert(crate::dsml::pairs_view(raw@) =~= Seq::<(Seq<char>, Seq<char>)>::empty());
    while i < items.len()
        invariant
            i <= items.len(),
            models_of(items@.take(i as int)) == Some(crate::dsml::pairs_view(raw@)),
            crate::json::elements(crate::json::field(Some(*v), "data"@)) == Some(items@),
        decreases items.len() - i,
    {
        assert(items@.take(i + 1).drop_last() == items@.take(i as int));
        let it = Some(&items[i]);
        let mid = match crate::json::as_str(crate::json::get(it, "id")) {
            Some(m) => m,
            None => {
                proof {
                    lemma_models_of_none(items@, i + 1);
                }
                return None;
            },
        };
        let name = match crate::json::as_str(crate::json::get(it, "display_name")) {
            Some(n) => if n.is_empty() {
                owned(mid)
            } else {
                owned(n)
            },
            None => owned(mid),
        };
        let ghost before = raw@;
        raw.push((owned(mid), name));
        assert(crate::dsml::pairs_view(raw@) =~= crate::dsml::pairs_view(before).push((raw@.last().0@, raw@.last().1@)));
        i = i + 1;
    }
    assert(items@.take(items.len() as int) == items@);
    if raw.len() == 0 {
        None
    } else {
        Some(raw)
    }
}

/// Why discovery found no models: the last refused status with the start of
/// its body, else the last transport error, else an empty answer.
pub open spec fn discovery_error_spec(last_status: Option<u16>, last_body: Seq<char>, last_err: Option<Seq<char>>) -> Seq<char> {
    match last_status {
        Some(code) => crate::llm::status_code_name(code) + ":HTTP "@ + crate::text::decimal(code as nat) + " "@
            + crate::llm::prefix_of(last_body, 300),
        None => match last_err {
            Some(e) => e,
            None => "服务器未返回可用模型列表"@,
        },
    }
}

/// The error of a discovery that found no models (see
/// `discovery_error_spec`).
pub fn discovery_error(last_status: Option<u16>, last_body: &str, last_err: &Option<String>) -> (r: String)
    ensures
        r@ == discovery_error_spec(last_status, last_body@, crate::skills::opt_view(*last_err)),
{
    match last_status {
        Some(code) => {
            let a = concat_str(crate::llm::status_error_code(code), ":HTTP ");
            let b = concat_str(a.as_str(), crate::text::u64_to_string(code as u64).as_str());
            let c = concat_str(b.as_str(), " ");
            concat_str(c.as_str(), crate::llm::truncate(last_body, 300).as_str())
        },
        None => match last_err {
            Some(e) => owned(e.as_str()),
            None => owned("服务器未返回可用模型列表"),
        },
    }
}

} // verus!
