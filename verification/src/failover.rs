//! Automatic failover between providers and models.
//!
//! A failed request moves on only for failures of the kinds the user chose
//! (`timeout`, `5xx`, `empty-response`, `content-filter`; a refused
//! connection counts as a timeout), never for an excluded HTTP status, and
//! only to providers and models that are enabled.

use vstd::prelude::*;
use crate::models::{FailoverConfig, FailoverStrategy, Model, Provider, ProviderType};
use crate::utils::now_ms;
use crate::text::{lemma_swap_to_multiset, starts_with, chars_start_with, chars_of, find_from, find_seq, first_index, lemma_find_seq_found, lemma_first_index, lemma_first_index_is, lemma_first_index_none, str_eq};

verus! {

// ---------- error classification ----------

/// The failover trigger that an error code belongs to, if any.
pub open spec fn trigger_spec(code: Seq<char>) -> Option<Seq<char>> {
    if code == "TIMEOUT"@ || code == "NETWORK"@ {
        Some("timeout"@)
    } else if code == "SERVER"@ {
        Some("5xx"@)
    } else if code == "EMPTY"@ {
        Some("empty-response"@)
    } else if code == "CONTENT_FILTER"@ {
        Some("content-filter"@)
    } else {
        None
    }
}

fn trigger_of(code: &str) -> (r: Option<&'static str>)
    ensures
        match r {
            Some(t) => trigger_spec(code@) == Some(t@),
            None => trigger_spec(code@) is None,
        },
{
    if str_eq(code, "TIMEOUT") || str_eq(code, "NETWORK") {
        Some("timeout")
    } else if str_eq(code, "SERVER") {
        Some("5xx")
    } else if str_eq(code, "EMPTY") {
        Some("empty-response")
    } else if str_eq(code, "CONTENT_FILTER") {
        Some("content-filter")
    } else {
        None
    }
}

/// `CODE:message` split at the first colon; without a colon the code is
/// `UNKNOWN` and the message is the whole text.
pub open spec fn split_error_spec(e: Seq<char>) -> (Seq<char>, Seq<char>) {
    match find_seq(e, seq![':']) {
        Some(i) => (e.take(i), e.skip(i + 1)),
        None => ("UNKNOWN"@, e),
    }
}

/// Splits an error of the form `CODE:message`.
pub fn split_error(e: &str) -> (r: (&str, &str))
    ensures
        (r.0@, r.1@) == split_error_spec(e@),
{
    let chars = chars_of(e);
    let colon = vec![':'];
    assert(colon@ == seq![':']);
    assert(chars@.skip(0) == chars@);
    match find_from(chars.as_slice(), colon.as_slice(), 0) {
        Some(i) => {
            proof {
                lemma_find_seq_found(e@, seq![':']);
            }
            let n = e.unicode_len();
            (e.substring_char(0, i), e.substring_char(i + 1, n))
        },
        None => ("UNKNOWN", e),
    }
}

pub open spec fn is_ascii_digit(c: char) -> bool {
    '0' <= c && c <= '9'
}

/// Number of ASCII digits at the start of `s`.
pub open spec fn leading_digits(s: Seq<char>) -> nat
    decreases s.len(),
{
    if s.len() == 0 || !is_ascii_digit(s[0]) {
        0
    } else {
        1 + leading_digits(s.drop_first())
    }
}

/// The decimal value of a string of ASCII digits.
pub open spec fn digits_value(d: Seq<char>) -> int
    decreases d.len(),
{
    if d.len() == 0 {
        0
    } else {
        digits_value(d.drop_last()) * 10 + (d.last() as int - '0' as int)
    }
}

/// What `str::parse::<u16>` gives for a string of ASCII digits.
pub open spec fn parse_u16_digits(d: Seq<char>) -> Option<u16> {
    if d.len() == 0 || digits_value(d) > 65535 {
        None
    } else {
        Some(digits_value(d) as u16)
    }
}

pub open spec fn http_marker() -> Seq<char> {
    seq!['H', 'T', 'T', 'P', ' ']
}

/// The HTTP status written after the first `HTTP ` in a message.
pub open spec fn status_spec(msg: Seq<char>) -> Option<u16> {
    match find_seq(msg, http_marker()) {
        Some(i) => {
            let rest = msg.skip(i + 5);
            parse_u16_digits(rest.take(leading_digits(rest) as int))
        },
        None => None,
    }
}

proof fn lemma_digits_value_nonneg(d: Seq<char>)
    requires
        forall|k: int| 0 <= k < d.len() ==> is_ascii_digit(#[trigger] d[k]),
    ensures
        digits_value(d) >= 0,
    decreases d.len(),
{
    if d.len() > 0 {
        lemma_digits_value_nonneg(d.drop_last());
    }
}

proof fn lemma_leading_digits_step(s: Seq<char>, k: int)
    requires
        0 <= k < s.len(),
        forall|j: int| 0 <= j < k ==> is_ascii_digit(#[trigger] s[j]),
        leading_digits(s) == k + leading_digits(s.skip(k)),
    ensures
        is_ascii_digit(s[k]) ==> leading_digits(s) == k + 1 + leading_digits(s.skip(k + 1)),
        !is_ascii_digit(s[k]) ==> leading_digits(s) == k,
{
    assert(s.skip(k).drop_first() =~= s.skip(k + 1));
    assert(s.skip(k)[0] == s[k]);
}

/// The value of the ASCII digits that start at `start`, as `str::parse::<u16>`
/// reads them.
fn leading_u16(s: &[char], start: usize) -> (r: Option<u16>)
    requires
        start <= s.len(),
    ensures
        r == parse_u16_digits(s@.skip(start as int).take(leading_digits(s@.skip(start as int)) as int)),
{
    let ghost rest = s@.skip(start as int);
    let mut j: usize = start;
    let mut value: u32 = 0;
    assert(rest.skip(0) == rest);
    assert(rest.take(0) =~= Seq::<char>::empty());
    while j < s.len() && '0' <= s[j] && s[j] <= '9'
        invariant
            start <= j <= s.len(),
            rest == s@.skip(start as int),
            forall|k: int| 0 <= k < j - start ==> is_ascii_digit(#[trigger] rest[k]),
            leading_digits(rest) == (j - start) + leading_digits(rest.skip(j - start)),
            value <= 655359,
            digits_value(rest.take(j - start)) <= 65535 ==> value == digits_value(
                rest.take(j - start),
            ),
            digits_value(rest.take(j - start)) > 65535 ==> value > 65535,
        decreases s.len() - j,
    {
        let k = j - start;
        proof {
            lemma_leading_digits_step(rest, k as int);
            assert(rest.take(k + 1).drop_last() =~= rest.take(k as int));
            assert(rest.take(k + 1).last() == s@[j as int]);
            assert forall|m: int| 0 <= m < k implies is_ascii_digit(
                #[trigger] rest.take(k as int)[m],
            ) by {}
            lemma_digits_value_nonneg(rest.take(k as int));
        }
        let d = (s[j] as u32) - ('0' as u32);
        if value <= 65535 {
            value = value * 10 + d;
        }
        j = j + 1;
    }
    let k = j - start;
    proof {
        if j < s.len() {
            lemma_leading_digits_step(rest, k as int);
        } else {
            assert(rest.skip(k as int).len() == 0);
        }
    }
    if k == 0 || value > 65535 {
        None
    } else {
        Some(value as u16)
    }
}

/// Extracts the HTTP status of a classified error message
/// (`"SERVER:HTTP 502: ..."` gives 502).
fn extract_status(msg: &str) -> (r: Option<u16>)
    ensures
        r == status_spec(msg@),
{
    let chars = chars_of(msg);
    let marker = vec!['H', 'T', 'T', 'P', ' '];
    assert(marker@ == http_marker());
    assert(chars@.skip(0) == chars@);
    match find_from(chars.as_slice(), marker.as_slice(), 0) {
        Some(i) => {
            proof {
                assert(chars@ == msg@);
                lemma_find_seq_found(chars@, http_marker());
                assert(find_seq(chars@, http_marker()) == Some(i as int));
                assert(http_marker().len() == 5);
                assert(chars@.subrange(i as int, i + 5) == http_marker());
                assert(i + 5 <= chars@.len());
                assert(chars@.len() == msg@.len());
                assert(i + 5 <= chars.len());
            }
            leading_u16(chars.as_slice(), i + 5)
        },
        None => None,
    }
}

/// Whether a failure moves on to another provider under `cfg`.
pub open spec fn retryable_spec(error: Seq<char>, cfg: FailoverConfig) -> bool {
    let code = split_error_spec(error).0;
    let msg = split_error_spec(error).1;
    &&& cfg.enabled
    &&& trigger_spec(code) is Some
    &&& !(status_spec(msg) matches Some(s) && cfg.excluded_status_codes@.contains(s))
    &&& exists|i: int|
        0 <= i < cfg.trigger_conditions@.len() && #[trigger] cfg.trigger_conditions@[i]@
            == trigger_spec(code).unwrap()
}

/// Decides whether a failed attempt (`error` of the form `CODE:message`)
/// triggers failover under `cfg`. Excluded status codes win over triggers.
pub fn is_retryable(error: &str, cfg: &FailoverConfig) -> (r: bool)
    ensures
        r == retryable_spec(error@, *cfg),
{
    if !cfg.enabled {
        return false;
    }
    let (code, msg) = split_error(error);
    assert(split_error_spec(error@).0 == code@ && split_error_spec(error@).1 == msg@);
    let trigger = match trigger_of(code) {
        Some(t) => t,
        None => return false,
    };
    if let Some(status) = extract_status(msg) {
        let mut k: usize = 0;
        while k < cfg.excluded_status_codes.len()
            invariant
                k <= cfg.excluded_status_codes.len(),
                status_spec(msg@) == Some(status),
                split_error_spec(error@).1 == msg@,
                forall|j: int| 0 <= j < k ==> cfg.excluded_status_codes@[j] != status,
            decreases cfg.excluded_status_codes.len() - k,
        {
            if cfg.excluded_status_codes[k] == status {
                assert(cfg.excluded_status_codes@[k as int] == status);
                assert(cfg.excluded_status_codes@.contains(status));
                assert(status_spec(msg@) == Some(status));
                assert(!retryable_spec(error@, *cfg));
                return false;
            }
            k = k + 1;
        }
        assert(!cfg.excluded_status_codes@.contains(status));
    }
    let ghost not_excluded = !(status_spec(msg@) matches Some(s) && cfg.excluded_status_codes@.contains(s));
    assert(not_excluded);
    let mut i: usize = 0;
    while i < cfg.trigger_conditions.len()
        invariant
            i <= cfg.trigger_conditions.len(),
            trigger_spec(code@) == Some(trigger@),
            not_excluded == !(status_spec(msg@) matches Some(s) && cfg.excluded_status_codes@.contains(s)),
            not_excluded,
            cfg.enabled,
            (code@, msg@) == split_error_spec(error@),
            forall|j: int| 0 <= j < i ==> #[trigger] cfg.trigger_conditions@[j]@ != trigger@,
        decreases cfg.trigger_conditions.len() - i,
    {
        if str_eq(cfg.trigger_conditions[i].as_str(), trigger) {
            assert(cfg.trigger_conditions@[i as int]@ == trigger_spec(code@).unwrap());
            return true;
        }
        i = i + 1;
    }
    false
}

} // verus!

verus! {

// ---------- candidate selection ----------

/// An enabled model whose id is `id`.
pub open spec fn model_with_id(id: Seq<char>) -> spec_fn(Model) -> bool {
    |m: Model| m.id@ == id && m.enabled
}

/// An enabled provider whose id is `id`.
pub open spec fn provider_with_id(id: Seq<char>) -> spec_fn(Provider) -> bool {
    |p: Provider| p.id@ == id && p.enabled
}

/// An enabled model of the provider `pid`.
pub open spec fn model_of_provider(pid: Seq<char>) -> spec_fn(Model) -> bool {
    |m: Model| m.provider_id@ == pid && m.enabled
}

/// `out` holds, in order, the provider and model at each index pair.
pub open spec fn pairs_match(
    out: Seq<(Provider, Model)>,
    pairs: Seq<(usize, usize)>,
    providers: Seq<Provider>,
    models: Seq<Model>,
) -> bool {
    &&& out.len() == pairs.len()
    &&& forall|k: int|
        0 <= k < pairs.len() ==> {
            &&& (#[trigger] pairs[k]).0 < providers.len()
            &&& pairs[k].1 < models.len()
            &&& out[k].0 == providers[pairs[k].0 as int]
            &&& out[k].1.same_as(models[pairs[k].1 as int])
        }
}

/// The index pairs (provider, model) that a user's fallback chain resolves
/// to: each model id names its first enabled model and that model's first
/// enabled provider; ids that resolve to nothing, and repeats, are skipped.
pub open spec fn chain_pairs(
    chain: Seq<String>,
    providers: Seq<Provider>,
    models: Seq<Model>,
) -> Seq<(usize, usize)>
    decreases chain.len(),
{
    if chain.len() == 0 {
        seq![]
    } else {
        let prev = chain_pairs(chain.drop_last(), providers, models);
        match first_index(models, model_with_id(chain.last()@)) {
            None => prev,
            Some(mi) => match first_index(
                providers,
                provider_with_id(models[mi].provider_id@),
            ) {
                None => prev,
                Some(pi) => {
                    if prev.contains((pi as usize, mi as usize)) {
                        prev
                    } else {
                        prev.push((pi as usize, mi as usize))
                    }
                },
            },
        }
    }
}

/// The index pairs of the automatic candidates: every enabled provider other
/// than the failed one, in list order, with its first enabled model.
pub open spec fn candidate_pairs(
    providers: Seq<Provider>,
    models: Seq<Model>,
    failed: Seq<char>,
) -> Seq<(usize, usize)>
    decreases providers.len(),
{
    if providers.len() == 0 {
        seq![]
    } else {
        let prev = candidate_pairs(providers.drop_last(), models, failed);
        let i = providers.len() - 1;
        let p = providers[i];
        if !p.enabled || p.id@ == failed {
            prev
        } else {
            match first_index(models, model_of_provider(p.id@)) {
                Some(mi) => prev.push((i as usize, mi as usize)),
                None => prev,
            }
        }
    }
}

/// Position of the failed provider in the provider list (0 when absent).
pub open spec fn rotation_offset(providers: Seq<Provider>, failed: Seq<char>) -> int {
    match first_index(providers, |p: Provider| p.id@ == failed) {
        Some(k) => k,
        None => 0,
    }
}

pub open spec fn rotate_left<A>(s: Seq<A>, k: int) -> Seq<A> {
    s.skip(k) + s.take(k)
}

/// The round-robin order: the candidates rotated left by the failed
/// provider's position.
pub open spec fn round_robin<A>(base: Seq<A>, offset: int) -> Seq<A> {
    if base.len() == 0 {
        base
    } else {
        rotate_left(base, offset % (base.len() as int))
    }
}

#[verifier::opaque]
pub open spec fn lcg_step(seed: u64) -> u64 {
    seed.wrapping_mul(6364136223846793005u64).wrapping_add(1442695040888963407u64)
}

pub open spec fn swap_at<A>(s: Seq<A>, i: int, j: int) -> Seq<A> {
    s.update(i, s[j]).update(j, s[i])
}

/// One step of the linear congruential sequence.
fn lcg_next(seed: u64) -> (r: u64)
    ensures
        r == lcg_step(seed),
{
    reveal(lcg_step);
    seed.wrapping_mul(6364136223846793005u64).wrapping_add(1442695040888963407u64)
}

/// Fisher–Yates over positions `i` down to 1, drawing each swap partner from
/// a linear congruential sequence started at `seed`.
#[verifier::opaque]
pub open spec fn shuffle_spec<A>(s: Seq<A>, i: int, seed: u64) -> Seq<A>
    decreases i,
{
    if i < 1 || i >= s.len() {
        s
    } else {
        let next = lcg_step(seed);
        let j = (next % ((i + 1) as u64)) as int;
        shuffle_spec(swap_at(s, i, j), i - 1, next)
    }
}

fn find_enabled_model(models: &[Model], id: &str) -> (r: Option<usize>)
    ensures
        match r {
            Some(i) => first_index(models@, model_with_id(id@)) == Some(i as int),
            None => first_index(models@, model_with_id(id@)) is None,
        },
{
    let mut i: usize = 0;
    while i < models.len()
        invariant
            i <= models.len(),
            forall|j: int| 0 <= j < i ==> !(model_with_id(id@))(#[trigger] models@[j]),
        decreases models.len() - i,
    {
        if models[i].enabled && str_eq(models[i].id.as_str(), id) {
            proof {
                lemma_first_index_is(models@, model_with_id(id@), i as int);
            }
            return Some(i);
        }
        i = i + 1;
    }
    proof {
        lemma_first_index_none(models@, model_with_id(id@));
    }
    None
}

fn find_model_of_provider(models: &[Model], pid: &str) -> (r: Option<usize>)
    ensures
        match r {
            Some(i) => first_index(models@, model_of_provider(pid@)) == Some(i as int),
            None => first_index(models@, model_of_provider(pid@)) is None,
        },
{
    let mut i: usize = 0;
    while i < models.len()
        invariant
            i <= models.len(),
            forall|j: int| 0 <= j < i ==> !(model_of_provider(pid@))(#[trigger] models@[j]),
        decreases models.len() - i,
    {
        if models[i].enabled && str_eq(models[i].provider_id.as_str(), pid) {
            proof {
                lemma_first_index_is(models@, model_of_provider(pid@), i as int);
            }
            return Some(i);
        }
        i = i + 1;
    }
    proof {
        lemma_first_index_none(models@, model_of_provider(pid@));
    }
    None
}

pub(crate) fn find_enabled_provider(providers: &[Provider], id: &str) -> (r: Option<usize>)
    ensures
        match r {
            Some(i) => first_index(providers@, provider_with_id(id@)) == Some(i as int),
            None => first_index(providers@, provider_with_id(id@)) is None,
        },
{
    let mut i: usize = 0;
    while i < providers.len()
        invariant
            i <= providers.len(),
            forall|j: int| 0 <= j < i ==> !(provider_with_id(id@))(#[trigger] providers@[j]),
        decreases providers.len() - i,
    {
        if providers[i].enabled && str_eq(providers[i].id.as_str(), id) {
            proof {
                lemma_first_index_is(providers@, provider_with_id(id@), i as int);
            }
            return Some(i);
        }
        i = i + 1;
    }
    proof {
        lemma_first_index_none(providers@, provider_with_id(id@));
    }
    None
}

fn contains_pair(pairs: &Vec<(usize, usize)>, pair: (usize, usize)) -> (r: bool)
    ensures
        r == pairs@.contains(pair),
{
    let mut k: usize = 0;
    while k < pairs.len()
        invariant
            k <= pairs.len(),
            forall|j: int| 0 <= j < k ==> pairs@[j] != pair,
        decreases pairs.len() - k,
    {
        if pairs[k].0 == pair.0 && pairs[k].1 == pair.1 {
            assert(pairs@[k as int] == pair);
            return true;
        }
        k = k + 1;
    }
    false
}

/// The providers and models at the given index pairs, cloned in order.
fn materialize(pairs: &Vec<(usize, usize)>, providers: &[Provider], models: &[Model]) -> (r: Vec<
    (Provider, Model),
>)
    requires
        forall|k: int|
            0 <= k < pairs@.len() ==> (#[trigger] pairs@[k]).0 < providers.len() && pairs@[k].1
                < models.len(),
    ensures
        pairs_match(r@, pairs@, providers@, models@),
{
    let mut out: Vec<(Provider, Model)> = Vec::new();
    let mut k: usize = 0;
    while k < pairs.len()
        invariant
            k <= pairs.len(),
            forall|j: int|
                0 <= j < pairs@.len() ==> (#[trigger] pairs@[j]).0 < providers.len()
                    && pairs@[j].1 < models.len(),
            pairs_match(out@, pairs@.take(k as int), providers@, models@),
        decreases pairs.len() - k,
    {
        let (pi, mi) = pairs[k];
        out.push((providers[pi].clone(), models[mi].clone()));
        k = k + 1;
        assert forall|j: int| 0 <= j < k implies #[trigger] pairs@.take(k as int)[j] == pairs@[j] by {}
    }
    assert(pairs@.take(pairs.len() as int) == pairs@);
    out
}

/// Resolves the user's fallback chain (model ids, in the user's order) to
/// (provider, model) pairs. Unknown or disabled models, models of disabled
/// providers and repeated entries are skipped.
pub fn pick_from_chain(chain: &[String], providers: &[Provider], models: &[Model]) -> (r: Vec<
    (Provider, Model),
>)
    ensures
        pairs_match(r@, chain_pairs(chain@, providers@, models@), providers@, models@),
{
    let mut pairs: Vec<(usize, usize)> = Vec::new();
    let mut c: usize = 0;
    while c < chain.len()
        invariant
            c <= chain.len(),
            pairs@ == chain_pairs(chain@.take(c as int), providers@, models@),
            forall|k: int|
                0 <= k < pairs@.len() ==> (#[trigger] pairs@[k]).0 < providers.len() && pairs@[k].1
                    < models.len(),
        decreases chain.len() - c,
    {
        proof {
            assert(chain@.take(c + 1).drop_last() == chain@.take(c as int));
            assert(chain@.take(c + 1).last() == chain@[c as int]);
        }
        if let Some(mi) = find_enabled_model(models, chain[c].as_str()) {
            proof {
                lemma_first_index(models@, model_with_id(chain@[c as int]@));
            }
            if let Some(pi) = find_enabled_provider(providers, models[mi].provider_id.as_str()) {
                proof {
                    lemma_first_index(providers@, provider_with_id(models@[mi as int].provider_id@));
                }
                if !contains_pair(&pairs, (pi, mi)) {
                    pairs.push((pi, mi));
                }
            }
        }
        c = c + 1;
    }
    assert(chain@.take(chain.len() as int) == chain@);
    materialize(&pairs, providers, models)
}

} // verus!

verus! {

proof fn lemma_shuffle_unfold<A>(s: Seq<A>, i: int, seed: u64)
    requires
        1 <= i < s.len(),
    ensures
        shuffle_spec(s, i, seed) == shuffle_spec(
            swap_at(s, i, (lcg_step(seed) % ((i + 1) as u64)) as int),
            i - 1,
            lcg_step(seed),
        ),
{
    reveal(shuffle_spec);
}

proof fn lemma_shuffle_base<A>(s: Seq<A>, seed: u64)
    ensures
        shuffle_spec(s, 0, seed) == s,
{
    reveal(shuffle_spec);
}

/// The swap partner for position `i`: `seed mod (i + 1)`.
fn swap_partner(seed: u64, i: usize) -> (j: usize)
    requires
        i < usize::MAX,
    ensures
        j <= i,
        j as int == (seed % ((i + 1) as u64)) as int,
{
    let m: u64 = (i as u64) + 1;
    let r = seed % m;
    assert(r < m) by (nonlinear_arith)
        requires
            m > 0,
            r == seed % m,
    ;
    r as usize
}

fn swap_pairs(v: &mut Vec<(usize, usize)>, i: usize, j: usize)
    requires
        i < old(v).len(),
        j < old(v).len(),
    ensures
        final(v)@ == swap_at(old(v)@, i as int, j as int),
        final(v)@.to_multiset() == old(v)@.to_multiset(),
{
    let a = v[i];
    let b = v[j];
    proof {
        lemma_swap_to_multiset(v@, i as int, j as int);
    }
    v.set(i, b);
    v.set(j, a);
    assert(v@ =~= swap_at(old(v)@, i as int, j as int));
}

/// Fisher–Yates steps for positions `i` down to 1.
fn shuffle_from(v: Vec<(usize, usize)>, i: usize, seed: u64) -> (r: Vec<(usize, usize)>)
    requires
        i < v@.len(),
    ensures
        r@ == shuffle_spec(v@, i as int, seed),
        r@.to_multiset() == v@.to_multiset(),
    decreases i,
{
    if i == 0 {
        proof {
            lemma_shuffle_base(v@, seed);
        }
        return v;
    }
    let mut out = v;
    assert(i < out.len());
    let next = lcg_next(seed);
    let j = swap_partner(next, i);
    proof {
        lemma_shuffle_unfold(out@, i as int, seed);
    }
    swap_pairs(&mut out, i, j);
    shuffle_from(out, i - 1, next)
}

/// The candidate pairs in Fisher–Yates order for the given seed.
pub fn shuffle_pairs(v: Vec<(usize, usize)>, seed: u64) -> (r: Vec<(usize, usize)>)
    ensures
        r@ == shuffle_spec(v@, v@.len() - 1, seed),
        r@.to_multiset() == v@.to_multiset(),
{
    if v.len() == 0 {
        proof {
            reveal(shuffle_spec);
        }
        return v;
    }
    let n = v.len();
    shuffle_from(v, n - 1, seed)
}

/// Rotates the pairs left by `k` positions.
fn rotate_pairs(v: &Vec<(usize, usize)>, k: usize) -> (r: Vec<(usize, usize)>)
    requires
        k <= v.len(),
    ensures
        r@ == rotate_left(v@, k as int),
{
    let mut out: Vec<(usize, usize)> = Vec::new();
    let mut i: usize = k;
    while i < v.len()
        invariant
            k <= i <= v.len(),
            out@ == v@.subrange(k as int, i as int),
        decreases v.len() - i,
    {
        out.push(v[i]);
        i = i + 1;
        assert(out@ == v@.subrange(k as int, i as int));
    }
    let mut j: usize = 0;
    while j < k
        invariant
            j <= k <= v.len(),
            out@ == v@.skip(k as int) + v@.take(j as int),
        decreases k - j,
    {
        out.push(v[j]);
        j = j + 1;
        assert(out@ == v@.skip(k as int) + v@.take(j as int));
    }
    out
}

fn position_of_provider(providers: &[Provider], id: &str) -> (r: usize)
    ensures
        r == rotation_offset(providers@, id@),
{
    let mut i: usize = 0;
    while i < providers.len()
        invariant
            i <= providers.len(),
            forall|j: int|
                0 <= j < i ==> !((|p: Provider| p.id@ == id@)(#[trigger] providers@[j])),
        decreases providers.len() - i,
    {
        if str_eq(providers[i].id.as_str(), id) {
            proof {
                lemma_first_index_is(providers@, |p: Provider| p.id@ == id@, i as int);
            }
            return i;
        }
        i = i + 1;
    }
    proof {
        lemma_first_index_none(providers@, |p: Provider| p.id@ == id@);
    }
    0
}

/// Index pairs of the automatic candidates (see `candidate_pairs`).
fn candidate_index_pairs(providers: &[Provider], models: &[Model], failed: &str) -> (r: Vec<
    (usize, usize),
>)
    ensures
        r@ == candidate_pairs(providers@, models@, failed@),
        forall|k: int|
            0 <= k < r@.len() ==> (#[trigger] r@[k]).0 < providers.len() && r@[k].1 < models.len(),
{
    let mut base: Vec<(usize, usize)> = Vec::new();
    let mut i: usize = 0;
    while i < providers.len()
        invariant
            i <= providers.len(),
            base@ == candidate_pairs(providers@.take(i as int), models@, failed@),
            forall|k: int|
                0 <= k < base@.len() ==> (#[trigger] base@[k]).0 < providers.len() && base@[k].1
                    < models.len(),
        decreases providers.len() - i,
    {
        proof {
            assert(providers@.take(i + 1).drop_last() == providers@.take(i as int));
            assert(providers@.take(i + 1)[i as int] == providers@[i as int]);
        }
        let p = &providers[i];
        if p.enabled && !str_eq(p.id.as_str(), failed) {
            if let Some(mi) = find_model_of_provider(models, p.id.as_str()) {
                proof {
                    lemma_first_index(models@, model_of_provider(providers@[i as int].id@));
                }
                base.push((i, mi));
            }
        }
        i = i + 1;
    }
    assert(providers@.take(providers.len() as int) == providers@);
    base
}

/// The candidates in some order: the sequential candidates, each pair once
/// per occurrence, reordered.
pub open spec fn reorders_candidates(
    out: Seq<(Provider, Model)>,
    providers: Seq<Provider>,
    models: Seq<Model>,
    failed: Seq<char>,
) -> bool {
    exists|order: Seq<(usize, usize)>|
        order.to_multiset() == candidate_pairs(providers, models, failed).to_multiset() && #[trigger] pairs_match(
            out,
            order,
            providers,
            models,
        )
}

/// Automatic failover candidates: every enabled provider other than the one
/// that failed and that has an enabled model, with its first enabled model.
/// The order follows `strategy`: list order (sequential), the list rotated
/// by the failed provider's position (round-robin), or a clock-seeded
/// shuffle (random).
pub fn pick_candidates(
    providers: &[Provider],
    models_by_provider: &[Model],
    failed_provider_id: &str,
    strategy: FailoverStrategy,
) -> (r: Vec<(Provider, Model)>)
    ensures
        strategy == FailoverStrategy::Sequential ==> pairs_match(
            r@,
            candidate_pairs(providers@, models_by_provider@, failed_provider_id@),
            providers@,
            models_by_provider@,
        ),
        strategy == FailoverStrategy::RoundRobin ==> pairs_match(
            r@,
            round_robin(
                candidate_pairs(providers@, models_by_provider@, failed_provider_id@),
                rotation_offset(providers@, failed_provider_id@),
            ),
            providers@,
            models_by_provider@,
        ),
        strategy == FailoverStrategy::Random ==> exists|order: Seq<(usize, usize)>|
            order.to_multiset() == candidate_pairs(
                providers@,
                models_by_provider@,
                failed_provider_id@,
            ).to_multiset() && pairs_match(r@, order, providers@, models_by_provider@),
        reorders_candidates(r@, providers@, models_by_provider@, failed_provider_id@),
{
    let base = candidate_index_pairs(providers, models_by_provider, failed_provider_id);
    let ghost cands = candidate_pairs(providers@, models_by_provider@, failed_provider_id@);
    match strategy {
        FailoverStrategy::Sequential => {
            let r = materialize(&base, providers, models_by_provider);
            assert(pairs_match(r@, cands, providers@, models_by_provider@));
            r
        },
        FailoverStrategy::RoundRobin => {
            let offset = position_of_provider(providers, failed_provider_id);
            let n = base.len();
            if n > 0 {
                let rotated = rotate_pairs(&base, offset % n);
                proof {
                    assert forall|k: int| 0 <= k < rotated@.len() implies (#[trigger] rotated@[k]).0
                        < providers.len() && rotated@[k].1 < models_by_provider.len() by {
                        if k < n - (offset % n) {
                            assert(rotated@[k] == base@[k + (offset % n)]);
                        } else {
                            assert(rotated@[k] == base@[k - (n - (offset % n))]);
                        }
                    }
                }
                let r = materialize(&rotated, providers, models_by_provider);
                proof {
                    let off = rotation_offset(providers@, failed_provider_id@);
                    lemma_round_robin_permutes(cands, off);
                    assert(pairs_match(r@, round_robin(cands, off), providers@, models_by_provider@));
                }
                r
            } else {
                let r = materialize(&base, providers, models_by_provider);
                assert(pairs_match(r@, cands, providers@, models_by_provider@));
                r
            }
        },
        FailoverStrategy::Random => {
            let seed = now_ms() as u64;
            let shuffled = shuffle_pairs(base, seed);
            proof {
                broadcast use vstd::seq_lib::group_to_multiset_ensures;
                assert forall|k: int| 0 <= k < shuffled@.len() implies (#[trigger] shuffled@[k]).0
                    < providers.len() && shuffled@[k].1 < models_by_provider.len() by {
                    assert(shuffled@.contains(shuffled@[k]));
                    assert(shuffled@.to_multiset().count(shuffled@[k]) > 0);
                    assert(base@.to_multiset().count(shuffled@[k]) > 0);
                    assert(base@.contains(shuffled@[k]));
                }
            }
            let r = materialize(&shuffled, providers, models_by_provider);
            assert(shuffled@.to_multiset() == candidate_pairs(
                providers@,
                models_by_provider@,
                failed_provider_id@,
            ).to_multiset());
            assert(pairs_match(r@, shuffled@, providers@, models_by_provider@));
            r
        },
    }
}

} // verus!

verus! {

// ---------- the failover loop's decisions ----------

/// What the chat loop does after an attempt failed.
#[derive(Clone, Copy, Debug, PartialEq, Eq, Structural)]
pub enum FailoverStep {
    /// Give up and report this attempt's error.
    Stop,
    /// Retry on the candidate at this index.
    SwitchTo(usize),
}

/// The decision after the `attempt`-th failover (counting from 0) failed
/// with `error`: a user abort stops at once; a failure that is not
/// retryable, or that came after output was already streamed, stops; so
/// does running out of candidates; otherwise candidate `attempt` takes over.
pub open spec fn failover_step_spec(
    error: Seq<char>,
    aborted: bool,
    emitted: bool,
    cfg: FailoverConfig,
    candidate_count: nat,
    attempt: nat,
) -> FailoverStep {
    if aborted || starts_with(error, "ABORTED"@) {
        FailoverStep::Stop
    } else if !retryable_spec(error, cfg) || emitted {
        FailoverStep::Stop
    } else if attempt >= candidate_count {
        FailoverStep::Stop
    } else {
        FailoverStep::SwitchTo(attempt as usize)
    }
}

/// Decides how the chat loop goes on after a failed attempt.
pub fn next_failover_step(
    error: &str,
    aborted: bool,
    emitted: bool,
    cfg: &FailoverConfig,
    candidate_count: usize,
    attempt: u32,
) -> (r: FailoverStep)
    ensures
        r == failover_step_spec(
            error@,
            aborted,
            emitted,
            *cfg,
            candidate_count as nat,
            attempt as nat,
        ),
{
    let e = chars_of(error);
    let prefix = chars_of("ABORTED");
    if aborted || chars_start_with(e.as_slice(), prefix.as_slice()) {
        return FailoverStep::Stop;
    }
    if !is_retryable(error, cfg) || emitted {
        return FailoverStep::Stop;
    }
    if attempt as u64 >= candidate_count as u64 {
        return FailoverStep::Stop;
    }
    FailoverStep::SwitchTo(attempt as usize)
}

/// The ordered candidates of a failover: the user's fallback chain when one
/// is configured, otherwise the automatic candidates under the configured
/// strategy.
pub fn failover_candidates(
    cfg: &FailoverConfig,
    providers: &[Provider],
    models: &[Model],
    failed_provider_id: &str,
) -> (r: Vec<(Provider, Model)>)
    ensures
        cfg.fallback_chain@.len() > 0 ==> pairs_match(
            r@,
            chain_pairs(cfg.fallback_chain@, providers@, models@),
            providers@,
            models@,
        ),
        cfg.fallback_chain@.len() == 0 && cfg.strategy == FailoverStrategy::Sequential
            ==> pairs_match(
            r@,
            candidate_pairs(providers@, models@, failed_provider_id@),
            providers@,
            models@,
        ),
        cfg.fallback_chain@.len() == 0 && cfg.strategy == FailoverStrategy::RoundRobin
            ==> pairs_match(
            r@,
            round_robin(
                candidate_pairs(providers@, models@, failed_provider_id@),
                rotation_offset(providers@, failed_provider_id@),
            ),
            providers@,
            models@,
        ),
        cfg.fallback_chain@.len() == 0 && cfg.strategy == FailoverStrategy::Random ==> exists|
            order: Seq<(usize, usize)>,
        |
            order.to_multiset() == candidate_pairs(
                providers@,
                models@,
                failed_provider_id@,
            ).to_multiset() && pairs_match(r@, order, providers@, models@),
{
    if cfg.fallback_chain.len() == 0 {
        pick_candidates(providers, models, failed_provider_id, cfg.strategy)
    } else {
        pick_from_chain(cfg.fallback_chain.as_slice(), providers, models)
    }
}

/// The candidates that can be called, in order: Ollama providers, which
/// need no key, and those whose key is present (`has_key[k]` for candidate
/// `k`).
pub open spec fn reachable_spec(
    candidates: Seq<(Provider, Model)>,
    has_key: Seq<bool>,
) -> Seq<(Provider, Model)>
    decreases candidates.len(),
{
    if candidates.len() == 0 {
        seq![]
    } else {
        let n = candidates.len() - 1;
        let prev = reachable_spec(candidates.drop_last(), has_key.take(n));
        if candidates[n].0.provider_type == ProviderType::Ollama || has_key[n] {
            prev.push(candidates[n])
        } else {
            prev
        }
    }
}

/// Every candidate that can be called stays: an Ollama candidate always
/// (it needs no API key), any other when its key is present.
pub proof fn lemma_reachable_keeps(candidates: Seq<(Provider, Model)>, has_key: Seq<bool>, i: int)
    requires
        has_key.len() == candidates.len(),
        0 <= i < candidates.len(),
        candidates[i].0.provider_type == ProviderType::Ollama || has_key[i],
    ensures
        reachable_spec(candidates, has_key).contains(candidates[i]),
    decreases candidates.len(),
{
    let n = candidates.len() - 1;
    let prev = reachable_spec(candidates.drop_last(), has_key.take(n));
    if i == n {
        assert(reachable_spec(candidates, has_key) == prev.push(candidates[n]));
        assert(prev.push(candidates[n])[prev.len() as int] == candidates[i]);
    } else {
        assert(candidates.drop_last()[i] == candidates[i]);
        lemma_reachable_keeps(candidates.drop_last(), has_key.take(n), i);
        let j = choose|j: int| 0 <= j < prev.len() && prev[j] == candidates[i];
        if candidates[n].0.provider_type == ProviderType::Ollama || has_key[n] {
            assert(prev.push(candidates[n])[j] == candidates[i]);
        }
    }
}

/// Only candidates that can be called stay: every kept entry is a
/// candidate that is an Ollama one or has its key.
pub proof fn lemma_reachable_only(candidates: Seq<(Provider, Model)>, has_key: Seq<bool>, k: int)
    requires
        has_key.len() == candidates.len(),
        0 <= k < reachable_spec(candidates, has_key).len(),
    ensures
        exists|i: int|
            0 <= i < candidates.len() && candidates[i] == reachable_spec(candidates, has_key)[k] && (
            candidates[i].0.provider_type == ProviderType::Ollama || has_key[i]),
    decreases candidates.len(),
{
    let n = candidates.len() - 1;
    let prev = reachable_spec(candidates.drop_last(), has_key.take(n));
    if k < prev.len() {
        lemma_reachable_only(candidates.drop_last(), has_key.take(n), k);
        let i = choose|i: int|
            0 <= i < candidates.drop_last().len() && candidates.drop_last()[i] == prev[k] && (
            candidates.drop_last()[i].0.provider_type == ProviderType::Ollama || has_key.take(n)[i]);
        assert(candidates[i] == candidates.drop_last()[i]);
        if candidates[n].0.provider_type == ProviderType::Ollama || has_key[n] {
            assert(prev.push(candidates[n])[k] == prev[k]);
        }
    } else {
        assert(reachable_spec(candidates, has_key)[k] == candidates[n]);
    }
}

/// Keeps the candidates that can be called (see `reachable_spec`).
pub fn retain_reachable(candidates: Vec<(Provider, Model)>, has_key: &[bool]) -> (r: Vec<
    (Provider, Model),
>)
    requires
        has_key.len() == candidates.len(),
    ensures
        r@ == reachable_spec(candidates@, has_key@),
{
    let ghost orig = candidates@;
    let mut out: Vec<(Provider, Model)> = Vec::new();
    let mut rest = candidates;
    let mut k: usize = 0;
    let n = rest.len();
    while k < n
        invariant
            n == orig.len(),
            has_key.len() == n,
            k <= n,
            rest@ == orig.skip(k as int),
            out@ == reachable_spec(orig.take(k as int), has_key@.take(k as int)),
        decreases n - k,
    {
        proof {
            assert(orig.take(k + 1).drop_last() == orig.take(k as int));
            assert(has_key@.take(k + 1).take(k as int) == has_key@.take(k as int));
            assert(orig.take(k + 1)[k as int] == orig[k as int]);
            assert(rest@[0] == orig[k as int]);
        }
        let c = rest.remove(0);
        if c.0.provider_type == ProviderType::Ollama || has_key[k] {
            out.push(c);
        }
        k = k + 1;
        assert(rest@ == orig.skip(k as int));
    }
    assert(orig.take(n as int) == orig);
    assert(has_key@.take(n as int) == has_key@);
    out
}

} // verus!

verus! {

// ---------- laws ----------

/// A resolved chain entry: an enabled model of an enabled provider, named
/// by an entry of the chain.
pub open spec fn chain_pair_sound(
    pair: (usize, usize),
    chain: Seq<String>,
    providers: Seq<Provider>,
    models: Seq<Model>,
) -> bool {
    &&& pair.0 < providers.len()
    &&& pair.1 < models.len()
    &&& providers[pair.0 as int].enabled
    &&& models[pair.1 as int].enabled
    &&& providers[pair.0 as int].id@ == models[pair.1 as int].provider_id@
    &&& exists|c: int| 0 <= c < chain.len() && (#[trigger] chain[c])@ == models[pair.1 as int].id@
}

/// Every entry a fallback chain resolves to is an enabled model of an
/// enabled provider, named by some entry of the chain, and no pair occurs
/// twice.
pub proof fn lemma_chain_pairs_sound(chain: Seq<String>, providers: Seq<Provider>, models: Seq<Model>)
    requires
        providers.len() <= usize::MAX,
        models.len() <= usize::MAX,
    ensures
        forall|k: int|
            0 <= k < chain_pairs(chain, providers, models).len() ==> chain_pair_sound(
                #[trigger] chain_pairs(chain, providers, models)[k],
                chain,
                providers,
                models,
            ),
        forall|a: int, b: int|
            0 <= a < b < chain_pairs(chain, providers, models).len() ==> chain_pairs(
                chain,
                providers,
                models,
            )[a] != chain_pairs(chain, providers, models)[b],
    decreases chain.len(),
{
    if chain.len() > 0 {
        let prev_chain = chain.drop_last();
        lemma_chain_pairs_sound(prev_chain, providers, models);
        let prev = chain_pairs(prev_chain, providers, models);
        let cur = chain_pairs(chain, providers, models);
        assert forall|k: int| 0 <= k < prev.len() implies chain_pair_sound(
            #[trigger] prev[k],
            chain,
            providers,
            models,
        ) by {
            assert(chain_pair_sound(prev[k], prev_chain, providers, models));
            let c = choose|c: int|
                0 <= c < prev_chain.len() && (#[trigger] prev_chain[c])@ == models[prev[k].1 as int].id@;
            assert(chain[c] == prev_chain[c]);
        }
        lemma_first_index(models, model_with_id(chain.last()@));
        match first_index(models, model_with_id(chain.last()@)) {
            Some(mi) => {
                lemma_first_index(providers, provider_with_id(models[mi].provider_id@));
                match first_index(providers, provider_with_id(models[mi].provider_id@)) {
                    Some(pi) => {
                        let pair = (pi as usize, mi as usize);
                        if !prev.contains(pair) {
                            assert(cur == prev.push(pair));
                            assert(chain[chain.len() - 1]@ == models[mi].id@);
                            assert(chain_pair_sound(pair, chain, providers, models));
                            assert forall|k: int| 0 <= k < cur.len() implies chain_pair_sound(
                                #[trigger] cur[k],
                                chain,
                                providers,
                                models,
                            ) by {
                                if k < prev.len() {
                                    assert(cur[k] == prev[k]);
                                }
                            }
                            assert forall|a: int, b: int| 0 <= a < b < cur.len() implies cur[a]
                                != cur[b] by {
                                if b == cur.len() - 1 {
                                    assert(cur[a] == prev[a]);
                                } else {
                                    assert(cur[a] == prev[a] && cur[b] == prev[b]);
                                }
                            }
                        } else {
                            assert(cur == prev);
                        }
                    },
                    None => {
                        assert(cur == prev);
                    },
                }
            },
            None => {
                assert(cur == prev);
            },
        }
    }
}

/// An automatic candidate: an enabled provider other than the failed one,
/// with an enabled model of its own.
pub open spec fn candidate_pair_sound(
    pair: (usize, usize),
    providers: Seq<Provider>,
    models: Seq<Model>,
    failed: Seq<char>,
) -> bool {
    &&& pair.0 < providers.len()
    &&& pair.1 < models.len()
    &&& providers[pair.0 as int].enabled
    &&& providers[pair.0 as int].id@ != failed
    &&& models[pair.1 as int].enabled
    &&& models[pair.1 as int].provider_id@ == providers[pair.0 as int].id@
}

/// Every automatic candidate is an enabled provider other than the failed
/// one, paired with an enabled model of its own; candidates follow the
/// provider list order, so no provider entry appears twice.
pub proof fn lemma_candidate_pairs_sound(providers: Seq<Provider>, models: Seq<Model>, failed: Seq<char>)
    requires
        providers.len() <= usize::MAX,
        models.len() <= usize::MAX,
    ensures
        forall|k: int|
            0 <= k < candidate_pairs(providers, models, failed).len() ==> candidate_pair_sound(
                #[trigger] candidate_pairs(providers, models, failed)[k],
                providers,
                models,
                failed,
            ),
        forall|a: int, b: int|
            0 <= a < b < candidate_pairs(providers, models, failed).len() ==> candidate_pairs(
                providers,
                models,
                failed,
            )[a].0 < candidate_pairs(providers, models, failed)[b].0,
    decreases providers.len(),
{
    if providers.len() > 0 {
        let prev_p = providers.drop_last();
        lemma_candidate_pairs_sound(prev_p, models, failed);
        let prev = candidate_pairs(prev_p, models, failed);
        let cur = candidate_pairs(providers, models, failed);
        let i = providers.len() - 1;
        assert forall|k: int| 0 <= k < prev.len() implies candidate_pair_sound(
            #[trigger] prev[k],
            providers,
            models,
            failed,
        ) && prev[k].0 < i by {
            assert(candidate_pair_sound(prev[k], prev_p, models, failed));
            assert(prev_p[prev[k].0 as int] == providers[prev[k].0 as int]);
        }
        lemma_first_index(models, model_of_provider(providers[i].id@));
        if providers[i].enabled && providers[i].id@ != failed {
            match first_index(models, model_of_provider(providers[i].id@)) {
                Some(mi) => {
                    let pair = (i as usize, mi as usize);
                    assert(cur == prev.push(pair));
                    assert(candidate_pair_sound(pair, providers, models, failed));
                    assert forall|k: int| 0 <= k < cur.len() implies candidate_pair_sound(
                        #[trigger] cur[k],
                        providers,
                        models,
                        failed,
                    ) by {
                        if k < prev.len() {
                            assert(cur[k] == prev[k]);
                        }
                    }
                    assert forall|a: int, b: int| 0 <= a < b < cur.len() implies cur[a].0
                        < cur[b].0 by {
                        assert(cur[a] == prev[a]);
                        if b < prev.len() {
                            assert(cur[b] == prev[b]);
                        }
                    }
                },
                None => {
                    assert(cur == prev);
                },
            }
        } else {
            assert(cur == prev);
        }
    }
}

/// Round-robin only reorders the candidates.
pub proof fn lemma_round_robin_permutes<A>(base: Seq<A>, offset: int)
    ensures
        round_robin(base, offset).to_multiset() == base.to_multiset(),
{
    broadcast use vstd::multiset::group_multiset_axioms;

    if base.len() > 0 {
        let k = offset % (base.len() as int);
        assert(base =~= base.take(k) + base.skip(k));
        vstd::seq_lib::lemma_multiset_commutative(base.take(k), base.skip(k));
        vstd::seq_lib::lemma_multiset_commutative(base.skip(k), base.take(k));
        assert(base.take(k).to_multiset().add(base.skip(k).to_multiset()) =~= base.skip(
            k,
        ).to_multiset().add(base.take(k).to_multiset()));
    }
}

/// A user abort, or output already streamed to the user, always ends the
/// attempt without failover; a switch always goes to the next untried
/// candidate.
pub proof fn lemma_failover_step_guards(
    error: Seq<char>,
    aborted: bool,
    emitted: bool,
    cfg: FailoverConfig,
    candidate_count: nat,
    attempt: nat,
)
    ensures
        aborted ==> failover_step_spec(error, aborted, emitted, cfg, candidate_count, attempt)
            == FailoverStep::Stop,
        emitted ==> failover_step_spec(error, aborted, emitted, cfg, candidate_count, attempt)
            == FailoverStep::Stop,
        !cfg.enabled ==> failover_step_spec(error, aborted, emitted, cfg, candidate_count, attempt)
            == FailoverStep::Stop,
        failover_step_spec(error, aborted, emitted, cfg, candidate_count, attempt) matches FailoverStep::SwitchTo(
            k,
        ) ==> k == attempt as usize && attempt < candidate_count,
{
}

/// A failure whose HTTP status is excluded never triggers failover, and
/// none does while failover is switched off.
pub proof fn lemma_excluded_status_never_retries(error: Seq<char>, cfg: FailoverConfig)
    ensures
        !cfg.enabled ==> !retryable_spec(error, cfg),
        (status_spec(split_error_spec(error).1) matches Some(s)
            && cfg.excluded_status_codes@.contains(s)) ==> !retryable_spec(error, cfg),
{
}

} // verus!
