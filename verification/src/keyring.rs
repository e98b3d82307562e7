//! API keys live in the system credential store only (Windows Credential
//! Manager, macOS Keychain, Secret Service); the database never holds them.

use vstd::prelude::*;
use crate::text::{chars_of, concat_str, string_of, starts_with};

verus! {

/// The credential-store service name under which Koid files its keys.
pub const SERVICE: &'static str = "studio.fishpond.koid";

#[verifier::external_type_specification]
#[verifier::external_body]
pub struct ExKeyringEntry(::keyring::Entry);

#[verifier::external_type_specification]
#[verifier::external_body]
pub struct ExKeyringError(::keyring::Error);

/// `keyring::Entry::new`: an entry for (service, user) in the platform
/// store; whether it succeeds depends on the platform.
#[verifier::external_body]
fn entry_new(service: &str, user: &str) -> Result<::keyring::Entry, ::keyring::Error> {
    ::keyring::Entry::new(service, user)
}

/// `keyring::Entry::set_password`; the outcome depends on the platform store.
#[verifier::external_body]
fn entry_set_password(entry: &::keyring::Entry, password: &str) -> Result<(), ::keyring::Error> {
    entry.set_password(password)
}

/// `keyring::Entry::get_password`; the outcome depends on what the platform
/// store holds.
#[verifier::external_body]
fn entry_get_password(entry: &::keyring::Entry) -> Result<String, ::keyring::Error> {
    entry.get_password()
}

/// `keyring::Entry::delete_credential`; the outcome depends on the platform
/// store.
#[verifier::external_body]
fn entry_delete_credential(entry: &::keyring::Entry) -> Result<(), ::keyring::Error> {
    entry.delete_credential()
}

/// The `Display` text of a keyring error; nothing is promised of its content.
#[verifier::external_body]
fn keyring_error_text(e: &::keyring::Error) -> String {
    format!("{e}")
}

/// Stores the API key of a provider in the system store. Failures come back
/// as readable messages that say which step failed.
pub fn set_api_key(provider_id: &str, key: &str) -> (r: Result<(), String>)
    ensures
        r matches Err(m) ==> starts_with(m@, "keyring 初始化失败: "@) || starts_with(
            m@,
            "写入 API Key 失败: "@,
        ),
{
    match entry_new(SERVICE, provider_id) {
        Err(e) => {
            let text = keyring_error_text(&e);
            let m = concat_str("keyring 初始化失败: ", text.as_str());
            assert(m@.take("keyring 初始化失败: "@.len() as int) == "keyring 初始化失败: "@);
            Err(m)
        },
        Ok(entry) => match entry_set_password(&entry, key) {
            Ok(()) => Ok(()),
            Err(e) => {
                let text = keyring_error_text(&e);
                let m = concat_str("写入 API Key 失败: ", text.as_str());
                assert(m@.take("写入 API Key 失败: "@.len() as int) == "写入 API Key 失败: "@);
                Err(m)
            },
        },
    }
}

/// The stored API key of a provider; `None` when the store has none or
/// cannot be read. What it returns depends on the system store alone.
pub fn get_api_key(provider_id: &str) -> Option<String> {
    match entry_new(SERVICE, provider_id) {
        Err(_) => None,
        Ok(entry) => match entry_get_password(&entry) {
            Ok(key) => Some(key),
            Err(_) => None,
        },
    }
}

/// Removes the stored API key of a provider; a missing key or a store
/// failure is ignored.
pub fn delete_api_key(provider_id: &str) {
    if let Ok(entry) = entry_new(SERVICE, provider_id) {
        let _ = entry_delete_credential(&entry);
    }
}

/// The masked form of a key shown in the interface: the first four and last
/// four characters around `...`, or eight asterisks for keys of at most
/// eight characters.
pub open spec fn mask_spec(key: Seq<char>) -> Seq<char> {
    if key.len() <= 8 {
        "********"@
    } else {
        key.take(4) + "..."@ + key.skip(key.len() - 4)
    }
}

/// Masks an API key for display (`sk-abcdef...wxyz` style).
pub fn mask_key(key: &str) -> (r: String)
    ensures
        r@ == mask_spec(key@),
{
    let chars = chars_of(key);
    if chars.len() <= 8 {
        return string_of(chars_of("********").as_slice());
    }
    let mut out: Vec<char> = Vec::new();
    let mut i: usize = 0;
    while i < 4
        invariant
            i <= 4,
            chars@ == key@,
            chars.len() > 8,
            out@ == key@.take(i as int),
        decreases 4 - i,
    {
        out.push(chars[i]);
        i = i + 1;
        assert(out@ == key@.take(i as int));
    }
    let dots = chars_of("...");
    let mut d: usize = 0;
    let ghost head = out@;
    while d < dots.len()
        invariant
            d <= dots.len(),
            dots@ == "..."@,
            out@ == head + dots@.take(d as int),
        decreases dots.len() - d,
    {
        out.push(dots[d]);
        d = d + 1;
        assert(out@ == head + dots@.take(d as int));
    }
    assert(dots@.take(dots.len() as int) == dots@);
    let ghost mid = out@;
    let ghost tail = key@.skip(key@.len() - 4);
    let base: usize = chars.len() - 4;
    let mut u: usize = 0;
    while u < 4
        invariant
            u <= 4,
            chars@ == key@,
            chars.len() > 8,
            base == chars.len() - 4,
            tail == key@.skip(key@.len() - 4),
            out@ == mid + tail.take(u as int),
        decreases 4 - u,
    {
        out.push(chars[base + u]);
        u = u + 1;
        assert(out@ =~= mid + tail.take(u as int));
    }
    assert(tail.take(4) =~= tail);
    assert(out@ =~= mask_spec(key@));
    string_of(out.as_slice())
}

} // verus!
