//! Encrypted backups. A backup file is the magic `KOIDBK1`, a random
//! 12-byte nonce and the AES-256-GCM ciphertext of a database snapshot; the
//! key is the SHA-256 digest of the passphrase.

use vstd::prelude::*;
use crate::text::{concat_str, owned};
use vstd::string::StringSliceAdditionalSpecFns;
use sha2::Digest;
use aes_gcm::aead::{Aead, KeyInit};

verus! {

/// The first bytes of every backup file: `KOIDBK1`.
pub open spec fn magic() -> Seq<u8> {
    seq![75u8, 79u8, 73u8, 68u8, 66u8, 75u8, 49u8]
}

pub const NONCE_LEN: usize = 12;

/// The SHA-256 digest of some bytes (`sha2::Sha256`).
pub uninterp spec fn sha256_digest(data: Seq<u8>) -> Seq<u8>;

/// AES-256-GCM encryption of `plaintext` under `key` and `nonce` (the
/// ciphertext with its tag), `None` when the `aes-gcm` crate refuses it.
pub uninterp spec fn gcm_sealed(key: Seq<u8>, nonce: Seq<u8>, plaintext: Seq<u8>) -> Option<Seq<u8>>;

/// AES-256-GCM decryption, `None` when the tag does not verify.
pub uninterp spec fn gcm_opened(key: Seq<u8>, nonce: Seq<u8>, ciphertext: Seq<u8>) -> Option<Seq<u8>>;

/// The SHA-256 digest of some bytes with `sha2::Sha256` (`new`, `update`,
/// `finalize`). The digest is named by `sha256_digest`; it is 32 bytes
/// long, as SHA-256 digests are.
#[verifier::external_body]
fn sha256(data: &[u8]) -> (r: Vec<u8>)
    ensures
        r@ == sha256_digest(data@),
        r@.len() == 32,
{
    let mut hasher = sha2::Sha256::new();
    hasher.update(data);
    hasher.finalize().to_vec()
}

/// AES-256-GCM encryption with the `aes-gcm` crate (`Aes256Gcm::new`,
/// `Aead::encrypt`). The result is named by `gcm_sealed`.
#[verifier::external_body]
fn gcm_encrypt(key: &[u8; 32], nonce: &[u8; 12], plaintext: &[u8]) -> (r: Result<Vec<u8>, String>)
    ensures
        match r {
            Ok(c) => gcm_sealed(key@, nonce@, plaintext@) == Some(c@),
            Err(_) => gcm_sealed(key@, nonce@, plaintext@) is None,
        },
{
    let cipher = aes_gcm::Aes256Gcm::new(&aes_gcm::Key::<aes_gcm::Aes256Gcm>::from(*key));
    cipher.encrypt(&aes_gcm::Nonce::from(*nonce), plaintext).map_err(|e| e.to_string())
}

/// AES-256-GCM decryption with the `aes-gcm` crate (`Aes256Gcm::new`,
/// `Aead::decrypt`). The result is named by `gcm_opened`. As for every
/// authenticated cipher, a ciphertext made by encryption under the same key
/// and nonce decrypts to its plaintext.
#[verifier::external_body]
fn gcm_decrypt(key: &[u8; 32], nonce: &[u8; 12], ciphertext: &[u8]) -> (r: Option<Vec<u8>>)
    ensures
        match r {
            Some(p) => gcm_opened(key@, nonce@, ciphertext@) == Some(p@),
            None => gcm_opened(key@, nonce@, ciphertext@) is None,
        },
        match r {
            Some(q) => forall|p: Seq<u8>| gcm_sealed(key@, nonce@, p) == Some(ciphertext@) ==> q@ == p,
            None => forall|p: Seq<u8>| gcm_sealed(key@, nonce@, p) != Some(ciphertext@),
        },
{
    let cipher = aes_gcm::Aes256Gcm::new(&aes_gcm::Key::<aes_gcm::Aes256Gcm>::from(*key));
    cipher.decrypt(&aes_gcm::Nonce::from(*nonce), ciphertext).ok()
}

/// The backup key of a passphrase: the SHA-256 digest of its UTF-8 bytes.
pub open spec fn key_of(passphrase: &str) -> Seq<u8> {
    sha256_digest(passphrase.spec_bytes())
}

/// Derives the AES key of a passphrase (see `key_of`).
pub fn derive_key(passphrase: &str) -> (r: [u8; 32])
    ensures
        r@ == key_of(passphrase),
{
    let d = sha256(passphrase.as_bytes());
    let mut key = [0u8; 32];
    let mut i: usize = 0;
    while i < 32
        invariant
            i <= 32,
            d@.len() == 32,
            key@.len() == 32,
            forall|k: int| 0 <= k < i ==> key@[k] == d@[k],
        decreases 32 - i,
    {
        key.set(i, d[i]);
        i = i + 1;
    }
    assert(key@ =~= d@);
    key
}

/// A fresh random nonce; an error when the system cannot supply randomness.
pub fn random_nonce() -> (r: Result<[u8; 12], String>)
    ensures
        r matches Err(e) ==> crate::text::starts_with(e@, "生成随机数失败: "@),
{
    let mut nonce = [0u8; 12];
    match crate::utils::fill_random(&mut nonce) {
        Ok(()) => Ok(nonce),
        Err(e) => {
            let m = concat_str("生成随机数失败: ", e.as_str());
            assert(m@.take("生成随机数失败: "@.len() as int) == "生成随机数失败: "@);
            Err(m)
        },
    }
}

/// The bytes of a backup file: magic, nonce, ciphertext.
pub open spec fn framed(nonce: Seq<u8>, ciphertext: Seq<u8>) -> Seq<u8> {
    magic() + nonce + ciphertext
}

/// A backup of `plaintext` under `passphrase` with `nonce`: the framed
/// ciphertext, or the refusal of the cipher.
pub open spec fn seal_spec(passphrase: &str, nonce: Seq<u8>, plaintext: Seq<u8>) -> Option<Seq<u8>> {
    match gcm_sealed(key_of(passphrase), nonce, plaintext) {
        Some(c) => Some(framed(nonce, c)),
        None => None,
    }
}

fn push_bytes(out: &mut Vec<u8>, b: &[u8])
    ensures
        final(out)@ == old(out)@ + b@,
{
    let mut i: usize = 0;
    let ghost base = out@;
    while i < b.len()
        invariant
            i <= b.len(),
            out@ == base + b@.take(i as int),
        decreases b.len() - i,
    {
        out.push(b[i]);
        i = i + 1;
        assert(out@ == base + b@.take(i as int));
    }
    assert(b@.take(b.len() as int) == b@);
}

/// Encrypts a snapshot into backup bytes with the given nonce (see
/// `seal_spec`); a refusal of the cipher is reported as `加密失败: …`.
pub fn seal_backup(passphrase: &str, nonce: [u8; 12], plaintext: &[u8]) -> (r: Result<Vec<u8>, String>)
    ensures
        match r {
            Ok(b) => seal_spec(passphrase, nonce@, plaintext@) == Some(b@),
            Err(e) => seal_spec(passphrase, nonce@, plaintext@) is None && crate::text::starts_with(e@, "加密失败: "@),
        },
{
    let key = derive_key(passphrase);
    let ct = match gcm_encrypt(&key, &nonce, plaintext) {
        Ok(c) => c,
        Err(e) => {
            let m = concat_str("加密失败: ", e.as_str());
            assert(m@.take("加密失败: "@.len() as int) == "加密失败: "@);
            return Err(m);
        },
    };
    let mut out: Vec<u8> = vec![75u8, 79u8, 73u8, 68u8, 66u8, 75u8, 49u8];
    assert(out@ == magic());
    push_bytes(&mut out, nonce.as_slice());
    push_bytes(&mut out, ct.as_slice());
    Ok(out)
}

pub open spec fn err_not_backup() -> Seq<char> {
    "不是有效的 Koid 备份文件"@
}

pub open spec fn err_decrypt() -> Seq<char> {
    "解密失败：口令错误或文件已损坏"@
}

/// The snapshot in backup bytes: refused when too short or without the
/// magic; else the decryption of what follows the nonce.
pub open spec fn open_spec(passphrase: &str, data: Seq<u8>) -> Result<Seq<u8>, Seq<char>> {
    if data.len() < 19 || data.take(7) != magic() {
        Err(err_not_backup())
    } else {
        match gcm_opened(key_of(passphrase), data.subrange(7, 19), data.skip(19)) {
            Some(p) => Ok(p),
            None => Err(err_decrypt()),
        }
    }
}

/// Decrypts backup bytes (see `open_spec`). Bytes that `seal_backup` made
/// with the same passphrase give back the snapshot they were made from.
pub fn open_backup(passphrase: &str, data: &[u8]) -> (r: Result<Vec<u8>, String>)
    ensures
        match r {
            Ok(p) => open_spec(passphrase, data@) == Ok::<Seq<u8>, Seq<char>>(p@),
            Err(e) => open_spec(passphrase, data@) == Err::<Seq<u8>, Seq<char>>(e@),
        },
        forall|nonce: Seq<u8>, pt: Seq<u8>|
            nonce.len() == 12 && seal_spec(passphrase, nonce, pt) == Some(data@) ==> (r matches Ok(p) && p@ == pt),
{
    if data.len() < 19 {
        assert forall|nonce: Seq<u8>, pt: Seq<u8>| nonce.len() == 12 && seal_spec(passphrase, nonce, pt) == Some(data@) implies false by {
            if let Some(c) = gcm_sealed(key_of(passphrase), nonce, pt) {
                assert(framed(nonce, c).len() >= 19);
            }
        }
        return Err(owned("不是有效的 Koid 备份文件"));
    }
    let mut k: usize = 0;
    let mg = vec![75u8, 79u8, 73u8, 68u8, 66u8, 75u8, 49u8];
    assert(mg@ == magic());
    while k < 7
        invariant
            k <= 7,
            data.len() >= 19,
            mg@ == magic(),
            forall|j: int| 0 <= j < k ==> data@[j] == mg@[j],
        decreases 7 - k,
    {
        if data[k] != mg[k] {
            assert(data@.take(7)[k as int] != magic()[k as int]);
            assert forall|nonce: Seq<u8>, pt: Seq<u8>| nonce.len() == 12 && seal_spec(passphrase, nonce, pt) == Some(data@) implies false by {
                if let Some(c) = gcm_sealed(key_of(passphrase), nonce, pt) {
                    assert(framed(nonce, c)[k as int] == magic()[k as int]);
                }
            }
            return Err(owned("不是有效的 Koid 备份文件"));
        }
        k = k + 1;
    }
    assert(data@.take(7) =~= magic());
    let mut nonce = [0u8; 12];
    let mut i: usize = 0;
    while i < 12
        invariant
            i <= 12,
            data.len() >= 19,
            nonce@.len() == 12,
            forall|j: int| 0 <= j < i ==> nonce@[j] == data@[7 + j],
        decreases 12 - i,
    {
        nonce[i] = data[7 + i];
        i = i + 1;
    }
    assert(nonce@ =~= data@.subrange(7, 19));
    let mut ct: Vec<u8> = Vec::new();
    let mut j: usize = 19;
    while j < data.len()
        invariant
            19 <= j <= data.len(),
            ct@ == data@.subrange(19, j as int),
        decreases data.len() - j,
    {
        ct.push(data[j]);
        j = j + 1;
        assert(ct@ == data@.subrange(19, j as int));
    }
    assert(ct@ =~= data@.skip(19));
    let key = derive_key(passphrase);
    let r = match gcm_decrypt(&key, &nonce, ct.as_slice()) {
        Some(p) => Ok(p),
        None => Err(owned("解密失败：口令错误或文件已损坏")),
    };
    assert forall|n: Seq<u8>, pt: Seq<u8>| n.len() == 12 && seal_spec(passphrase, n, pt) == Some(data@) implies (r matches Ok(p) && p@ == pt) by {
        if let Some(c) = gcm_sealed(key_of(passphrase), n, pt) {
            assert(framed(n, c) == data@);
            assert(data@.subrange(7, 19) =~= n);
            assert(data@.skip(19) =~= c);
        }
    }
    r
}

/// Where an export is written: the given path, trimmed, when it is not
/// blank; `None` leaves the choice to the default file.
pub fn chosen_backup_path(dest: Option<&str>) -> (r: Option<String>)
    ensures
        match dest {
            Some(p) => if !crate::text::is_blank(p@) {
                r matches Some(s) && s@ == crate::text::trim_spec(p@)
            } else {
                r is None
            },
            None => r is None,
        },
{
    match dest {
        Some(p) => {
            let c = crate::text::chars_of(p);
            if crate::text::chars_blank(c.as_slice()) {
                None
            } else {
                Some(crate::text::trim_str(p))
            }
        },
        None => None,
    }
}

/// The default backup file name for an export at time `ts` (milliseconds).
pub fn backup_file_name(ts: i64) -> (r: String)
    ensures
        r@ == "koid-backup-"@ + crate::text::signed_decimal(ts as int) + ".koid-backup"@,
{
    let a = concat_str("koid-backup-", crate::text::i64_to_string(ts).as_str());
    concat_str(a.as_str(), ".koid-backup")
}

} // verus!
