//! The clock and id helpers.

use vstd::prelude::*;
use std::time::{Duration, SystemTime, SystemTimeError};

verus! {

#[verifier::external_type_specification]
#[verifier::external_body]
pub struct ExSystemTime(SystemTime);

#[verifier::external_type_specification]
#[verifier::external_body]
pub struct ExSystemTimeError(SystemTimeError);

/// The current wall-clock time (std `SystemTime::now`); nothing is promised
/// of its value.
#[verifier::external_body]
fn system_time_now() -> SystemTime {
    SystemTime::now()
}

/// Time elapsed from the Unix epoch to `t` (std `SystemTime::duration_since`
/// with `UNIX_EPOCH`); an error when `t` lies before the epoch.
#[verifier::external_body]
fn since_unix_epoch(t: &SystemTime) -> Result<Duration, SystemTimeError> {
    t.duration_since(std::time::UNIX_EPOCH)
}

/// Whole milliseconds of a duration (std `Duration::as_millis`).
#[verifier::external_body]
fn duration_millis(d: &Duration) -> u128 {
    d.as_millis()
}

/// Milliseconds since the Unix epoch (the same reading as JavaScript's
/// `Date.now()`); 0 when the clock reads before the epoch.
pub fn now_ms() -> i64 {
    let now = system_time_now();
    match since_unix_epoch(&now) {
        Ok(d) => {
            let ms = duration_millis(&d);
            #[verifier::truncate]
            (ms as i64)
        },
        Err(_) => 0,
    }
}

/// Fills the buffer with random bytes from the system (`getrandom::fill`);
/// the error carries the crate's message. Nothing is promised of the bytes.
#[verifier::external_body]
pub(crate) fn fill_random<const N: usize>(buf: &mut [u8; N]) -> (r: Result<(), String>)
{
    getrandom::fill(buf).map_err(|e| e.to_string())
}

/// The lowercase hexadecimal digit of a value below 16.
pub open spec fn hex_digit(d: int) -> char {
    seq!['0', '1', '2', '3', '4', '5', '6', '7', '8', '9', 'a', 'b', 'c', 'd', 'e', 'f'][d]
}

/// Sixteen random bytes with the version (4) and variant (RFC 4122) bits
/// of a UUID set.
pub open spec fn v4_bytes(b: Seq<u8>) -> Seq<u8> {
    b.update(6, (b[6] % 16 + 64) as u8).update(8, (b[8] % 64 + 128) as u8)
}

/// The text of the first `k` bytes of a UUID: two hex digits per byte, a
/// hyphen before bytes 4, 6, 8 and 10.
pub open spec fn uuid_prefix(b: Seq<u8>, k: int) -> Seq<char>
    decreases k,
{
    if k <= 0 {
        Seq::empty()
    } else {
        let x = b[k - 1];
        uuid_prefix(b, k - 1) + (if k - 1 == 4 || k - 1 == 6 || k - 1 == 8 || k - 1 == 10 {
            seq!['-']
        } else {
            Seq::empty()
        }) + seq![hex_digit((x / 16) as int), hex_digit((x % 16) as int)]
    }
}

/// The hyphenated text of the version-4 UUID made from sixteen bytes.
pub open spec fn uuid_text(b: Seq<u8>) -> Seq<char> {
    uuid_prefix(v4_bytes(b), 16)
}

/// Whether a text is the hyphenated form of some version-4 UUID.
pub open spec fn is_uuid_v4_text(s: Seq<char>) -> bool {
    exists|b: Seq<u8>| b.len() == 16 && s == #[trigger] uuid_text(b)
}

spec fn hyphens_before(k: int) -> int {
    if k > 10 {
        4
    } else if k > 8 {
        3
    } else if k > 6 {
        2
    } else if k > 4 {
        1
    } else {
        0
    }
}

proof fn lemma_uuid_prefix_len(b: Seq<u8>, k: int)
    requires
        0 <= k,
    ensures
        uuid_prefix(b, k).len() == 2 * k + hyphens_before(k),
    decreases k,
{
    if k > 0 {
        lemma_uuid_prefix_len(b, k - 1);
    }
}

/// A version-4 UUID in lowercase hyphenated form, from sixteen bytes of
/// system randomness; an error when the system cannot supply them.
pub fn new_id() -> (r: Result<String, String>)
    ensures
        r matches Ok(s) ==> s@.len() == 36 && is_uuid_v4_text(s@),
        r matches Err(e) ==> crate::text::starts_with(e@, "生成随机数失败: "@),
{
    let mut buf = [0u8; 16];
    if let Err(e) = fill_random(&mut buf) {
        let m = crate::text::concat_str("生成随机数失败: ", e.as_str());
        assert(m@.take("生成随机数失败: "@.len() as int) == "生成随机数失败: "@);
        return Err(m);
    }
    let ghost raw = buf@;
    let digits = vec!['0', '1', '2', '3', '4', '5', '6', '7', '8', '9', 'a', 'b', 'c', 'd', 'e', 'f'];
    assert(digits@ == seq!['0', '1', '2', '3', '4', '5', '6', '7', '8', '9', 'a', 'b', 'c', 'd', 'e', 'f']);
    let ghost vb = v4_bytes(raw);
    let mut out: Vec<char> = Vec::new();
    let mut k: usize = 0;
    while k < 16
        invariant
            k <= 16,
            buf@ == raw,
            raw.len() == 16,
            vb == v4_bytes(raw),
            digits@ == seq!['0', '1', '2', '3', '4', '5', '6', '7', '8', '9', 'a', 'b', 'c', 'd', 'e', 'f'],
            out@ == uuid_prefix(vb, k as int),
        decreases 16 - k,
    {
        if k == 4 || k == 6 || k == 8 || k == 10 {
            out.push('-');
        }
        let x: u8 = if k == 6 {
            buf[6] % 16 + 64
        } else if k == 8 {
            buf[8] % 64 + 128
        } else {
            buf[k]
        };
        assert(x == vb[k as int]);
        out.push(digits[(x / 16) as usize]);
        out.push(digits[(x % 16) as usize]);
        k = k + 1;
        assert(out@ =~= uuid_prefix(vb, k as int));
    }
    proof {
        lemma_uuid_prefix_len(vb, 16);
        assert(out@ == uuid_text(raw));
    }
    Ok(crate::text::string_of(out.as_slice()))
}

} // verus!
