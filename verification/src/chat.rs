//! Streaming an answer to the window: the small pieces a model produces are
//! gathered into chunks (the first piece goes out at once, then at most one
//! chunk per 16 ms unless 8 KB have gathered), and a last chunk carries the
//! result or the error.

use vstd::prelude::*;
use crate::failover::{split_error, split_error_spec};
use crate::models::{ChatChunk, ChatResponse};
use crate::skills::opt_view;
use crate::text::{concat_str, owned};

verus! {

/// The bytes of gathered output that force a chunk out.
pub const FLUSH_BYTES: usize = 8192;

/// The milliseconds after which gathered output goes out.
pub const FLUSH_MS: u64 = 16;

/// The UTF-8 size of a text.
pub open spec fn utf8_bytes(s: Seq<char>) -> nat {
    vstd::utf8::encode_utf8(s).len()
}

/// Whether gathered output goes out now: always before the first chunk
/// (`since_flush_ms` is `None`), else when `FLUSH_BYTES` have gathered or
/// `FLUSH_MS` have passed since the last chunk.
pub open spec fn flush_due(since_flush_ms: Option<u64>, buffered: nat) -> bool {
    match since_flush_ms {
        None => true,
        Some(ms) => buffered >= FLUSH_BYTES || ms >= FLUSH_MS,
    }
}

/// A chunk that carries output: the answer text and, when there is any, the
/// reasoning text.
pub open spec fn output_chunk(chunk: ChatChunk, request_id: Seq<char>, delta: Seq<char>, reasoning: Seq<char>) -> bool {
    &&& chunk.request_id@ == request_id
    &&& chunk.delta@ == delta
    &&& opt_view(chunk.reasoning_delta) == (if reasoning.len() == 0 {
        None
    } else {
        Some(reasoning)
    })
    &&& !chunk.done
    &&& chunk.result is None
    &&& chunk.error is None
    &&& chunk.error_message is None
}

/// A chunk carrying output (see `output_chunk`).
pub fn delta_chunk(request_id: &str, delta: String, reasoning: String) -> (r: ChatChunk)
    ensures
        output_chunk(r, request_id@, delta@, reasoning@),
{
    let rd = if reasoning.as_str().unicode_len() == 0 {
        None
    } else {
        Some(reasoning)
    };
    ChatChunk {
        request_id: owned(request_id),
        delta,
        reasoning_delta: rd,
        done: false,
        result: None,
        error: None,
        error_message: None,
    }
}

/// Output gathered since the last chunk.
pub struct DeltaBuffer {
    pub content: String,
    pub reasoning: String,
}

impl DeltaBuffer {
    /// A buffer with nothing gathered.
    pub fn new() -> (r: Self)
        ensures
            r.content@.len() == 0,
            r.reasoning@.len() == 0,
    {
        DeltaBuffer { content: String::new(), reasoning: String::new() }
    }

    /// Hands everything gathered out as a chunk and empties the buffer.
    fn take_chunk(&mut self, request_id: &str) -> (r: ChatChunk)
        ensures
            output_chunk(r, request_id@, old(self).content@, old(self).reasoning@),
            final(self).content@.len() == 0,
            final(self).reasoning@.len() == 0,
    {
        let mut c = String::new();
        let mut rs = String::new();
        std::mem::swap(&mut c, &mut self.content);
        std::mem::swap(&mut rs, &mut self.reasoning);
        delta_chunk(request_id, c, rs)
    }

    /// Gathers a piece of output; when a chunk is due (see `flush_due`,
    /// with the size of all that is gathered) it is returned and the buffer
    /// emptied.
    pub fn push(&mut self, request_id: &str, delta: &str, reasoning: Option<&str>, since_flush_ms: Option<u64>) -> (r: Option<ChatChunk>)
        ensures
            ({
                let c = old(self).content@ + delta@;
                let rs = old(self).reasoning@ + match reasoning {
                    Some(x) => x@,
                    None => Seq::<char>::empty(),
                };
                if flush_due(since_flush_ms, utf8_bytes(c) + utf8_bytes(rs)) {
                    &&& r matches Some(k) && output_chunk(k, request_id@, c, rs)
                    &&& final(self).content@.len() == 0
                    &&& final(self).reasoning@.len() == 0
                } else {
                    &&& r is None
                    &&& final(self).content@ == c
                    &&& final(self).reasoning@ == rs
                }
            }),
    {
        self.content = concat_str(self.content.as_str(), delta);
        match reasoning {
            Some(x) => {
                self.reasoning = concat_str(self.reasoning.as_str(), x);
            },
            None => {
                assert(self.reasoning@ + Seq::<char>::empty() =~= self.reasoning@);
            },
        }
        let a: usize = self.content.as_str().as_bytes().len();
        let b: usize = self.reasoning.as_str().as_bytes().len();
        let due = match since_flush_ms {
            None => true,
            Some(ms) => a >= FLUSH_BYTES || b >= FLUSH_BYTES - a || ms >= FLUSH_MS,
        };
        if due {
            Some(self.take_chunk(request_id))
        } else {
            None
        }
    }

    /// Hands out what is still gathered, if anything (before an attempt
    /// ends, so no output is lost).
    pub fn drain(&mut self, request_id: &str) -> (r: Option<ChatChunk>)
        ensures
            if old(self).content@.len() > 0 || old(self).reasoning@.len() > 0 {
                &&& r matches Some(k) && output_chunk(k, request_id@, old(self).content@, old(self).reasoning@)
                &&& final(self).content@.len() == 0
                &&& final(self).reasoning@.len() == 0
            } else {
                &&& r is None
                &&& final(self).content@ == old(self).content@
                &&& final(self).reasoning@ == old(self).reasoning@
            },
    {
        if self.content.as_str().unicode_len() > 0 || self.reasoning.as_str().unicode_len() > 0 {
            Some(self.take_chunk(request_id))
        } else {
            None
        }
    }
}

/// Whether a piece of output reached the user: answer text, or reasoning.
/// Once one has, a failed attempt is not handed to another provider.
pub fn emits_output(delta: &str, reasoning: Option<&str>) -> (r: bool)
    ensures
        r == (delta@.len() > 0 || reasoning is Some),
{
    delta.unicode_len() > 0 || reasoning.is_some()
}

/// The chunk that ends a stream: the response, or the error split into its
/// code and message.
pub fn final_chunk(request_id: String, result: Result<ChatResponse, String>) -> (r: ChatChunk)
    ensures
        r.request_id == request_id,
        r.done,
        r.delta@.len() == 0,
        r.reasoning_delta is None,
        match result {
            Ok(resp) => r.result == Some(resp) && r.error is None && r.error_message is None,
            Err(e) => {
                &&& r.result is None
                &&& r.error matches Some(c) && c@ == split_error_spec(e@).0
                &&& r.error_message matches Some(m) && m@ == split_error_spec(e@).1
            },
        },
{
    match result {
        Ok(resp) => ChatChunk {
            request_id,
            delta: String::new(),
            reasoning_delta: None,
            done: true,
            result: Some(resp),
            error: None,
            error_message: None,
        },
        Err(e) => {
            let (code, msg) = split_error(e.as_str());
            ChatChunk {
                request_id,
                delta: String::new(),
                reasoning_delta: None,
                done: true,
                result: None,
                error: Some(owned(code)),
                error_message: Some(owned(msg)),
            }
        },
    }
}

} // verus!
