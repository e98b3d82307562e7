//! Conversation history: what a saved message holds, which messages a
//! "delete from here" removes, and how a search query becomes a pattern.

use vstd::prelude::*;
use crate::models::{Message, MessageInput};
use crate::text::{chars_of, concat_str, owned, str_eq, trim_spec, trim_str};

verus! {

// ---------- messages ----------

/// The message stored for `input`, with its new id and time.
pub fn message_from_input(input: MessageInput, id: String, now: i64) -> (r: Message)
    ensures
        r.id == id,
        r.session_id == input.session_id,
        r.role == input.role,
        r.content == input.content,
        r.reasoning == input.reasoning,
        r.tool_calls == input.tool_calls,
        r.tool_results == input.tool_results,
        r.tokens_used == input.tokens_used,
        r.latency_ms == input.latency_ms,
        r.created_at == now,
        r.parent_id == input.parent_id,
{
    Message {
        id,
        session_id: input.session_id,
        role: input.role,
        content: input.content,
        reasoning: input.reasoning,
        tool_calls: input.tool_calls,
        tool_results: input.tool_results,
        tokens_used: input.tokens_used,
        latency_ms: input.latency_ms,
        created_at: now,
        parent_id: input.parent_id,
    }
}

/// The first position of `id` among a session's message ids.
pub open spec fn position_of(ids: Seq<Seq<char>>, id: Seq<char>) -> Option<int>
    decreases ids.len(),
{
    if ids.len() == 0 {
        None
    } else if ids[0] == id {
        Some(0)
    } else {
        match position_of(ids.drop_first(), id) {
            Some(i) => Some(i + 1),
            None => None,
        }
    }
}

pub proof fn lemma_position_of(ids: Seq<Seq<char>>, id: Seq<char>)
    ensures
        position_of(ids, id) matches Some(i) ==> 0 <= i < ids.len() && ids[i] == id && forall|j: int|
            0 <= j < i ==> ids[j] != id,
        position_of(ids, id) is None ==> forall|j: int| 0 <= j < ids.len() ==> ids[j] != id,
    decreases ids.len(),
{
    if ids.len() > 0 && ids[0] != id {
        lemma_position_of(ids.drop_first(), id);
        assert forall|j: int| 1 <= j < ids.len() implies ids[j] == ids.drop_first()[j - 1] by {}
    }
}

pub open spec fn err_no_message(id: Seq<char>) -> Seq<char> {
    "消息不存在: "@ + id
}

/// The messages a "delete from here" removes: the given message and every
/// one after it, in the session's order; an id the session does not hold is
/// refused.
pub open spec fn delete_from_spec(ids: Seq<Seq<char>>, message_id: Seq<char>) -> Result<Seq<Seq<char>>, Seq<char>> {
    match position_of(ids, message_id) {
        Some(i) => Ok(ids.skip(i)),
        None => Err(err_no_message(message_id)),
    }
}

/// The ids to delete (see `delete_from_spec`), given the session's message
/// ids in order.
pub fn messages_to_delete(ids: &Vec<String>, message_id: &str) -> (r: Result<Vec<String>, String>)
    ensures
        match r {
            Ok(v) => delete_from_spec(crate::text::views(ids@), message_id@) == Ok::<
                Seq<Seq<char>>,
                Seq<char>,
            >(crate::text::views(v@)),
            Err(e) => delete_from_spec(crate::text::views(ids@), message_id@) == Err::<
                Seq<Seq<char>>,
                Seq<char>,
            >(e@),
        },
{
    let ghost vs = crate::text::views(ids@);
    let mut i: usize = 0;
    while i < ids.len()
        invariant
            i <= ids.len(),
            vs == crate::text::views(ids@),
            forall|j: int| 0 <= j < i ==> vs[j] != message_id@,
        ensures
            i <= ids.len(),
            vs == crate::text::views(ids@),
            forall|j: int| 0 <= j < i ==> vs[j] != message_id@,
            i < ids.len() ==> vs[i as int] == message_id@,
        decreases ids.len() - i,
    {
        if str_eq(ids[i].as_str(), message_id) {
            break;
        }
        i = i + 1;
    }
    proof {
        lemma_position_of(vs, message_id@);
        if let Some(k) = position_of(vs, message_id@) {
            if k < i {
                assert(vs[k] != message_id@);
            }
        }
    }
    if i == ids.len() {
        return Err(concat_str("消息不存在: ", message_id));
    }
    assert(vs[i as int] == message_id@);
    proof {
        if let Some(k) = position_of(vs, message_id@) {
            if k > i {
                assert(vs[i as int] != message_id@);
            }
        }
    }
    let mut out: Vec<String> = Vec::new();
    let mut p: usize = i;
    while p < ids.len()
        invariant
            i <= p <= ids.len(),
            vs == crate::text::views(ids@),
            crate::text::views(out@) == vs.subrange(i as int, p as int),
        decreases ids.len() - p,
    {
        let ghost before = out@;
        let item = owned(ids[p].as_str());
        assert(item@ == vs[p as int]);
        out.push(item);
        assert(crate::text::views(out@) =~= crate::text::views(before).push(vs[p as int]));
        p = p + 1;
        assert(crate::text::views(out@) =~= vs.subrange(i as int, p as int));
    }
    assert(vs.subrange(i as int, ids.len() as int) =~= vs.skip(i as int));
    Ok(out)
}

/// Deleting from a message keeps exactly the messages before it: what is
/// deleted, put after what stays, is the whole session, and the first
/// deleted message is the one named.
pub proof fn lemma_delete_from_splits(ids: Seq<Seq<char>>, message_id: Seq<char>)
    ensures
        delete_from_spec(ids, message_id) matches Ok(gone) ==> {
            &&& gone.len() > 0
            &&& gone[0] == message_id
            &&& ids.take(ids.len() - gone.len()) + gone == ids
            &&& !ids.take(ids.len() - gone.len()).contains(message_id)
        },
{
    lemma_position_of(ids, message_id);
    if let Some(i) = position_of(ids, message_id) {
        assert(ids.take(i) + ids.skip(i) =~= ids);
        assert(ids.take(ids.len() - ids.skip(i).len()) =~= ids.take(i));
        if ids.take(i).contains(message_id) {
            let j = choose|j: int| 0 <= j < ids.take(i).len() && ids.take(i)[j] == message_id;
            assert(ids[j] == message_id);
        }
    }
}

// ---------- sessions ----------

/// The most hits a search returns of each kind (titles, messages).
pub const SEARCH_LIMIT: usize = 20;

/// The title of a new session without one.
pub open spec fn default_title() -> Seq<char> {
    "新对话"@
}

/// The SQL `LIKE` pattern of a search: the trimmed query between `%`
/// signs; a blank query searches nothing.
pub open spec fn search_pattern_spec(query: Seq<char>) -> Option<Seq<char>> {
    let q = trim_spec(query);
    if q.len() == 0 {
        None
    } else {
        Some(seq!['%'] + q + seq!['%'])
    }
}

/// The pattern of a search (see `search_pattern_spec`).
pub fn search_pattern(query: &str) -> (r: Option<String>)
    ensures
        match r {
            Some(p) => search_pattern_spec(query@) == Some(p@),
            None => search_pattern_spec(query@) is None,
        },
{
    let q = trim_str(query);
    let qc = chars_of(q.as_str());
    if qc.len() == 0 {
        return None;
    }
    let pct = vec!['%'];
    let p = crate::text::string_of(pct.as_slice());
    assert(p@ =~= seq!['%']);
    let a = concat_str(p.as_str(), q.as_str());
    Some(concat_str(a.as_str(), p.as_str()))
}

/// The title of a new session: the one given, or `新对话`.
pub fn new_session_title(title: Option<String>) -> (r: String)
    ensures
        r@ == (match title {
            Some(t) => t@,
            None => default_title(),
        }),
{
    match title {
        Some(t) => t,
        None => owned("新对话"),
    }
}

/// The workspace of a new session: the one given, or the default one.
pub fn new_session_workspace(workspace_id: Option<String>) -> (r: Option<String>)
    ensures
        match workspace_id {
            Some(w) => r == Some(w),
            None => r matches Some(d) && d@ == "default"@,
        },
{
    match workspace_id {
        Some(w) => Some(w),
        None => Some(owned("default")),
    }
}

} // verus!
