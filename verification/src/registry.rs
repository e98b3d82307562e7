//! Registries keyed by request or server id: the stop flags of running
//! requests, the channels that wait for a skill's user input, the cancelled
//! skill runs and the connected MCP servers. A registry holds at most one
//! entry per id and reads back what was last registered under it.

use vstd::prelude::*;
use std::sync::Arc;
use std::sync::atomic::{AtomicBool, Ordering};
use crate::text::{owned, str_eq, views};

verus! {

/// The map that a list of entries with distinct keys stands for.
pub open spec fn map_of<T>(s: Seq<(String, T)>) -> Map<Seq<char>, T>
    decreases s.len(),
{
    if s.len() == 0 {
        Map::empty()
    } else {
        map_of(s.drop_last()).insert(s.last().0@, s.last().1)
    }
}

pub open spec fn keys_distinct<T>(s: Seq<(String, T)>) -> bool {
    forall|i: int, j: int| 0 <= i < j < s.len() ==> (#[trigger] s[i]).0@ != (#[trigger] s[j]).0@
}

/// A key is in the map exactly when an entry has it.
pub proof fn lemma_map_of_dom<T>(s: Seq<(String, T)>, k: Seq<char>)
    ensures
        map_of(s).contains_key(k) <==> exists|i: int| 0 <= i < s.len() && (#[trigger] s[i]).0@ == k,
    decreases s.len(),
{
    if s.len() > 0 {
        lemma_map_of_dom(s.drop_last(), k);
        if map_of(s.drop_last()).contains_key(k) {
            let i = choose|i: int| 0 <= i < s.drop_last().len() && (#[trigger] s.drop_last()[i]).0@ == k;
            assert(s[i] == s.drop_last()[i]);
        }
        if exists|i: int| 0 <= i < s.len() && (#[trigger] s[i]).0@ == k {
            let i = choose|i: int| 0 <= i < s.len() && (#[trigger] s[i]).0@ == k;
            if i < s.len() - 1 {
                assert(s.drop_last()[i] == s[i]);
            }
        }
    }
}

/// With distinct keys, the map gives each entry's value under its key.
pub proof fn lemma_map_of_at<T>(s: Seq<(String, T)>, i: int)
    requires
        keys_distinct(s),
        0 <= i < s.len(),
    ensures
        map_of(s).contains_key(s[i].0@),
        map_of(s)[s[i].0@] == s[i].1,
    decreases s.len(),
{
    if i < s.len() - 1 {
        let p = s.drop_last();
        assert(p[i] == s[i]);
        assert(keys_distinct(p)) by {
            assert forall|a: int, b: int| 0 <= a < b < p.len() implies (#[trigger] p[a]).0@ != (#[trigger] p[b]).0@ by {
                assert(p[a] == s[a] && p[b] == s[b]);
            }
        }
        lemma_map_of_at(p, i);
        assert(s.last().0@ != s[i].0@);
    }
}

/// A registry: at most one entry per id, in the order the ids were first
/// registered.
pub struct Registry<T> {
    entries: Vec<(String, T)>,
}

impl<T> Registry<T> {
    #[verifier::type_invariant]
    spec fn distinct(self) -> bool {
        keys_distinct(self.entries@)
    }

    /// What the registry holds, by id.
    pub closed spec fn view(&self) -> Map<Seq<char>, T> {
        map_of(self.entries@)
    }

    /// The ids, in the order they were first registered.
    pub closed spec fn order(&self) -> Seq<Seq<char>> {
        self.entries@.map_values(|e: (String, T)| e.0@)
    }

    /// An empty registry.
    pub fn new() -> (r: Self)
        ensures
            r.view() == Map::<Seq<char>, T>::empty(),
            r.order().len() == 0,
    {
        Registry { entries: Vec::new() }
    }

    fn position(&self, key: &str) -> (r: Option<usize>)
        ensures
            match r {
                Some(i) => i < self.entries@.len() && self.entries@[i as int].0@ == key@,
                None => forall|j: int| 0 <= j < self.entries@.len() ==> (#[trigger] self.entries@[j]).0@ != key@,
            },
    {
        let mut i: usize = 0;
        while i < self.entries.len()
            invariant
                i <= self.entries.len(),
                forall|j: int| 0 <= j < i ==> (#[trigger] self.entries@[j]).0@ != key@,
            decreases self.entries.len() - i,
        {
            if str_eq(self.entries[i].0.as_str(), key) {
                return Some(i);
            }
            i = i + 1;
        }
        None
    }

    /// Whether an id is registered.
    pub fn contains(&self, key: &str) -> (r: bool)
        ensures
            r == self.view().contains_key(key@),
    {
        let p = self.position(key);
        proof {
            lemma_map_of_dom(self.entries@, key@);
        }
        p.is_some()
    }

    /// What is registered under an id.
    pub fn get(&self, key: &str) -> (r: Option<&T>)
        ensures
            match r {
                Some(v) => self.view().contains_key(key@) && *v == self.view()[key@],
                None => !self.view().contains_key(key@),
            },
    {
        proof {
            use_type_invariant(self);
            lemma_map_of_dom(self.entries@, key@);
        }
        match self.position(key) {
            Some(i) => {
                proof {
                    lemma_map_of_at(self.entries@, i as int);
                }
                Some(&self.entries[i].1)
            },
            None => None,
        }
    }

    /// Registers `value` under `key`, replacing what was registered under
    /// it; a new id goes last in the order.
    pub fn insert(&mut self, key: &str, value: T)
        ensures
            final(self).view() == old(self).view().insert(key@, value),
            old(self).view().contains_key(key@) ==> final(self).order() == old(self).order(),
            !old(self).view().contains_key(key@) ==> final(self).order() == old(self).order().push(key@),
    {
        proof {
            use_type_invariant(&*self);
            lemma_map_of_dom(self.entries@, key@);
        }
        let ghost old_entries = self.entries@;
        match self.position(key) {
            Some(i) => {
                let mut entries = Vec::new();
                std::mem::swap(&mut entries, &mut self.entries);
                let ghost kept = entries@;
                entries.set(i, (owned(key), value));
                let ghost s = entries@;
                proof {
                    assert(kept == old_entries);
                    lemma_set_same_map(old_entries, i as int, s[i as int]);
                    assert(s == old_entries.update(i as int, s[i as int]));
                    assert(s.map_values(|e: (String, T)| e.0@) =~= old_entries.map_values(|e: (String, T)| e.0@));
                }
                self.entries = entries;
            },
            None => {
                let mut entries = Vec::new();
                std::mem::swap(&mut entries, &mut self.entries);
                entries.push((owned(key), value));
                let ghost s = entries@;
                proof {
                    assert(keys_distinct(s)) by {
                        assert forall|a: int, b: int| 0 <= a < b < s.len() implies (#[trigger] s[a]).0@ != (#[trigger] s[b]).0@ by {
                            assert(s[a] == old_entries[a]);
                            if b < old_entries.len() {
                                assert(s[b] == old_entries[b]);
                            }
                        }
                    }
                    assert(s.drop_last() =~= old_entries);
                    assert(s.map_values(|e: (String, T)| e.0@) =~= old_entries.map_values(|e: (String, T)| e.0@).push(key@));
                }
                self.entries = entries;
            },
        }
    }

    /// Removes what is registered under `key` and returns it.
    pub fn remove(&mut self, key: &str) -> (r: Option<T>)
        ensures
            final(self).view() == old(self).view().remove(key@),
            match r {
                Some(v) => old(self).view().contains_key(key@) && v == old(self).view()[key@],
                None => !old(self).view().contains_key(key@),
            },
    {
        proof {
            use_type_invariant(&*self);
            lemma_map_of_dom(self.entries@, key@);
        }
        let ghost old_entries = self.entries@;
        match self.position(key) {
            Some(i) => {
                proof {
                    lemma_map_of_at(old_entries, i as int);
                }
                let mut entries = Vec::new();
                std::mem::swap(&mut entries, &mut self.entries);
                let e = entries.remove(i);
                let ghost s = entries@;
                proof {
                    assert(s =~= old_entries.remove(i as int));
                    assert(keys_distinct(s)) by {
                        assert forall|a: int, b: int| 0 <= a < b < s.len() implies (#[trigger] s[a]).0@ != (#[trigger] s[b]).0@ by {
                            let a0 = if a < i { a } else { a + 1 };
                            let b0 = if b < i { b } else { b + 1 };
                            assert(s[a] == old_entries[a0] && s[b] == old_entries[b0]);
                        }
                    }
                    lemma_remove_map(old_entries, i as int);
                }
                self.entries = entries;
                Some(e.1)
            },
            None => {
                proof {
                    assert(old_entries.len() == self.entries@.len());
                    assert(map_of(old_entries).remove(key@) =~= map_of(old_entries));
                }
                None
            },
        }
    }

    /// The registered ids, in the order they were first registered.
    pub fn ids(&self) -> (r: Vec<String>)
        ensures
            views(r@) == self.order(),
    {
        let mut out: Vec<String> = Vec::new();
        let mut i: usize = 0;
        while i < self.entries.len()
            invariant
                i <= self.entries.len(),
                views(out@) == self.entries@.take(i as int).map_values(|e: (String, T)| e.0@),
            decreases self.entries.len() - i,
        {
            let ghost before = out@;
            let item = owned(self.entries[i].0.as_str());
            out.push(item);
            assert(views(out@) =~= views(before).push(self.entries@[i as int].0@));
            i = i + 1;
            assert(views(out@) =~= self.entries@.take(i as int).map_values(|e: (String, T)| e.0@));
        }
        assert(self.entries@.take(self.entries.len() as int) =~= self.entries@);
        out
    }

    /// The order holds exactly the registered ids.
    pub proof fn lemma_order_is_dom(&self, k: Seq<char>)
        ensures
            self.order().contains(k) <==> self.view().contains_key(k),
    {
        lemma_map_of_dom(self.entries@, k);
        if self.order().contains(k) {
            let i = choose|i: int| 0 <= i < self.order().len() && self.order()[i] == k;
            assert(self.entries@[i].0@ == k);
        }
        if self.view().contains_key(k) {
            let i = choose|i: int| 0 <= i < self.entries@.len() && (#[trigger] self.entries@[i]).0@ == k;
            assert(self.order()[i] == k);
        }
    }
}

/// Replacing the value of an entry replaces it in the map.
proof fn lemma_set_same_map<T>(s: Seq<(String, T)>, i: int, e: (String, T))
    requires
        keys_distinct(s),
        0 <= i < s.len(),
        s[i].0@ == e.0@,
    ensures
        keys_distinct(s.update(i, e)),
        map_of(s.update(i, e)) == map_of(s).insert(e.0@, e.1),
{
    let t = s.update(i, e);
    let k = e.0@;
    assert(keys_distinct(t)) by {
        assert forall|a: int, b: int| 0 <= a < b < t.len() implies (#[trigger] t[a]).0@ != (#[trigger] t[b]).0@ by {
            assert(t[a].0@ == s[a].0@ && t[b].0@ == s[b].0@);
        }
    }
    assert forall|kk: Seq<char>| #[trigger] map_of(t).contains_key(kk) == map_of(s).insert(k, e.1).contains_key(kk) by {
        lemma_map_of_dom(t, kk);
        lemma_map_of_dom(s, kk);
        if map_of(t).contains_key(kk) {
            let j = choose|j: int| 0 <= j < t.len() && (#[trigger] t[j]).0@ == kk;
            assert(s[j].0@ == kk);
        }
        if map_of(s).contains_key(kk) {
            let j = choose|j: int| 0 <= j < s.len() && (#[trigger] s[j]).0@ == kk;
            assert(t[j].0@ == kk);
        }
        if kk == k {
            assert(t[i].0@ == kk);
        }
    }
    assert forall|kk: Seq<char>| #[trigger] map_of(t).contains_key(kk) implies map_of(t)[kk] == map_of(s).insert(k, e.1)[kk] by {
        lemma_map_of_dom(t, kk);
        let j = choose|j: int| 0 <= j < t.len() && (#[trigger] t[j]).0@ == kk;
        lemma_map_of_at(t, j);
        if j != i {
            lemma_map_of_at(s, j);
            assert(t[j] == s[j]);
        }
    }
    assert(map_of(t) =~= map_of(s).insert(k, e.1));
}

/// Removing an entry removes its key from the map.
proof fn lemma_remove_map<T>(s: Seq<(String, T)>, i: int)
    requires
        keys_distinct(s),
        0 <= i < s.len(),
    ensures
        map_of(s.remove(i)) == map_of(s).remove(s[i].0@),
{
    let t = s.remove(i);
    let k = s[i].0@;
    assert(keys_distinct(t)) by {
        assert forall|a: int, b: int| 0 <= a < b < t.len() implies (#[trigger] t[a]).0@ != (#[trigger] t[b]).0@ by {
            let a0 = if a < i { a } else { a + 1 };
            let b0 = if b < i { b } else { b + 1 };
            assert(t[a] == s[a0] && t[b] == s[b0]);
        }
    }
    assert forall|kk: Seq<char>| #[trigger] map_of(t).contains_key(kk) == map_of(s).remove(k).contains_key(kk) by {
        lemma_map_of_dom(t, kk);
        lemma_map_of_dom(s, kk);
        if map_of(t).contains_key(kk) {
            let j = choose|j: int| 0 <= j < t.len() && (#[trigger] t[j]).0@ == kk;
            let j0 = if j < i { j } else { j + 1 };
            assert(t[j] == s[j0]);
            assert(s[j0].0@ != k);
        }
        if map_of(s).contains_key(kk) && kk != k {
            let j = choose|j: int| 0 <= j < s.len() && (#[trigger] s[j]).0@ == kk;
            if j < i {
                assert(t[j] == s[j]);
            } else {
                assert(t[j - 1] == s[j]);
            }
        }
    }
    assert forall|kk: Seq<char>| #[trigger] map_of(t).contains_key(kk) implies map_of(t)[kk] == map_of(s).remove(k)[kk] by {
        lemma_map_of_dom(t, kk);
        let j = choose|j: int| 0 <= j < t.len() && (#[trigger] t[j]).0@ == kk;
        let j0 = if j < i { j } else { j + 1 };
        assert(t[j] == s[j0]);
        lemma_map_of_at(t, j);
        lemma_map_of_at(s, j0);
    }
    assert(map_of(t) =~= map_of(s).remove(k));
}

/// What coordinates running requests and skill runs: the stop flag of each
/// running request, the channel each skill run waiting for user input
/// listens on (`S`), and the skill runs the user cancelled.
pub struct RunControl<S> {
    active: Registry<Arc<AtomicBool>>,
    pending_inputs: Registry<S>,
    cancelled: Registry<()>,
}

impl<S> RunControl<S> {
    /// The running requests, by id.
    pub closed spec fn active_ids(&self) -> Set<Seq<char>> {
        self.active.view().dom()
    }

    /// The skill runs waiting for user input, by id.
    pub closed spec fn waiting_ids(&self) -> Set<Seq<char>> {
        self.pending_inputs.view().dom()
    }

    /// The cancelled skill runs, by id.
    pub closed spec fn cancelled_ids(&self) -> Set<Seq<char>> {
        self.cancelled.view().dom()
    }

    /// The stop flag of each running request, by id.
    pub closed spec fn active_flags(&self) -> Map<Seq<char>, Arc<AtomicBool>> {
        self.active.view()
    }

    /// The channel each skill run waiting for input listens on, by id.
    pub closed spec fn waiting_inputs(&self) -> Map<Seq<char>, S> {
        self.pending_inputs.view()
    }

    /// The id sets are the domains of the stored flags and channels.
    pub proof fn lemma_ids_are_domains(&self)
        ensures
            self.active_ids() == self.active_flags().dom(),
            self.waiting_ids() == self.waiting_inputs().dom(),
    {
    }

    /// Nothing running, waiting or cancelled.
    pub fn new() -> (r: Self)
        ensures
            r.active_ids() == Set::<Seq<char>>::empty(),
            r.waiting_ids() == Set::<Seq<char>>::empty(),
            r.cancelled_ids() == Set::<Seq<char>>::empty(),
            r.active_flags() == Map::<Seq<char>, Arc<AtomicBool>>::empty(),
            r.waiting_inputs() == Map::<Seq<char>, S>::empty(),
    {
        RunControl { active: Registry::new(), pending_inputs: Registry::new(), cancelled: Registry::new() }
    }

    /// Registers the stop flag of a running request.
    pub fn register_active(&mut self, request_id: &str, flag: Arc<AtomicBool>)
        ensures
            final(self).active_ids() == old(self).active_ids().insert(request_id@),
            final(self).waiting_ids() == old(self).waiting_ids(),
            final(self).cancelled_ids() == old(self).cancelled_ids(),
            final(self).active_flags() == old(self).active_flags().insert(request_id@, flag),
            final(self).waiting_inputs() == old(self).waiting_inputs(),
    {
        self.active.insert(request_id, flag);
    }

    /// Forgets a request that has ended.
    pub fn remove_active(&mut self, request_id: &str)
        ensures
            final(self).active_ids() == old(self).active_ids().remove(request_id@),
            final(self).waiting_ids() == old(self).waiting_ids(),
            final(self).cancelled_ids() == old(self).cancelled_ids(),
            final(self).active_flags() == old(self).active_flags().remove(request_id@),
            final(self).waiting_inputs() == old(self).waiting_inputs(),
    {
        let _ = self.active.remove(request_id);
    }

    /// Raises the stop flag of a request; whether the request is running.
    pub fn abort(&self, request_id: &str) -> (r: bool)
        ensures
            r == self.active_ids().contains(request_id@),
            r == self.active_flags().contains_key(request_id@),
    {
        match self.active.get(request_id) {
            Some(flag) => {
                flag.store(true, Ordering::Relaxed);
                true
            },
            None => false,
        }
    }

    /// Registers the channel a skill run waits on for user input.
    pub fn register_skill_input(&mut self, request_id: &str, tx: S)
        ensures
            final(self).waiting_ids() == old(self).waiting_ids().insert(request_id@),
            final(self).active_ids() == old(self).active_ids(),
            final(self).cancelled_ids() == old(self).cancelled_ids(),
            final(self).waiting_inputs() == old(self).waiting_inputs().insert(request_id@, tx),
            final(self).active_flags() == old(self).active_flags(),
    {
        self.pending_inputs.insert(request_id, tx);
    }

    /// Takes out the channel a skill run waits on, if it waits.
    pub fn take_skill_input(&mut self, request_id: &str) -> (r: Option<S>)
        ensures
            r is Some <==> old(self).waiting_ids().contains(request_id@),
            r == (if old(self).waiting_inputs().contains_key(request_id@) {
                Some(old(self).waiting_inputs()[request_id@])
            } else {
                None
            }),
            final(self).waiting_ids() == old(self).waiting_ids().remove(request_id@),
            final(self).active_ids() == old(self).active_ids(),
            final(self).cancelled_ids() == old(self).cancelled_ids(),
            final(self).waiting_inputs() == old(self).waiting_inputs().remove(request_id@),
            final(self).active_flags() == old(self).active_flags(),
    {
        self.pending_inputs.remove(request_id)
    }

    /// Cancels a skill run: marks it cancelled, drops the channel it waits
    /// on (which wakes it) and raises its stop flag.
    pub fn cancel_skill(&mut self, request_id: &str)
        ensures
            final(self).cancelled_ids() == old(self).cancelled_ids().insert(request_id@),
            final(self).waiting_ids() == old(self).waiting_ids().remove(request_id@),
            final(self).active_ids() == old(self).active_ids(),
            final(self).waiting_inputs() == old(self).waiting_inputs().remove(request_id@),
            final(self).active_flags() == old(self).active_flags(),
    {
        self.cancelled.insert(request_id, ());
        let _ = self.pending_inputs.remove(request_id);
        let _ = self.abort(request_id);
    }

    /// Whether a skill run was cancelled.
    pub fn is_skill_cancelled(&self, request_id: &str) -> (r: bool)
        ensures
            r == self.cancelled_ids().contains(request_id@),
    {
        self.cancelled.contains(request_id)
    }

    /// Forgets that a skill run was cancelled.
    pub fn clear_skill_cancel(&mut self, request_id: &str)
        ensures
            final(self).cancelled_ids() == old(self).cancelled_ids().remove(request_id@),
            final(self).waiting_ids() == old(self).waiting_ids(),
            final(self).active_ids() == old(self).active_ids(),
            final(self).waiting_inputs() == old(self).waiting_inputs(),
            final(self).active_flags() == old(self).active_flags(),
    {
        let _ = self.cancelled.remove(request_id);
    }
}

/// A cancelled skill run reads as cancelled and no longer waits for input,
/// until its cancellation is cleared.
pub proof fn lemma_cancel_then_query(waiting: Set<Seq<char>>, cancelled: Set<Seq<char>>, id: Seq<char>)
    ensures
        cancelled.insert(id).contains(id),
        !waiting.remove(id).contains(id),
        !cancelled.insert(id).remove(id).contains(id),
{
}

/// Read after write: what was last registered under an id is what the
/// registry gives back for it, and registering under one id leaves every
/// other id as it was; after a removal the id reads as absent.
pub proof fn lemma_read_after_write<T>(m: Map<Seq<char>, T>, k: Seq<char>, v: T, other: Seq<char>)
    requires
        other != k,
    ensures
        m.insert(k, v).contains_key(k) && m.insert(k, v)[k] == v,
        m.insert(k, v).contains_key(other) == m.contains_key(other),
        m.contains_key(other) ==> m.insert(k, v)[other] == m[other],
        !m.remove(k).contains_key(k),
        m.remove(k).contains_key(other) == m.contains_key(other),
{
}

} // verus!
