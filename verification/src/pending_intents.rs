//! The in-memory registry of pending batch intents, keyed by request id.
//!
//! An intent is stored when the HTTP API receives it, read while the user
//! confirms it, and removed when the batch is queued, when the user discards
//! it, or when it is found expired.

use vstd::prelude::*;
use crate::pending_batch_intent::{self, PendingBatchIntent};

verus! {

pub type Entry = (Seq<char>, PendingBatchIntent);

/// The intent stored under `k`: the latest entry with that key.
pub open spec fn lookup(s: Seq<Entry>, k: Seq<char>) -> Option<PendingBatchIntent>
    decreases s.len(),
{
    if s.len() == 0 {
        None
    } else if s.last().0 == k {
        Some(s.last().1)
    } else {
        lookup(s.drop_last(), k)
    }
}

/// The entries without key `k`.
pub open spec fn without_key(s: Seq<Entry>, k: Seq<char>) -> Seq<Entry>
    decreases s.len(),
{
    if s.len() == 0 {
        s
    } else if s.last().0 == k {
        without_key(s.drop_last(), k)
    } else {
        without_key(s.drop_last(), k).push(s.last())
    }
}

pub open spec fn as_map(s: Seq<Entry>) -> Map<Seq<char>, PendingBatchIntent> {
    Map::new(|k: Seq<char>| lookup(s, k) is Some, |k: Seq<char>| lookup(s, k).unwrap())
}

pub open spec fn entry_view(e: (String, PendingBatchIntent)) -> Entry {
    (e.0@, e.1)
}

proof fn lemma_without_key(s: Seq<Entry>, k: Seq<char>, j: Seq<char>)
    ensures
        lookup(without_key(s, k), j) == if j == k {
            None
        } else {
            lookup(s, j)
        },
    decreases s.len(),
{
    if s.len() > 0 {
        lemma_without_key(s.drop_last(), k, j);
        if s.last().0 != k {
            assert(without_key(s, k).drop_last() =~= without_key(s.drop_last(), k));
        }
    }
}

proof fn lemma_lookup_some(s: Seq<Entry>, k: Seq<char>)
    ensures
        lookup(s, k) is Some <==> exists|i: int| 0 <= i < s.len() && (#[trigger] s[i]).0 == k,
    decreases s.len(),
{
    if s.len() > 0 {
        lemma_lookup_some(s.drop_last(), k);
        if exists|i: int| 0 <= i < s.len() && (#[trigger] s[i]).0 == k {
            let i = choose|i: int| 0 <= i < s.len() && (#[trigger] s[i]).0 == k;
            if i < s.len() - 1 {
                assert(s.drop_last()[i] == s[i]);
            }
        }
        if exists|i: int| 0 <= i < s.drop_last().len() && (#[trigger] s.drop_last()[i]).0 == k {
            let i = choose|i: int| 0 <= i < s.drop_last().len() && (#[trigger] s.drop_last()[i]).0 == k;
            assert(s[i] == s.drop_last()[i]);
        }
    }
}

/// Pending intents by request id: a map from id to intent (its view), held
/// as a list of pairs in which the last pair for an id gives its intent. A
/// `HashMap` keyed by `String` would give Verus no model of its contents to
/// prove these contracts against.
#[derive(Debug)]
pub struct PendingIntents {
    entries: Vec<(String, PendingBatchIntent)>,
}

impl View for PendingIntents {
    type V = Map<Seq<char>, PendingBatchIntent>;

    closed spec fn view(&self) -> Map<Seq<char>, PendingBatchIntent> {
        as_map(self.entries_view())
    }
}

/// What a look-up found for a request id, given the time and the limit.
pub enum IntentLookup {
    /// No intent under this id.
    Missing,
    /// The intent had expired; it was removed and is returned so that its
    /// staging directory can be deleted.
    Expired(PendingBatchIntent),
    /// The intent is live (a copy of its paths).
    Live { inputs: Vec<String>, output_dir: Option<String> },
}

/// What `take_if_expired` does: nothing for an absent id; an expired intent
/// is removed and returned; a live one is copied and kept.
pub open spec fn lookup_outcome(
    r: IntentLookup,
    before: Map<Seq<char>, PendingBatchIntent>,
    after: Map<Seq<char>, PendingBatchIntent>,
    k: Seq<char>,
    now: u64,
    max_secs: u64,
) -> bool {
    match r {
        IntentLookup::Missing => !before.contains_key(k) && after == before,
        IntentLookup::Expired(v) => {
            &&& before.contains_key(k)
            &&& before[k] == v
            &&& pending_batch_intent::expired_at(v.created_unix, now, max_secs)
            &&& after == before.remove(k)
        },
        IntentLookup::Live { inputs, output_dir } => {
            &&& before.contains_key(k)
            &&& !pending_batch_intent::expired_at(before[k].created_unix, now, max_secs)
            &&& inputs@.map_values(|s: String| s@) == before[k].inputs@.map_values(|s: String| s@)
            &&& crate::local_api_ops::str_view(output_dir) == crate::local_api_ops::str_view(
                before[k].output_dir,
            )
            &&& after == before
        },
    }
}

impl PendingIntents {
    pub closed spec fn entries_view(&self) -> Seq<Entry> {
        self.entries@.map_values(|e: (String, PendingBatchIntent)| entry_view(e))
    }

    pub fn new() -> (r: Self)
        ensures
            r@ == Map::<Seq<char>, PendingBatchIntent>::empty(),
    {
        let r = PendingIntents { entries: Vec::new() };
        assert(r@ =~= Map::<Seq<char>, PendingBatchIntent>::empty());
        r
    }

    fn find(&self, request_id: &str) -> (r: Option<usize>)
        ensures
            match r {
                Some(i) => i < self.entries@.len() && self.entries@[i as int].0@ == request_id@
                    && lookup(self.entries_view(), request_id@) == Some(self.entries@[i as int].1),
                None => lookup(self.entries_view(), request_id@) is None,
            },
    {
        let ghost ev = self.entries_view();
        let mut i: usize = self.entries.len();
        assert(ev.take(i as int) =~= ev);
        while i > 0
            invariant
                i <= self.entries@.len(),
                ev == self.entries_view(),
                lookup(ev, request_id@) == lookup(ev.take(i as int), request_id@),
            decreases i,
        {
            let k = i - 1;
            assert(ev.take(i as int).drop_last() =~= ev.take(k as int));
            assert(ev.take(i as int).last() == entry_view(self.entries@[k as int]));
            if crate::text::eq_chars(
                &crate::text::chars_of(self.entries[k].0.as_str()),
                &crate::text::chars_of(request_id),
            ) {
                return Some(k);
            }
            i = k;
        }
        None
    }

    /// The intent stored under `request_id`, if any.
    pub fn get(&self, request_id: &str) -> (r: Option<&PendingBatchIntent>)
        ensures
            match r {
                Some(v) => self@.contains_key(request_id@) && self@[request_id@] == *v,
                None => !self@.contains_key(request_id@),
            },
    {
        match self.find(request_id) {
            Some(i) => Some(&self.entries[i].1),
            None => None,
        }
    }

    /// Stores `intent` under `request_id`, replacing any intent stored there.
    pub fn insert(&mut self, request_id: String, intent: PendingBatchIntent)
        ensures
            final(self)@ == old(self)@.insert(request_id@, intent),
    {
        let ghost k = request_id@;
        self.remove_key(request_id.as_str());
        let ghost before = self.entries_view();
        assert(as_map(before) == old(self)@.remove(k));
        self.entries.push((request_id, intent));
        proof {
            let newv = self.entries_view();
            assert(newv =~= before.push((k, intent)));
            assert(newv.drop_last() =~= before);
            let target = old(self)@.insert(k, intent);
            let cur = self@;
            assert forall|j: Seq<char>| cur.dom().contains(j) == target.dom().contains(j) && (cur.dom().contains(
                j,
            ) ==> cur[j] == target[j]) by {
                assert(newv.drop_last() =~= before);
                if j != k {
                    assert(as_map(before).dom().contains(j) == (lookup(before, j) is Some));
                    if lookup(before, j) is Some {
                        assert(as_map(before)[j] == lookup(before, j).unwrap());
                    }
                }
            }
            assert forall|j: Seq<char>| #[trigger] cur.dom().contains(j) == target.dom().contains(j) by {
                assert(newv.drop_last() =~= before);
                if j != k {
                    assert(as_map(before).dom().contains(j) == (lookup(before, j) is Some));
                }
            }
            assert(cur.dom() =~= target.dom());
            assert(cur =~= target);
        }
    }

    fn remove_key(&mut self, request_id: &str) -> (r: Option<PendingBatchIntent>)
        ensures
            final(self).entries_view() == without_key(old(self).entries_view(), request_id@),
            final(self)@ == old(self)@.remove(request_id@),
            r == lookup(old(self).entries_view(), request_id@),
    {
        let ghost k = request_id@;
        let ghost ev = self.entries_view();
        let mut old_entries: Vec<(String, PendingBatchIntent)> = Vec::new();
        std::mem::swap(&mut old_entries, &mut self.entries);
        assert(old_entries@.map_values(|e: (String, PendingBatchIntent)| entry_view(e)) == ev);
        let mut kept: Vec<(String, PendingBatchIntent)> = Vec::new();
        let mut found: Option<PendingBatchIntent> = None;
        for e in it: old_entries.into_iter()
            invariant
                ev == it.seq().map_values(|e: (String, PendingBatchIntent)| entry_view(e)),
                kept@.map_values(|e: (String, PendingBatchIntent)| entry_view(e)) == without_key(
                    ev.take(it.index() as int),
                    k,
                ),
                found == lookup(ev.take(it.index() as int), k),
                k == request_id@,
        {
            let ghost idx = it.index();
            proof {
                assert(ev.take(idx + 1).drop_last() =~= ev.take(idx as int));
                assert(ev.take(idx + 1).last() == entry_view(e));
            }
            let same = crate::text::eq_chars(
                &crate::text::chars_of(e.0.as_str()),
                &crate::text::chars_of(request_id),
            );
            let ghost ge = e;
            let (key, val) = e;
            assert(key == ge.0 && val == ge.1);
            assert(ev.take(idx + 1).len() > 0);
            assert(ev.take(idx + 1).last().1 == val);
            assert(same == (ev.take(idx + 1).last().0 == k));
            if same {
                assert(lookup(ev.take(idx + 1), k) == Some(val));
                assert(without_key(ev.take(idx + 1), k) == without_key(ev.take(idx as int), k));
                found = Some(val);
            } else {
                assert(lookup(ev.take(idx + 1), k) == lookup(ev.take(idx as int), k));
                assert(without_key(ev.take(idx + 1), k) == without_key(ev.take(idx as int), k).push(entry_view(ge)));
                let ghost before = kept@;
                kept.push((key, val));
                assert(kept@.map_values(|e: (String, PendingBatchIntent)| entry_view(e)) =~= before.map_values(
                    |e: (String, PendingBatchIntent)| entry_view(e),
                ).push(entry_view(ge)));
            }
        }
        assert(ev.take(ev.len() as int) =~= ev);
        self.entries = kept;
        proof {
            assert(self@ =~= old(self)@.remove(k)) by {
                assert forall|j: Seq<char>| #![auto] lookup(self.entries_view(), j) == (if j == k {
                    None
                } else {
                    lookup(ev, j)
                }) by {
                    lemma_without_key(ev, k, j);
                }
            }
        }
        found
    }

    /// Removes and returns the intent stored under `request_id`.
    pub fn remove(&mut self, request_id: &str) -> (r: Option<PendingBatchIntent>)
        ensures
            final(self)@ == old(self)@.remove(request_id@),
            match r {
                Some(v) => old(self)@.contains_key(request_id@) && old(self)@[request_id@] == v,
                None => !old(self)@.contains_key(request_id@),
            },
    {
        self.remove_key(request_id)
    }

    /// The request ids with a stored intent.
    pub fn request_ids(&self) -> (r: Vec<String>)
        ensures
            forall|i: int| 0 <= i < r@.len() ==> self@.contains_key(#[trigger] r@[i]@),
            forall|k: Seq<char>| self@.contains_key(k) ==> exists|i: int| 0 <= i < r@.len() && (#[trigger] r@[i])@
                == k,
    {
        let ghost ev = self.entries_view();
        let mut r: Vec<String> = Vec::new();
        let mut i: usize = 0;
        while i < self.entries.len()
            invariant
                ev == self.entries_view(),
                i <= self.entries@.len(),
                r@.len() == i,
                forall|j: int| 0 <= j < i ==> (#[trigger] r@[j])@ == ev[j].0,
            decreases self.entries@.len() - i,
        {
            r.push(self.entries[i].0.clone());
            i += 1;
        }
        proof {
            assert forall|j: int| 0 <= j < r@.len() implies self@.contains_key(#[trigger] r@[j]@) by {
                lemma_lookup_some(ev, r@[j]@);
                assert(ev[j].0 == r@[j]@);
            }
            assert forall|k: Seq<char>| self@.contains_key(k) implies exists|j: int| 0 <= j < r@.len() && (
            #[trigger] r@[j])@ == k by {
                lemma_lookup_some(ev, k);
                let j = choose|j: int| 0 <= j < ev.len() && (#[trigger] ev[j]).0 == k;
                assert(r@[j]@ == k);
            }
        }
        r
    }

    /// Looks `request_id` up at time `now` for a limit of `max_secs`: an
    /// expired intent is removed and handed back.
    pub fn take_if_expired(&mut self, request_id: &str, now: u64, max_secs: u64) -> (r: IntentLookup)
        ensures
            lookup_outcome(r, old(self)@, final(self)@, request_id@, now, max_secs),
    {
        match self.get(request_id) {
            None => IntentLookup::Missing,
            Some(ent) => {
                if ent.is_expired_at(now, max_secs) {
                    match self.remove(request_id) {
                        Some(v) => IntentLookup::Expired(v),
                        None => IntentLookup::Missing,
                    }
                } else {
                    let inputs = copy_strings(&ent.inputs);
                    let output_dir = match &ent.output_dir {
                        Some(d) => Some(d.clone()),
                        None => None,
                    };
                    IntentLookup::Live { inputs, output_dir }
                }
            },
        }
    }
}

/// One line of the pending-intents list shown in the app.
#[derive(Debug)]
pub struct PendingIntentRowDto {
    pub request_id: String,
    pub file_count: usize,
    pub label: String,
    /// Unix seconds at which the intent was created.
    pub created_at: u64,
}

/// `N PDF · {first file name}`; `Sin archivos` when there is none.
pub open spec fn intent_label(inputs: Seq<Seq<char>>) -> Seq<char> {
    let first = if inputs.len() > 0 {
        match crate::paths::file_name_of(inputs[0]) {
            Some(n) => n,
            None => ""@,
        }
    } else {
        ""@
    };
    if inputs.len() == 0 {
        "Sin archivos"@
    } else if inputs.len() == 1 {
        "1 PDF · "@ + first
    } else {
        crate::text::decimal(inputs.len()) + " PDF · "@ + first
    }
}

/// The label of a pending intent in the list.
pub fn label_for_pending_intent(ent: &PendingBatchIntent) -> (r: String)
    ensures
        r@ == intent_label(ent.inputs@.map_values(|s: String| s@)),
{
    let n = ent.inputs.len();
    if n == 0 {
        return String::from_str("Sin archivos");
    }
    let first = match crate::paths::path_file_name(ent.inputs[0].as_str()) {
        Some(f) => crate::text::chars_of(f.as_str()),
        None => crate::text::chars_of(""),
    };
    let mut v = if n == 1 {
        crate::text::chars_of("1 PDF · ")
    } else {
        let mut w = crate::text::decimal_chars(n as u64);
        crate::text::append_chars(&mut w, &crate::text::chars_of(" PDF · "));
        w
    };
    crate::text::append_chars(&mut v, &first);
    crate::text::string_of(&v)
}

/// The list line of an intent.
pub fn pending_intent_row(request_id: &str, ent: &PendingBatchIntent) -> (r: PendingIntentRowDto)
    ensures
        r.request_id@ == request_id@,
        r.file_count == ent.inputs@.len(),
        r.label@ == intent_label(ent.inputs@.map_values(|s: String| s@)),
        r.created_at == ent.created_unix,
{
    PendingIntentRowDto {
        request_id: crate::text::string_of(&crate::text::chars_of(request_id)),
        file_count: ent.inputs.len(),
        label: label_for_pending_intent(ent),
        created_at: ent.created_unix,
    }
}

/// Rows sorted newest first.
pub open spec fn newest_first(rows: Seq<PendingIntentRowDto>) -> bool {
    forall|i: int, j: int| 0 <= i < j < rows.len() ==> rows[i].created_at >= rows[j].created_at
}

/// Sorts rows by creation time, newest first; rows created at the same
/// second keep their order.
pub fn sort_rows_newest_first(rows: Vec<PendingIntentRowDto>) -> (r: Vec<PendingIntentRowDto>)
    ensures
        r@.to_multiset() == rows@.to_multiset(),
        newest_first(r@),
{
    let ghost all = rows@;
    let mut out: Vec<PendingIntentRowDto> = Vec::new();
    assert(out@ =~= all.take(0));
    for row in it: rows.into_iter()
        invariant
            all == it.seq(),
            out@.to_multiset() == all.take(it.index() as int).to_multiset(),
            newest_first(out@),
    {
        let ghost idx = it.index();
        assert(all.take(idx + 1) =~= all.take(idx as int).push(row));
        let mut pos: usize = 0;
        while pos < out.len() && out[pos].created_at >= row.created_at
            invariant
                pos <= out@.len(),
                forall|k: int| 0 <= k < pos ==> out@[k].created_at >= row.created_at,
            decreases out@.len() - pos,
        {
            pos += 1;
        }
        let ghost before = out@;
        proof {
            assert forall|k: int| pos <= k < before.len() implies before[k].created_at < row.created_at by {
                if pos < before.len() {
                    assert(before[pos as int].created_at < row.created_at);
                    assert(before[pos as int].created_at >= before[k].created_at);
                }
            }
        }
        out.insert(pos, row);
        proof {
            assert(out@ == before.insert(pos as int, row));
            vstd::seq_lib::to_multiset_insert(before, pos as int, row);
            vstd::seq_lib::to_multiset_build(all.take(idx as int), row);
            assert forall|i: int, j: int| 0 <= i < j < out@.len() implies out@[i].created_at
                >= out@[j].created_at by {
                if j < pos {
                } else if j == pos {
                } else if i < pos {
                    assert(out@[j] == before[j - 1]);
                } else if i == pos {
                    assert(out@[j] == before[j - 1]);
                } else {
                    assert(out@[i] == before[i - 1]);
                    assert(out@[j] == before[j - 1]);
                }
            }
        }
    }
    assert(all.take(all.len() as int) =~= all);
    out
}

/// A copy of a list of strings.
pub fn copy_strings(v: &Vec<String>) -> (r: Vec<String>)
    ensures
        r@.map_values(|s: String| s@) == v@.map_values(|s: String| s@),
{
    let mut r: Vec<String> = Vec::new();
    let mut i: usize = 0;
    while i < v.len()
        invariant
            i <= v@.len(),
            r@.map_values(|s: String| s@) == v@.take(i as int).map_values(|s: String| s@),
        decreases v@.len() - i,
    {
        let ghost before = r@;
        let c = v[i].clone();
        assert(c@ == v@[i as int]@);
        r.push(c);
        assert(r@.map_values(|s: String| s@) =~= before.map_values(|s: String| s@).push(c@));
        assert(v@.take(i + 1).map_values(|s: String| s@) =~= v@.take(i as int).map_values(|s: String| s@).push(
            v@[i as int]@,
        ));
        i += 1;
    }
    assert(v@.take(v@.len() as int) =~= v@);
    r
}

/// What is read back under a request id is what was last stored there.
pub proof fn law_read_after_store(m: Map<Seq<char>, PendingBatchIntent>, k: Seq<char>, v: PendingBatchIntent, j: Seq<char>)
    ensures
        m.insert(k, v).contains_key(k),
        m.insert(k, v)[k] == v,
        j != k ==> m.insert(k, v).contains_key(j) == m.contains_key(j),
        j != k && m.contains_key(j) ==> m.insert(k, v)[j] == m[j],
{
}

/// After removal nothing is stored under that id, and other ids are untouched.
pub proof fn law_removed_is_gone(m: Map<Seq<char>, PendingBatchIntent>, k: Seq<char>, j: Seq<char>)
    ensures
        !m.remove(k).contains_key(k),
        j != k ==> m.remove(k).contains_key(j) == m.contains_key(j),
{
}

} // verus!
