use vstd::prelude::*;
use crate::transcript::{
    admissible, entry_views, evicted, is_oldest_unpinned, oldest_unpinned, paired, trimmed,
    unpinned_count, EntryView, Role, TranscriptEntry,
};

verus! {

/// Adding an entry adds one to the count, unless the entry is pinned.
pub proof fn lemma_count_push(s: Seq<EntryView>, e: EntryView)
    ensures
        unpinned_count(s.push(e)) == unpinned_count(s) + if e.pinned() {
            0nat
        } else {
            1nat
        },
{
    assert(s.push(e).drop_last() =~= s);
}

/// Taking an entry out takes one from the count, unless the entry is pinned.
pub proof fn lemma_count_remove(s: Seq<EntryView>, k: int)
    requires
        0 <= k < s.len(),
    ensures
        unpinned_count(s) == unpinned_count(s.remove(k)) + if s[k].pinned() {
            0nat
        } else {
            1nat
        },
    decreases s.len(),
{
    if k == s.len() - 1 {
        assert(s.remove(k) =~= s.drop_last());
    } else {
        lemma_count_remove(s.drop_last(), k);
        assert(s.remove(k).drop_last() =~= s.drop_last().remove(k));
        assert(s.remove(k).last() == s.last());
    }
}

/// A transcript whose count is not zero has an oldest unpinned entry, and
/// `oldest_unpinned` is its place.
pub proof fn lemma_oldest_unpinned(s: Seq<EntryView>)
    requires
        unpinned_count(s) > 0,
    ensures
        is_oldest_unpinned(s, oldest_unpinned(s)),
    decreases s.len(),
{
    let d = s.drop_last();
    assert(forall|i: int| 0 <= i < d.len() ==> d[i] == s[i]);
    if unpinned_count(d) > 0 {
        lemma_oldest_unpinned(d);
        let k = oldest_unpinned(d);
        assert(is_oldest_unpinned(d, k));
        assert(is_oldest_unpinned(s, k));
    } else {
        lemma_all_pinned(d);
        assert(!s.last().pinned());
        assert(is_oldest_unpinned(s, s.len() - 1));
    }
}

/// A transcript whose count is zero holds pinned entries only.
pub proof fn lemma_all_pinned(s: Seq<EntryView>)
    requires
        unpinned_count(s) == 0,
    ensures
        forall|i: int| 0 <= i < s.len() ==> (#[trigger] s[i]).pinned(),
    decreases s.len(),
{
    if s.len() > 0 {
        let d = s.drop_last();
        lemma_all_pinned(d);
        assert(forall|i: int| 0 <= i < d.len() ==> d[i] == s[i]);
    }
}

/// No two places are the place of the oldest unpinned entry.
pub proof fn lemma_oldest_unpinned_unique(s: Seq<EntryView>, k: int)
    requires
        is_oldest_unpinned(s, k),
    ensures
        oldest_unpinned(s) == k,
{
    let c = oldest_unpinned(s);
    assert(is_oldest_unpinned(s, c));
    if c < k {
        assert(s[c].pinned());
    } else if k < c {
        assert(s[k].pinned());
    }
}

/// One trimming brings a transcript with at most one entry too many back
/// under the bound.
pub proof fn lemma_trim_restores_bound(s: Seq<EntryView>, cap: nat)
    requires
        unpinned_count(s) <= cap + 1,
    ensures
        unpinned_count(trimmed(s, cap)) <= cap,
{
    if unpinned_count(s) > cap {
        lemma_oldest_unpinned(s);
        let k = oldest_unpinned(s);
        lemma_count_remove(s, k);
        if k + 1 < s.len() && s[k].answered_by(s[k + 1]) {
            lemma_count_remove(s.remove(k), k);
        }
    }
}

/// Trimming never evicts a pinned entry: the pinned entries of the result
/// are those of the transcript, in their order.
pub proof fn lemma_trim_keeps_pinned(s: Seq<EntryView>, cap: nat)
    ensures
        trimmed(s, cap).filter(|e: EntryView| e.pinned()) == s.filter(|e: EntryView| e.pinned()),
{
    let p = |e: EntryView| e.pinned();
    if unpinned_count(s) > cap {
        lemma_oldest_unpinned(s);
        let k = oldest_unpinned(s);
        lemma_filter_remove_rejected(s, k);
        if k + 1 < s.len() && s[k].answered_by(s[k + 1]) {
            lemma_filter_remove_rejected(s.remove(k), k);
        }
    }
}

/// Taking out an unpinned entry leaves the pinned entries as they were.
proof fn lemma_filter_remove_rejected(s: Seq<EntryView>, k: int)
    requires
        0 <= k < s.len(),
        !s[k].pinned(),
    ensures
        s.remove(k).filter(|e: EntryView| e.pinned()) == s.filter(|e: EntryView| e.pinned()),
    decreases s.len(),
{
    let p = |e: EntryView| e.pinned();
    reveal(Seq::filter);
    if k == s.len() - 1 {
        assert(s.remove(k) =~= s.drop_last());
    } else {
        lemma_filter_remove_rejected(s.drop_last(), k);
        assert(s.remove(k).drop_last() =~= s.drop_last().remove(k));
        assert(s.remove(k).last() == s.last());
    }
}

/// Trimming keeps the pairing rule: no answer is left without its request,
/// and no answered request without its answer.
pub proof fn lemma_trim_keeps_pairs(s: Seq<EntryView>, cap: nat)
    requires
        paired(s),
    ensures
        paired(trimmed(s, cap)),
{
    if unpinned_count(s) > cap {
        lemma_oldest_unpinned(s);
        let k = oldest_unpinned(s);
        let t = evicted(s);
        if k + 1 < s.len() && s[k].answered_by(s[k + 1]) {
            assert(t.len() == s.len() - 2);
            assert forall|j: int| 0 <= j < t.len() implies (#[trigger] t[j]).well_shaped() by {
                if j < k {
                    assert(t[j] == s[j]);
                } else {
                    assert(t[j] == s[j + 2]);
                }
            }
            assert forall|j: int| 0 <= j < t.len() && (#[trigger] t[j]).is_result() implies j >= 1
                && t[j - 1].answered_by(t[j]) by {
                if j < k {
                    assert(t[j] == s[j]);
                    assert(s[j].pinned());
                } else {
                    assert(t[j] == s[j + 2]);
                    assert(s[j + 1].answered_by(s[j + 2]));
                    if j == k {
                        assert(s[k + 1].is_result());
                    } else {
                        assert(t[j - 1] == s[j + 1]);
                    }
                }
            }
            assert forall|i: int| 0 <= i < t.len() - 1 && (#[trigger] t[i]).is_call() implies t[i].answered_by(
                t[i + 1],
            ) by {
                if i < k {
                    assert(t[i] == s[i]);
                    assert(s[i].pinned());
                } else {
                    assert(t[i] == s[i + 2]);
                    assert(t[i + 1] == s[i + 3]);
                }
            }
        } else {
            assert(t.len() == s.len() - 1);
            assert forall|j: int| 0 <= j < t.len() implies (#[trigger] t[j]).well_shaped() by {
                if j < k {
                    assert(t[j] == s[j]);
                } else {
                    assert(t[j] == s[j + 1]);
                }
            }
            assert forall|j: int| 0 <= j < t.len() && (#[trigger] t[j]).is_result() implies j >= 1
                && t[j - 1].answered_by(t[j]) by {
                if j < k {
                    assert(t[j] == s[j]);
                    assert(s[j].pinned());
                } else {
                    assert(t[j] == s[j + 1]);
                    assert(s[j].answered_by(s[j + 1]));
                    if j > k {
                        assert(t[j - 1] == s[j]);
                    }
                }
            }
            assert forall|i: int| 0 <= i < t.len() - 1 && (#[trigger] t[i]).is_call() implies t[i].answered_by(
                t[i + 1],
            ) by {
                if i < k {
                    assert(t[i] == s[i]);
                    assert(s[i].pinned());
                } else {
                    assert(t[i] == s[i + 1]);
                    assert(t[i + 1] == s[i + 2]);
                }
            }
        }
    }
}

/// An admissible entry keeps the pairing rule.
pub proof fn lemma_push_keeps_pairs(s: Seq<EntryView>, e: EntryView)
    requires
        paired(s),
        admissible(s, e),
    ensures
        paired(s.push(e)),
{
    let t = s.push(e);
    assert forall|j: int| 0 <= j < t.len() implies (#[trigger] t[j]).well_shaped() by {
        if j < s.len() {
            assert(t[j] == s[j]);
        }
    }
    assert forall|j: int| 0 <= j < t.len() && (#[trigger] t[j]).is_result() implies j >= 1 && t[j
        - 1].answered_by(t[j]) by {
        if j < s.len() {
            assert(t[j] == s[j]);
            assert(t[j - 1] == s[j - 1]);
        }
    }
    assert forall|i: int| 0 <= i < t.len() - 1 && (#[trigger] t[i]).is_call() implies t[i].answered_by(
        t[i + 1],
    ) by {
        assert(t[i] == s[i]);
        if i < s.len() - 1 {
            assert(t[i + 1] == s[i + 1]);
        }
    }
}

/// Under the pairing rule every tool entry has, somewhere before it, the
/// request that it answers.
pub proof fn lemma_answers_have_requests(s: Seq<EntryView>)
    requires
        paired(s),
    ensures
        forall|j: int|
            0 <= j < s.len() && (#[trigger] s[j]).role == Role::Tool ==> exists|i: int|
                0 <= i < j && (#[trigger] s[i]).is_call() && s[i].tool_call_id == s[j].tool_call_id,
{
    assert forall|j: int| 0 <= j < s.len() && (#[trigger] s[j]).role == Role::Tool implies exists|
        i: int,
    |
        0 <= i < j && (#[trigger] s[i]).is_call() && s[i].tool_call_id == s[j].tool_call_id by {
        assert(s[j].is_result());
        assert(s[j - 1].answered_by(s[j]));
    }
}

/// An entry that is added to a transcript that keeps the bound is still
/// there after the trimming, as the newest entry, unless it is an answer.
pub proof fn lemma_trim_keeps_newest(s: Seq<EntryView>, e: EntryView, cap: nat)
    requires
        cap >= 1,
        unpinned_count(s) <= cap,
        !e.is_result(),
    ensures
        trimmed(s.push(e), cap).len() > 0,
        trimmed(s.push(e), cap).last() == e,
{
    let t = s.push(e);
    lemma_count_push(s, e);
    if unpinned_count(t) > cap {
        lemma_oldest_unpinned(t);
        let k = oldest_unpinned(t);
        if k == t.len() - 1 {
            assert(forall|i: int| 0 <= i < s.len() ==> t[i] == s[i]);
            lemma_count_all_pinned(s);
        }
    }
}

/// A transcript of pinned entries has the count zero.
pub proof fn lemma_count_all_pinned(s: Seq<EntryView>)
    requires
        forall|i: int| 0 <= i < s.len() ==> (#[trigger] s[i]).pinned(),
    ensures
        unpinned_count(s) == 0,
    decreases s.len(),
{
    if s.len() > 0 {
        lemma_count_all_pinned(s.drop_last());
    }
}

/// Adding an entry that is no answer, and trimming, keeps the bound and
/// the pairing rule, and leaves the entry as the newest.
pub proof fn lemma_append_plain(s: Seq<EntryView>, e: EntryView, cap: nat)
    requires
        cap >= 1,
        paired(s),
        unpinned_count(s) <= cap,
        admissible(s, e),
        !e.is_result(),
    ensures
        paired(trimmed(s.push(e), cap)),
        unpinned_count(trimmed(s.push(e), cap)) <= cap,
        trimmed(s.push(e), cap).len() > 0,
        trimmed(s.push(e), cap).last() == e,
{
    lemma_push_keeps_pairs(s, e);
    lemma_count_push(s, e);
    lemma_trim_restores_bound(s.push(e), cap);
    lemma_trim_keeps_pairs(s.push(e), cap);
    lemma_trim_keeps_newest(s, e, cap);
}

/// Adding the answer to the request that waits, and trimming, keeps the
/// bound and the pairing rule, and leaves no request waiting.
pub proof fn lemma_append_answer(s: Seq<EntryView>, e: EntryView, cap: nat)
    requires
        cap >= 1,
        paired(s),
        unpinned_count(s) <= cap,
        s.len() > 0,
        s.last().answered_by(e),
        e.well_shaped(),
    ensures
        admissible(s, e),
        paired(trimmed(s.push(e), cap)),
        unpinned_count(trimmed(s.push(e), cap)) <= cap,
        !(trimmed(s.push(e), cap).len() > 0 && trimmed(s.push(e), cap).last().is_call()),
{
    lemma_push_keeps_pairs(s, e);
    lemma_count_push(s, e);
    lemma_trim_restores_bound(s.push(e), cap);
    lemma_trim_keeps_pairs(s.push(e), cap);
    let t = s.push(e);
    let n = t.len() as int;
    assert(t[n - 1] == e);
    assert(t[n - 2] == s.last());
    if unpinned_count(t) > cap {
        lemma_oldest_unpinned(t);
        let k = oldest_unpinned(t);
        let u = trimmed(t, cap);
        if k >= n - 1 {
            assert(t[n - 2].pinned());
        } else if k == n - 2 {
            assert(t[k].answered_by(t[k + 1]));
            assert(u =~= t.take(k));
            if u.len() > 0 {
                assert(u.last() == t[k - 1]);
                assert(t[k - 1].pinned());
            }
        } else {
            if k + 1 < n && t[k].answered_by(t[k + 1]) {
                assert(u.len() == n - 2);
                assert(u.last() == t[n - 1]);
            } else {
                assert(u.len() == n - 1);
                assert(u.last() == t[n - 1]);
            }
        }
    }
}

/// Brings a transcript back under its bound. Where more than
/// `max_context_messages` of the entries are unpinned, the oldest of them is
/// evicted, together with its answer where it is an answered request.
/// Pinned entries stay.
pub fn trim(entries: &mut Vec<TranscriptEntry>, max_context_messages: usize)
    ensures
        entry_views(final(entries)@) == trimmed(
            entry_views(old(entries)@),
            max_context_messages as nat,
        ),
{
    let ghost s = entry_views(entries@);
    let n: usize = entries.len();
    let mut count: usize = 0;
    let mut first: usize = n;
    let mut i: usize = 0;
    while i < n
        invariant
            n == entries.len(),
            s == entry_views(entries@),
            i <= n,
            count == unpinned_count(s.take(i as int)),
            count <= i,
            first <= n,
            first == n ==> count == 0,
            first < n ==> is_oldest_unpinned(s, first as int) && first < i,
            count == 0 ==> first == n,
        decreases n - i,
    {
        proof {
            assert(s.take(i as int + 1).drop_last() =~= s.take(i as int));
            assert(s.take(i as int + 1).last() == s[i as int]);
            if count == 0 {
                lemma_all_pinned(s.take(i as int));
                assert(forall|j: int| 0 <= j < i ==> s.take(i as int)[j] == s[j]);
            }
        }
        if !entries[i].is_pinned() {
            if first == n {
                first = i;
            }
            count += 1;
        }
        i += 1;
    }
    assert(s.take(n as int) =~= s);
    if count > max_context_messages {
        proof {
            lemma_oldest_unpinned_unique(s, first as int);
        }
        let with_answer = first + 1 < n && entries[first].answered_by(&entries[first + 1]);
        entries.remove(first);
        assert(entry_views(entries@) =~= s.remove(first as int));
        if with_answer {
            entries.remove(first);
            assert(entry_views(entries@) =~= s.remove(first as int).remove(first as int));
        }
    }
}

/// The conversation of one session: its entries, oldest first, and the
/// number of unpinned entries that it may hold.
#[derive(Debug)]
pub struct Transcript {
    entries: Vec<TranscriptEntry>,
    capacity: usize,
}

impl View for Transcript {
    type V = Seq<EntryView>;

    closed spec fn view(&self) -> Seq<EntryView> {
        entry_views(self.entries@)
    }
}

impl Transcript {
    /// The number of unpinned entries that the transcript may hold.
    pub closed spec fn bound(&self) -> nat {
        self.capacity as nat
    }

    /// What holds of every transcript: the bound is at least 1, no more
    /// unpinned entries than the bound, and the pairing rule.
    pub open spec fn wf(&self) -> bool {
        &&& self.bound() >= 1
        &&& unpinned_count(self@) <= self.bound()
        &&& paired(self@)
    }

    /// An empty transcript with the bound `max_context_messages`, taken as 1
    /// where it is 0.
    pub fn new(max_context_messages: usize) -> (t: Transcript)
        ensures
            t.wf(),
            t@ == Seq::<EntryView>::empty(),
            t.bound() == if max_context_messages == 0 {
                1nat
            } else {
                max_context_messages as nat
            },
    {
        let capacity: usize = if max_context_messages == 0 {
            1
        } else {
            max_context_messages
        };
        let t = Transcript { entries: Vec::new(), capacity };
        assert(t@ =~= Seq::<EntryView>::empty());
        t
    }

    /// The bound of the transcript.
    pub fn capacity(&self) -> (c: usize)
        ensures
            c as nat == self.bound(),
    {
        self.capacity
    }

    /// The entries, oldest first.
    pub fn entries(&self) -> (v: &Vec<TranscriptEntry>)
        ensures
            entry_views(v@) == self@,
    {
        &self.entries
    }

    /// The number of entries.
    pub fn len(&self) -> (n: usize)
        ensures
            n == self@.len(),
    {
        self.entries.len()
    }

    /// Tells whether the newest entry is a request that waits for its answer.
    pub fn awaits_answer(&self) -> (r: bool)
        ensures
            r == (self@.len() > 0 && self@.last().is_call()),
    {
        let n: usize = self.entries.len();
        n > 0 && self.entries[n - 1].is_call()
    }

    /// Tells whether `entry` may be added.
    pub fn admits(&self, entry: &TranscriptEntry) -> (r: bool)
        ensures
            r == admissible(self@, entry@),
    {
        if !entry.is_well_shaped() {
            return false;
        }
        let n: usize = self.entries.len();
        if n > 0 && self.entries[n - 1].is_call() {
            self.entries[n - 1].answered_by(entry)
        } else {
            !entry.is_result()
        }
    }

    /// Adds an entry and trims. An entry that may not follow the transcript
    /// is refused, and the transcript stays as it is.
    pub fn append(&mut self, entry: TranscriptEntry) -> (accepted: bool)
        requires
            old(self).wf(),
        ensures
            final(self).wf(),
            final(self).bound() == old(self).bound(),
            accepted == admissible(old(self)@, entry@),
            accepted ==> final(self)@ == trimmed(old(self)@.push(entry@), old(self).bound()),
            !accepted ==> final(self)@ == old(self)@,
    {
        if !self.admits(&entry) {
            return false;
        }
        proof {
            lemma_push_keeps_pairs(self@, entry@);
            lemma_count_push(self@, entry@);
            lemma_trim_restores_bound(self@.push(entry@), self.bound());
            lemma_trim_keeps_pairs(self@.push(entry@), self.bound());
        }
        self.entries.push(entry);
        assert(entry_views(self.entries@) =~= old(self)@.push(entry@));
        trim(&mut self.entries, self.capacity);
        true
    }
}

} // verus!
