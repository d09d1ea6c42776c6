//! The replicated log as a sequence: what it means for it to be ordered, to
//! hold an entry, and to take in a batch of entries sent by a leader.

use super::persistent::LogEntry;
use super::{LogEntryId, LogEntryIndex};
use vstd::prelude::*;

verus! {

/// The indices of `log` grow strictly from each entry to the next.
pub open spec fn strictly_ascending(log: Seq<LogEntry>) -> bool {
    forall|i: int, j: int| 0 <= i < j < log.len() ==> log[i].index < log[j].index
}

/// `log` has an entry at the position and with the term that `id` names.
pub open spec fn holds(log: Seq<LogEntry>, id: LogEntryId) -> bool {
    exists|i: int| 0 <= i < log.len() && #[trigger] log[i].id() == id
}

/// Every entry of `entries` is already in `log`, by position and term.
pub open spec fn holds_all(log: Seq<LogEntry>, entries: Seq<LogEntry>) -> bool {
    forall|j: int| 0 <= j < entries.len() ==> holds(log, #[trigger] entries[j].id())
}

/// Length of the part of `log` that lies before position `index`. In an
/// ascending log these are exactly the entries whose index is below `index`.
pub open spec fn rank(log: Seq<LogEntry>, index: LogEntryIndex) -> nat
    decreases log.len(),
{
    if log.len() == 0 || log.last().index < index {
        log.len()
    } else {
        rank(log.drop_last(), index)
    }
}

/// `entries` is a batch that can follow the entry `prev`: its indices ascend
/// strictly and all lie after `prev`.
pub open spec fn follows(prev: LogEntryId, entries: Seq<LogEntry>) -> bool {
    &&& strictly_ascending(entries)
    &&& forall|j: int| 0 <= j < entries.len() ==> prev.index < (#[trigger] entries[j]).index
}

/// What a batch sent to follow `prev` brings: its entries, if their indices
/// ascend strictly and lie after `prev`, and nothing otherwise.
pub open spec fn batch_after(prev: LogEntryId, entries: Seq<LogEntry>) -> Seq<LogEntry> {
    if follows(prev, entries) {
        entries
    } else {
        Seq::empty()
    }
}

/// The log after a batch was taken in. Entries that the log already holds
/// change nothing. From the first entry it does not hold, the log is cut at
/// that entry's position and the rest of the batch is put in its place.
pub open spec fn splice(log: Seq<LogEntry>, entries: Seq<LogEntry>) -> Seq<LogEntry>
    decreases entries.len(),
{
    if entries.len() == 0 {
        log
    } else if holds(log, entries[0].id()) {
        splice(log, entries.skip(1))
    } else {
        log.take(rank(log, entries[0].index) as int) + entries
    }
}

/// In an ascending log, `rank` separates the entries below `index` from the
/// others.
pub proof fn lemma_rank(log: Seq<LogEntry>, index: LogEntryIndex)
    requires
        strictly_ascending(log),
    ensures
        rank(log, index) <= log.len(),
        forall|i: int| 0 <= i < rank(log, index) ==> (#[trigger] log[i]).index < index,
        forall|i: int| rank(log, index) <= i < log.len() ==> (#[trigger] log[i]).index >= index,
    decreases log.len(),
{
    if log.len() == 0 || log.last().index < index {
    } else {
        let shorter = log.drop_last();
        lemma_rank(shorter, index);
        assert forall|i: int| 0 <= i < rank(log, index) implies (#[trigger] log[i]).index
            < index by {
            assert(log[i] == shorter[i]);
        }
        assert forall|i: int| rank(log, index) <= i < log.len() implies (#[trigger] log[i]).index
            >= index by {
            if i < shorter.len() {
                assert(log[i] == shorter[i]);
            }
        }
    }
}

/// A larger index has at least the rank of a smaller one.
pub proof fn lemma_rank_monotone(log: Seq<LogEntry>, a: LogEntryIndex, b: LogEntryIndex)
    requires
        strictly_ascending(log),
        a <= b,
    ensures
        rank(log, a) <= rank(log, b),
{
    lemma_rank(log, a);
    lemma_rank(log, b);
    if rank(log, a) > rank(log, b) {
        let i = rank(log, b) as int;
        assert(log[i].index >= b);
        assert(log[i].index < a);
    }
}

/// In an ascending log an entry can only stand at the rank of its index.
pub proof fn lemma_holds_at_rank(log: Seq<LogEntry>, id: LogEntryId)
    requires
        strictly_ascending(log),
    ensures
        holds(log, id) <==> (rank(log, id.index) < log.len() && log[rank(log, id.index) as int].id()
            == id),
{
    lemma_rank(log, id.index);
    let k = rank(log, id.index) as int;
    if holds(log, id) {
        let i = choose|i: int| 0 <= i < log.len() && #[trigger] log[i].id() == id;
        assert(log[i].index == id.index);
        if i < k {
            assert(log[i].index < id.index);
        }
        if i > k {
            assert(log[k].index >= id.index);
            assert(log[k].index < log[i].index);
        }
        assert(i == k);
    }
}

/// What `splice` leaves of the old log: everything before the position of
/// the first entry of the batch.
pub proof fn lemma_splice_keeps_lower(log: Seq<LogEntry>, entries: Seq<LogEntry>)
    requires
        strictly_ascending(log),
        strictly_ascending(entries),
        entries.len() > 0,
    ensures
        rank(log, entries[0].index) <= splice(log, entries).len(),
        splice(log, entries).take(rank(log, entries[0].index) as int) == log.take(
            rank(log, entries[0].index) as int,
        ),
    decreases entries.len(),
{
    let k = rank(log, entries[0].index) as int;
    lemma_rank(log, entries[0].index);
    if holds(log, entries[0].id()) {
        let rest = entries.skip(1);
        if rest.len() > 0 {
            assert(rest[0] == entries[1]);
            lemma_splice_keeps_lower(log, rest);
            lemma_rank_monotone(log, entries[0].index, rest[0].index);
            lemma_rank(log, rest[0].index);
            let k1 = rank(log, rest[0].index) as int;
            let r = splice(log, rest);
            assert(k <= k1 <= r.len());
            assert(r.take(k) == r.take(k1).take(k));
            assert(log.take(k) == log.take(k1).take(k));
        }
    } else {
        assert((log.take(k) + entries).take(k) == log.take(k));
    }
}

/// Taking in an ascending batch leaves an ascending log ascending.
pub proof fn lemma_splice_ascending(log: Seq<LogEntry>, entries: Seq<LogEntry>)
    requires
        strictly_ascending(log),
        strictly_ascending(entries),
    ensures
        strictly_ascending(splice(log, entries)),
    decreases entries.len(),
{
    if entries.len() == 0 {
    } else if holds(log, entries[0].id()) {
        lemma_splice_ascending(log, entries.skip(1));
    } else {
        lemma_rank(log, entries[0].index);
        let k = rank(log, entries[0].index) as int;
        let r = log.take(k) + entries;
        assert forall|i: int, j: int| 0 <= i < j < r.len() implies r[i].index < r[j].index by {
            if j < k {
                assert(r[i] == log[i] && r[j] == log[j]);
            } else if i < k {
                assert(r[i] == log[i]);
                assert(r[j] == entries[j - k]);
                assert(entries[0].index <= entries[j - k].index);
            } else {
                assert(r[i] == entries[i - k] && r[j] == entries[j - k]);
            }
        }
    }
}

/// After a batch was taken in, the log holds every entry of the batch.
pub proof fn lemma_splice_holds_batch(log: Seq<LogEntry>, entries: Seq<LogEntry>)
    requires
        strictly_ascending(log),
        strictly_ascending(entries),
    ensures
        holds_all(splice(log, entries), entries),
    decreases entries.len(),
{
    let r = splice(log, entries);
    if entries.len() == 0 {
    } else if holds(log, entries[0].id()) {
        let rest = entries.skip(1);
        lemma_splice_holds_batch(log, rest);
        assert forall|j: int| 0 <= j < entries.len() implies holds(r, #[trigger] entries[j].id()) by {
            if j == 0 {
                let i = choose|i: int| 0 <= i < log.len() && #[trigger] log[i].id() == entries[0].id();
                if rest.len() > 0 {
                    assert(rest[0] == entries[1]);
                    lemma_splice_keeps_lower(log, rest);
                    lemma_rank(log, rest[0].index);
                    let k1 = rank(log, rest[0].index) as int;
                    if i >= k1 {
                        assert(log[i].index >= rest[0].index);
                    }
                    assert(r.take(k1)[i] == log.take(k1)[i]);
                    assert(r[i].id() == entries[0].id());
                } else {
                    assert(r[i].id() == entries[0].id());
                }
            } else {
                assert(entries[j] == rest[j - 1]);
                assert(holds(r, rest[j - 1].id()));
            }
        }
    } else {
        let k = rank(log, entries[0].index) as int;
        lemma_rank(log, entries[0].index);
        assert forall|j: int| 0 <= j < entries.len() implies holds(r, #[trigger] entries[j].id()) by {
            assert(r[k + j] == entries[j]);
            assert(r[k + j].id() == entries[j].id());
        }
    }
}

/// A batch changes the log exactly when the log lacks one of its entries.
pub proof fn lemma_splice_unchanged(log: Seq<LogEntry>, entries: Seq<LogEntry>)
    requires
        strictly_ascending(log),
    ensures
        holds_all(log, entries) <==> splice(log, entries) == log,
    decreases entries.len(),
{
    if entries.len() == 0 {
    } else if holds(log, entries[0].id()) {
        let rest = entries.skip(1);
        lemma_splice_unchanged(log, rest);
        if holds_all(log, entries) {
            assert forall|j: int| 0 <= j < rest.len() implies holds(log, #[trigger] rest[j].id()) by {
                assert(rest[j] == entries[j + 1]);
            }
        }
        if holds_all(log, rest) {
            assert forall|j: int| 0 <= j < entries.len() implies holds(
                log,
                #[trigger] entries[j].id(),
            ) by {
                if j > 0 {
                    assert(entries[j] == rest[j - 1]);
                }
            }
        }
    } else {
        let k = rank(log, entries[0].index) as int;
        lemma_rank(log, entries[0].index);
        let r = log.take(k) + entries;
        assert(r[k] == entries[0]);
        if r == log {
            assert(log[k].id() == entries[0].id());
        }
    }
}

/// Taking in the same batch a second time changes nothing.
pub proof fn lemma_splice_idempotent(log: Seq<LogEntry>, entries: Seq<LogEntry>)
    requires
        strictly_ascending(log),
        strictly_ascending(entries),
    ensures
        splice(splice(log, entries), entries) == splice(log, entries),
{
    lemma_splice_ascending(log, entries);
    lemma_splice_holds_batch(log, entries);
    lemma_splice_unchanged(splice(log, entries), entries);
}

/// Entries that the log holds at the front of a batch do not matter to what
/// taking in the batch gives.
pub proof fn lemma_splice_skips_held(log: Seq<LogEntry>, entries: Seq<LogEntry>, j: int)
    requires
        0 <= j <= entries.len(),
        forall|i: int| 0 <= i < j ==> holds(log, #[trigger] entries[i].id()),
    ensures
        splice(log, entries) == splice(log, entries.skip(j)),
    decreases j,
{
    if j == 0 {
        assert(entries.skip(0) == entries);
    } else {
        let rest = entries.skip(1);
        assert(holds(log, entries[0].id()));
        assert forall|i: int| 0 <= i < j - 1 implies holds(log, #[trigger] rest[i].id()) by {
            assert(rest[i] == entries[i + 1]);
        }
        lemma_splice_skips_held(log, rest, j - 1);
        assert(rest.skip(j - 1) == entries.skip(j));
    }
}

/// Counts the entries of `log` that lie before position `index`.
pub fn rank_of(log: &Vec<LogEntry>, index: LogEntryIndex) -> (k: usize)
    ensures
        k == rank(log@, index),
{
    let mut k: usize = log.len();
    assert(log@.take(k as int) == log@);
    while k > 0 && log[k - 1].index >= index
        invariant
            k <= log.len(),
            rank(log@, index) == rank(log@.take(k as int), index),
        decreases k,
    {
        assert(log@.take(k as int).drop_last() == log@.take(k - 1));
        k = k - 1;
    }
    k
}

/// Tells whether an ascending log has an entry at the position and with the
/// term that `id` names.
pub fn holds_entry(log: &Vec<LogEntry>, id: &LogEntryId) -> (b: bool)
    requires
        strictly_ascending(log@),
    ensures
        b == holds(log@, *id),
{
    let k: usize = rank_of(log, id.index);
    proof {
        lemma_holds_at_rank(log@, *id);
        lemma_rank(log@, id.index);
    }
    k < log.len() && log[k].index == id.index && log[k].term == id.term
}

/// Tells whether `entries` is a batch that can follow the entry `prev`.
pub fn is_batch_after(prev: &LogEntryId, entries: &Vec<LogEntry>) -> (b: bool)
    ensures
        b == follows(*prev, entries@),
{
    let n: usize = entries.len();
    let mut j: usize = 0;
    while j < n
        invariant
            j <= n,
            n == entries.len(),
            forall|a: int, b: int| 0 <= a < b < j ==> entries[a].index < entries[b].index,
            forall|a: int| 0 <= a < j ==> prev.index < (#[trigger] entries[a]).index,
        decreases n - j,
    {
        if entries[j].index <= prev.index {
            return false;
        }
        if j > 0 && entries[j - 1].index >= entries[j].index {
            return false;
        }
        j = j + 1;
    }
    true
}

/// Finds the first entry of `entries` that `log` does not hold.
fn first_missing(log: &Vec<LogEntry>, entries: &Vec<LogEntry>) -> (j: usize)
    requires
        strictly_ascending(log@),
    ensures
        j <= entries.len(),
        forall|i: int| 0 <= i < j ==> holds(log@, #[trigger] entries[i].id()),
        j < entries.len() ==> !holds(log@, entries[j as int].id()),
{
    let n: usize = entries.len();
    let mut j: usize = 0;
    while j < n
        invariant
            j <= n,
            n == entries.len(),
            strictly_ascending(log@),
            forall|i: int| 0 <= i < j ==> holds(log@, #[trigger] entries[i].id()),
        decreases n - j,
    {
        let id = LogEntryId { index: entries[j].index, term: entries[j].term };
        if !holds_entry(log, &id) {
            return j;
        }
        j = j + 1;
    }
    j
}

/// Takes a batch into the log. The flag tells whether the log changed.
pub fn take_in(log: Vec<LogEntry>, entries: Vec<LogEntry>) -> (r: (Vec<LogEntry>, bool))
    requires
        strictly_ascending(log@),
        strictly_ascending(entries@),
    ensures
        r.0@ == splice(log@, entries@),
        strictly_ascending(r.0@),
        r.1 == (r.0@ != log@),
{
    let mut log = log;
    let mut entries = entries;
    let ghost old_log = log@;
    let ghost batch = entries@;
    let j: usize = first_missing(&log, &entries);
    proof {
        lemma_splice_skips_held(old_log, batch, j as int);
        lemma_splice_unchanged(old_log, batch);
        lemma_splice_ascending(old_log, batch);
    }
    if j == entries.len() {
        (log, false)
    } else {
        let k: usize = rank_of(&log, entries[j].index);
        proof {
            lemma_rank(old_log, batch[j as int].index);
            assert(batch.skip(j as int)[0] == batch[j as int]);
        }
        log.truncate(k);
        let mut tail = entries.split_off(j);
        log.append(&mut tail);
        assert(log@ == old_log.take(k as int) + batch.skip(j as int));
        (log, true)
    }
}

} // verus!
