//! The record of external-command interactions of one advertising slot.
//!
//! The controller keeps, as ghost state, the sequence of completed
//! interactions with the external advertising commands. Its shape —
//! [`well_bracketed`] — is the heart of the lifecycle guarantees: a stop is
//! only ever issued for a start that succeeded, and a successful start is
//! followed by its own stop before any other command runs against the slot.

use vstd::prelude::*;

verus! {

/// One completed interaction with an external advertising command, recorded
/// when its outcome becomes known.
#[derive(Clone, Copy, Debug, PartialEq, Eq, Structural)]
pub enum CommandRecord {
    /// The start command ran and reported success.
    StartSucceeded,
    /// The start command could not run or reported failure.
    StartFailed,
    /// The stop command ran, whatever it reported.
    Stopped,
}

/// Whether the record ends with a successful start whose stop is still owed.
pub open spec fn ends_open(h: Seq<CommandRecord>) -> bool {
    h.len() > 0 && h.last() == CommandRecord::StartSucceeded
}

/// What may follow what: the record after a successful start is that start's
/// stop, and only a successful start has a stop after it.
pub open spec fn adjacent_ok(a: CommandRecord, b: CommandRecord) -> bool {
    (a == CommandRecord::StartSucceeded) <==> (b == CommandRecord::Stopped)
}

/// The shape every slot history keeps: no stop without a start, and stops and
/// successful starts pair up, adjacently and in order.
pub open spec fn well_bracketed(h: Seq<CommandRecord>) -> bool {
    &&& h.len() > 0 ==> h[0] != CommandRecord::Stopped
    &&& forall|i: int| 0 <= i < h.len() - 1 ==> #[trigger] adjacent_ok(h[i], h[i + 1])
}

/// How often a record occurs in a history.
pub open spec fn count_of(h: Seq<CommandRecord>, r: CommandRecord) -> nat
    decreases h.len(),
{
    if h.len() == 0 {
        0
    } else {
        count_of(h.drop_last(), r) + if h.last() == r {
            1nat
        } else {
            0nat
        }
    }
}

/// A history stays well bracketed when a record is appended, exactly when
/// that record is a stop for a start still owed one, or a start outcome while
/// none is owed.
pub proof fn lemma_push_keeps_bracketing(h: Seq<CommandRecord>, r: CommandRecord)
    requires
        well_bracketed(h),
        (r == CommandRecord::Stopped) <==> ends_open(h),
    ensures
        well_bracketed(h.push(r)),
{
    let g = h.push(r);
    assert forall|i: int| 0 <= i < g.len() - 1 implies #[trigger] adjacent_ok(g[i], g[i + 1]) by {
        if i < h.len() - 1 {
            assert(adjacent_ok(h[i], h[i + 1]));
        } else {
            assert(g[i] == h.last() && g[i + 1] == r);
        }
    }
}

/// Dropping the last record keeps a history well bracketed.
pub proof fn lemma_drop_last_keeps_bracketing(h: Seq<CommandRecord>)
    requires
        well_bracketed(h),
        h.len() > 0,
    ensures
        well_bracketed(h.drop_last()),
{
    let g = h.drop_last();
    assert forall|i: int| 0 <= i < g.len() - 1 implies #[trigger] adjacent_ok(g[i], g[i + 1]) by {
        assert(adjacent_ok(h[i], h[i + 1]));
    }
}

/// Law: a stop command is only ever issued for the successful start right
/// before it; in particular no stop opens a history.
pub proof fn lemma_stop_answers_a_successful_start(h: Seq<CommandRecord>, i: int)
    requires
        well_bracketed(h),
        0 <= i < h.len(),
        h[i] == CommandRecord::Stopped,
    ensures
        i > 0,
        h[i - 1] == CommandRecord::StartSucceeded,
{
    let j = i - 1;
    assert(adjacent_ok(h[j], h[j + 1]));
}

/// Law: when a start command fails, no stop is issued for that lifecycle —
/// whatever follows a failed start, it is not a stop.
pub proof fn lemma_failed_start_gets_no_stop(h: Seq<CommandRecord>, i: int)
    requires
        well_bracketed(h),
        0 <= i < h.len(),
        h[i] == CommandRecord::StartFailed,
    ensures
        i + 1 < h.len() ==> h[i + 1] != CommandRecord::Stopped,
{
    if i + 1 < h.len() {
        assert(adjacent_ok(h[i], h[i + 1]));
    }
}

/// Law: every successful start is answered by exactly one stop, issued
/// before anything else happens on the slot: the stop is the very next
/// record, and conversely a stop never answers anything but the successful
/// start right before it.
pub proof fn lemma_one_stop_per_successful_start(h: Seq<CommandRecord>, i: int)
    requires
        well_bracketed(h),
        0 <= i < h.len(),
        h[i] == CommandRecord::StartSucceeded,
    ensures
        i + 1 < h.len() ==> h[i + 1] == CommandRecord::Stopped,
{
    if i + 1 < h.len() {
        assert(adjacent_ok(h[i], h[i + 1]));
    }
}

/// Law: two successful starts never interleave — between any two of them a
/// stop was issued, so the second lifecycle only began once the first was
/// torn down.
pub proof fn lemma_starts_separated_by_stop(h: Seq<CommandRecord>, i: int, j: int)
    requires
        well_bracketed(h),
        0 <= i < j < h.len(),
        h[i] == CommandRecord::StartSucceeded,
        h[j] == CommandRecord::StartSucceeded,
    ensures
        exists|k: int| i < k < j && h[k] == CommandRecord::Stopped,
{
    lemma_one_stop_per_successful_start(h, i);
    assert(h[i + 1] == CommandRecord::Stopped);
    assert(i + 1 < j);
    assert(i < i + 1 < j && h[i + 1] == CommandRecord::Stopped);
}

/// Law: counted over a whole history, stops match successful starts one for
/// one, short exactly the one stop still owed while the history ends on a
/// successful start.
pub proof fn lemma_stop_count_matches_start_count(h: Seq<CommandRecord>)
    requires
        well_bracketed(h),
    ensures
        count_of(h, CommandRecord::Stopped) + (if ends_open(h) {
            1nat
        } else {
            0nat
        }) == count_of(h, CommandRecord::StartSucceeded),
    decreases h.len(),
{
    if h.len() > 0 {
        let g = h.drop_last();
        lemma_drop_last_keeps_bracketing(h);
        lemma_stop_count_matches_start_count(g);
        if h.last() == CommandRecord::Stopped {
            lemma_stop_answers_a_successful_start(h, h.len() - 1);
            assert(g.last() == h[h.len() - 2]);
            assert(ends_open(g));
        } else {
            if g.len() > 0 && g.last() == CommandRecord::StartSucceeded {
                lemma_one_stop_per_successful_start(h, h.len() - 2);
                assert(false);
            }
            assert(!ends_open(g));
        }
    }
}

} // verus!
