//! Laws of the append history.
//!
//! Every mutation of the store ensures `extends(old, new)`, and appends
//! serialize through the store's lock, so any two states the store passes
//! through are related by a chain of `with_append` steps. The lemmas here
//! state what that implies for observers: no append is ever lost, a
//! measurement once appended stays at its position with its exact contents,
//! and channel lengths never shrink from one snapshot to the next.

use vstd::prelude::*;

use crate::store::{extends, Channel, Measurement, StoreView};

verus! {

/// One append as the store linearizes it: which channel, which measurement.
pub struct AppendOp {
    pub channel: Channel,
    pub measurement: Measurement,
}

/// The state after a sequence of appends, applied in linearization order.
pub open spec fn apply_ops(s: StoreView, ops: Seq<AppendOp>) -> StoreView
    decreases ops.len(),
{
    if ops.len() == 0 {
        s
    } else {
        apply_ops(s, ops.drop_last()).with_append(ops.last().channel, ops.last().measurement)
    }
}

/// One more append extends the history by one `with_append` step, which is
/// how a run of the store's mutations folds into `apply_ops`.
pub proof fn lemma_apply_ops_push(s: StoreView, ops: Seq<AppendOp>, op: AppendOp)
    ensures
        apply_ops(s, ops.push(op)) == apply_ops(s, ops).with_append(op.channel, op.measurement),
{
    assert(ops.push(op).drop_last() =~= ops);
    assert(ops.push(op).last() == op);
}

/// How many of the appends target channel `c`.
pub open spec fn count_for(ops: Seq<AppendOp>, c: Channel) -> nat
    decreases ops.len(),
{
    if ops.len() == 0 {
        0
    } else {
        count_for(ops.drop_last(), c) + if ops.last().channel == c {
            1nat
        } else {
            0nat
        }
    }
}

/// No lost updates: after any sequence of appends completes — in whatever
/// order concurrent callers were linearized — each channel holds exactly its
/// old measurements plus one new measurement per append that targeted it.
pub proof fn lemma_no_lost_updates(s: StoreView, ops: Seq<AppendOp>, c: Channel)
    ensures
        apply_ops(s, ops).channel(c).len() == s.channel(c).len() + count_for(ops, c),
    decreases ops.len(),
{
    if ops.len() > 0 {
        lemma_no_lost_updates(s, ops.drop_last(), c);
    }
}

/// All appends of a sequence that target channel `c` count towards `c`.
pub proof fn lemma_count_for_all(ops: Seq<AppendOp>, c: Channel)
    requires
        forall|k: int| 0 <= k < ops.len() ==> #[trigger] ops[k].channel == c,
    ensures
        count_for(ops, c) == ops.len(),
    decreases ops.len(),
{
    if ops.len() > 0 {
        lemma_count_for_all(ops.drop_last(), c);
    }
}

/// The headline case of `lemma_no_lost_updates`: after `N` appends to one
/// channel complete, that channel is exactly `N` readings longer.
pub proof fn lemma_n_appends_give_length_n(s: StoreView, ops: Seq<AppendOp>, c: Channel)
    requires
        forall|k: int| 0 <= k < ops.len() ==> #[trigger] ops[k].channel == c,
    ensures
        apply_ops(s, ops).channel(c).len() == s.channel(c).len() + ops.len(),
{
    lemma_no_lost_updates(s, ops, c);
    lemma_count_for_all(ops, c);
}

/// Growth only at the end: a later state agrees with an earlier one on every
/// measurement the earlier one already held, and is at least as long.
pub proof fn lemma_prefix_preserved(pre: StoreView, post: StoreView)
    requires
        extends(pre, post),
    ensures
        forall|c: Channel| #[trigger] post.channel(c).len() >= pre.channel(c).len(),
        forall|c: Channel, i: int|
            0 <= i < pre.channel(c).len() ==> #[trigger] post.channel(c)[i] == pre.channel(c)[i],
{
    assert forall|c: Channel| #[trigger] post.channel(c).len() >= pre.channel(c).len() by {
        assert(pre.channel(c).is_prefix_of(post.channel(c)));
    }
    assert forall|c: Channel, i: int|
        0 <= i < pre.channel(c).len() implies #[trigger] post.channel(c)[i] == pre.channel(
        c,
    )[i] by {
        assert(pre.channel(c).is_prefix_of(post.channel(c)));
        assert(pre.channel(c)[i] == post.channel(c).subrange(0, pre.channel(c).len() as int)[i]);
    }
}

/// A snapshot taken after an append returns contains that measurement, in
/// full, at the position the append gave it — however many further appends
/// the store linearized in between.
pub proof fn lemma_append_visible(s: StoreView, c: Channel, m: Measurement, post: StoreView)
    requires
        extends(s.with_append(c, m), post),
    ensures
        post.channel(c).len() > s.channel(c).len(),
        post.channel(c)[s.channel(c).len() as int] == m,
{
    let mid = s.with_append(c, m);
    lemma_prefix_preserved(mid, post);
    assert(mid.channel(c) == s.channel(c).push(m));
    assert(mid.channel(c)[s.channel(c).len() as int] == m);
}

/// Two snapshots in sequence: every channel of the second is at least as
/// long as in the first.
pub proof fn lemma_snapshot_lengths_monotone(s1: StoreView, s2: StoreView)
    requires
        extends(s1, s2),
    ensures
        forall|c: Channel| #[trigger] s2.channel(c).len() >= s1.channel(c).len(),
{
    lemma_prefix_preserved(s1, s2);
}

} // verus!
