use vstd::prelude::*;

use crate::classify::{
    has_sub, has_top, in_sub_bucket, n_containing, n_survivors, observed, survives, top_has_useful,
    useful,
    LabelOptions,
};
use crate::label::{Label, SubLabel, TopLabel};
use crate::sub_filter::SubFilterCore;
use crate::thread_communicator::{ThreadCommunicator, ThreadState, NUMBER_OF_THREADS};

verus! {

/// The job of filter `i` leaves filter `i` out: whatever filter stands at
/// position `i`, the same records survive, each label is held by the same
/// number of survivors, and so each label is exactly as useful.
pub proof fn lemma_leave_one_out(
    recs: Seq<Seq<Label>>,
    cores: Seq<SubFilterCore>,
    i: usize,
    other: SubFilterCore,
    l: Label,
)
    requires
        i < cores.len(),
    ensures
        forall|rec: Seq<Label>|
            survives(rec, cores, Some(i)) == #[trigger] survives(rec, cores.update(i as int, other), Some(i)),
        n_survivors(recs, cores, Some(i)) == n_survivors(recs, cores.update(i as int, other), Some(i)),
        n_containing(recs, cores, Some(i), l) == n_containing(
            recs,
            cores.update(i as int, other),
            Some(i),
            l,
        ),
        useful(recs, cores, Some(i), l) == useful(recs, cores.update(i as int, other), Some(i), l),
    decreases recs.len(),
{
    let c2 = cores.update(i as int, other);
    assert forall|rec: Seq<Label>| survives(rec, cores, Some(i)) == #[trigger] survives(rec, c2, Some(i)) by {
        if survives(rec, cores, Some(i)) {
            assert forall|j: int| 0 <= j < c2.len() && Some(i) != Some(j as usize) implies #[trigger] c2[j].passes_spec(rec) by {
                assert(cores[j].passes_spec(rec));
            }
        }
        if survives(rec, c2, Some(i)) {
            assert forall|j: int| 0 <= j < cores.len() && Some(i) != Some(j as usize) implies #[trigger] cores[j].passes_spec(rec) by {
                assert(c2[j].passes_spec(rec));
            }
        }
    }
    if recs.len() > 0 {
        lemma_leave_one_out(recs.drop_last(), cores, i, other, l);
    }
}

/// The job of filter `i` counts as if filter `i` were removed: the same
/// records survive as with every other filter applied, each label is held
/// by as many survivors, and so each label is exactly as useful.
pub proof fn lemma_leave_one_out_removed(
    recs: Seq<Seq<Label>>,
    cores: Seq<SubFilterCore>,
    i: usize,
    l: Label,
)
    requires
        i < cores.len() <= usize::MAX,
    ensures
        forall|rec: Seq<Label>|
            survives(rec, cores, Some(i)) == #[trigger] survives(rec, cores.remove(i as int), None),
        n_survivors(recs, cores, Some(i)) == n_survivors(recs, cores.remove(i as int), None),
        n_containing(recs, cores, Some(i), l) == n_containing(recs, cores.remove(i as int), None, l),
        useful(recs, cores, Some(i), l) == useful(recs, cores.remove(i as int), None, l),
    decreases recs.len(),
{
    let c2 = cores.remove(i as int);
    cores.remove_ensures(i as int);
    assert forall|rec: Seq<Label>| survives(rec, cores, Some(i)) == #[trigger] survives(rec, c2, None) by {
        if survives(rec, cores, Some(i)) {
            assert forall|j: int| 0 <= j < c2.len() && None::<usize> != Some(j as usize) implies #[trigger] c2[j].passes_spec(rec) by {
                if j < i {
                    assert(cores[j].passes_spec(rec));
                } else {
                    assert(c2[j] == cores[j + 1]);
                    assert(cores[j + 1].passes_spec(rec));
                }
            }
        }
        if survives(rec, c2, None) {
            assert forall|j: int| 0 <= j < cores.len() && Some(i) != Some(j as usize) implies #[trigger] cores[j].passes_spec(rec) by {
                if j < i {
                    assert(c2[j].passes_spec(rec));
                } else {
                    assert(c2[j - 1] == cores[j]);
                    assert(c2[j - 1].passes_spec(rec));
                }
            }
        }
    }
    if recs.len() > 0 {
        lemma_leave_one_out_removed(recs.drop_last(), cores, i, l);
    }
}

/// The options of filter `i`'s job do not depend on filter `i`'s own
/// predicate: with another filter on the same label at position `i`
/// (inverted or not), the sub-level lists name the same sub-level
/// categories and the top-level lists the same top-level categories.
pub proof fn lemma_leave_one_out_options(
    r1: LabelOptions,
    r2: LabelOptions,
    recs: Seq<Seq<Label>>,
    cores: Seq<SubFilterCore>,
    i: usize,
    other: SubFilterCore,
)
    requires
        i < cores.len(),
        other.label == cores[i as int].label,
        r1.classifies(recs, cores, Some(i)),
        r2.classifies(recs, cores.update(i as int, other), Some(i)),
    ensures
        forall|s: Option<SubLabel>|
            has_sub(r1.usefull_sub_level_labels@, s) == has_sub(r2.usefull_sub_level_labels@, s),
        forall|s: Option<SubLabel>|
            has_sub(r1.useless_sub_level_labels@, s) == has_sub(r2.useless_sub_level_labels@, s),
        forall|t: TopLabel|
            has_top(r1.usefull_top_level_labels@, t) == has_top(r2.usefull_top_level_labels@, t),
        forall|t: TopLabel|
            has_top(r1.useless_top_level_labels@, t) == has_top(r2.useless_top_level_labels@, t),
{
    let c2 = cores.update(i as int, other);
    let ex = Some(i);
    assert forall|l: Label|
        #![trigger useful(recs, cores, ex, l)]
        #![trigger useful(recs, c2, ex, l)]
        useful(recs, cores, ex, l) == useful(recs, c2, ex, l)
            && in_sub_bucket(cores, ex, l) == in_sub_bucket(c2, ex, l) by {
        lemma_leave_one_out(recs, cores, i, other, l);
    }
    assert forall|t: TopLabel|
        #![trigger top_has_useful(recs, cores, ex, t)]
        #![trigger top_has_useful(recs, c2, ex, t)]
        top_has_useful(recs, cores, ex, t) == top_has_useful(recs, c2, ex, t) by {
        if top_has_useful(recs, cores, ex, t) {
            let l = choose|l: Label|
                #[trigger] observed(recs, l) && !in_sub_bucket(cores, ex, l) && useful(recs, cores, ex, l)
                    && l.top == t;
            assert(useful(recs, c2, ex, l));
        }
        if top_has_useful(recs, c2, ex, t) {
            let l = choose|l: Label|
                #[trigger] observed(recs, l) && !in_sub_bucket(c2, ex, l) && useful(recs, c2, ex, l)
                    && l.top == t;
            assert(useful(recs, cores, ex, l));
        }
    }
    let (us1, ls1, ut1, lt1) = (
        r1.usefull_sub_level_labels@,
        r1.useless_sub_level_labels@,
        r1.usefull_top_level_labels@,
        r1.useless_top_level_labels@,
    );
    let (us2, ls2, ut2, lt2) = (
        r2.usefull_sub_level_labels@,
        r2.useless_sub_level_labels@,
        r2.usefull_top_level_labels@,
        r2.useless_top_level_labels@,
    );
    assert forall|s: Option<SubLabel>| has_sub(us1, s) == has_sub(us2, s) by {
        if has_sub(us1, s) {
            let a = choose|a: int| 0 <= a < us1.len() && (#[trigger] us1[a]).sub == s;
            assert(useful(recs, cores, ex, us1[a]) == useful(recs, c2, ex, us1[a]));
        }
        if has_sub(us2, s) {
            let a = choose|a: int| 0 <= a < us2.len() && (#[trigger] us2[a]).sub == s;
            assert(useful(recs, cores, ex, us2[a]) == useful(recs, c2, ex, us2[a]));
        }
    }
    assert forall|s: Option<SubLabel>| has_sub(ls1, s) == has_sub(ls2, s) by {
        if has_sub(ls1, s) {
            let a = choose|a: int| 0 <= a < ls1.len() && (#[trigger] ls1[a]).sub == s;
            assert(useful(recs, cores, ex, ls1[a]) == useful(recs, c2, ex, ls1[a]));
        }
        if has_sub(ls2, s) {
            let a = choose|a: int| 0 <= a < ls2.len() && (#[trigger] ls2[a]).sub == s;
            assert(useful(recs, cores, ex, ls2[a]) == useful(recs, c2, ex, ls2[a]));
        }
    }
    assert forall|t: TopLabel| has_top(ut1, t) == has_top(ut2, t) by {
        if has_top(ut1, t) {
            let a = choose|a: int| 0 <= a < ut1.len() && (#[trigger] ut1[a]).top == t;
            assert(useful(recs, cores, ex, ut1[a]) == useful(recs, c2, ex, ut1[a]));
        }
        if has_top(ut2, t) {
            let a = choose|a: int| 0 <= a < ut2.len() && (#[trigger] ut2[a]).top == t;
            assert(useful(recs, cores, ex, ut2[a]) == useful(recs, c2, ex, ut2[a]));
        }
    }
    assert forall|t: TopLabel| has_top(lt1, t) == has_top(lt2, t) by {
        if has_top(lt1, t) {
            let a = choose|a: int| 0 <= a < lt1.len() && (#[trigger] lt1[a]).top == t;
            assert(top_has_useful(recs, cores, ex, t) == top_has_useful(recs, c2, ex, t));
            assert(useful(recs, cores, ex, lt1[a]) == useful(recs, c2, ex, lt1[a]));
        }
        if has_top(lt2, t) {
            let a = choose|a: int| 0 <= a < lt2.len() && (#[trigger] lt2[a]).top == t;
            assert(top_has_useful(recs, cores, ex, t) == top_has_useful(recs, c2, ex, t));
            assert(useful(recs, cores, ex, lt2[a]) == useful(recs, c2, ex, lt2[a]));
        }
    }
}

/// Each observed label has its place in exactly one of the two lists of
/// its bucket: among the sub-level options by its sub-level category, or
/// among the top-level options by its top-level category.
pub proof fn lemma_partition(
    r: LabelOptions,
    recs: Seq<Seq<Label>>,
    cores: Seq<SubFilterCore>,
    excl: Option<usize>,
    l: Label,
)
    requires
        r.classifies(recs, cores, excl),
        observed(recs, l),
    ensures
        in_sub_bucket(cores, excl, l) ==> has_sub(r.usefull_sub_level_labels@, l.sub) != has_sub(
            r.useless_sub_level_labels@,
            l.sub,
        ),
        !in_sub_bucket(cores, excl, l) ==> has_top(r.usefull_top_level_labels@, l.top) != has_top(
            r.useless_top_level_labels@,
            l.top,
        ),
{
    let us = r.usefull_sub_level_labels@;
    let ls = r.useless_sub_level_labels@;
    let ut = r.usefull_top_level_labels@;
    let lt = r.useless_top_level_labels@;
    if in_sub_bucket(cores, excl, l) {
        if has_sub(us, l.sub) && has_sub(ls, l.sub) {
            let a = choose|a: int| 0 <= a < us.len() && (#[trigger] us[a]).sub == l.sub;
            let b = choose|b: int| 0 <= b < ls.len() && (#[trigger] ls[b]).sub == l.sub;
            assert(us[a] == ls[b]);
        }
        if useful(recs, cores, excl, l) {
            assert(has_sub(us, l.sub));
        } else {
            assert(has_sub(ls, l.sub));
        }
    } else {
        if has_top(ut, l.top) {
            let a = choose|a: int| 0 <= a < ut.len() && (#[trigger] ut[a]).top == l.top;
            assert(observed(recs, ut[a]));
            if has_top(lt, l.top) {
                let b = choose|b: int| 0 <= b < lt.len() && (#[trigger] lt[b]).top == l.top;
                assert(!in_sub_bucket(cores, excl, lt[b]));
            }
        } else {
            if useful(recs, cores, excl, l) {
                assert(has_top(ut, l.top));
            }
            assert(has_top(lt, l.top));
        }
    }
}

/// A useful top-level option wins its category: no useless top-level
/// option shares its category.
pub proof fn lemma_useful_wins(
    r: LabelOptions,
    recs: Seq<Seq<Label>>,
    cores: Seq<SubFilterCore>,
    excl: Option<usize>,
    l: Label,
)
    requires
        r.classifies(recs, cores, excl),
        observed(recs, l),
        !in_sub_bucket(cores, excl, l),
        useful(recs, cores, excl, l),
    ensures
        has_top(r.usefull_top_level_labels@, l.top),
        !has_top(r.useless_top_level_labels@, l.top),
{
    let lt = r.useless_top_level_labels@;
    if has_top(lt, l.top) {
        let b = choose|b: int| 0 <= b < lt.len() && (#[trigger] lt[b]).top == l.top;
        assert(observed(recs, l));
    }
}

/// In a round just begun no worker runs a job of it, so no report is taken
/// until the worker has taken a job of the new round.
pub proof fn lemma_new_round_rejects_reports(tc: ThreadCommunicator, id: u8)
    requires
        tc.is_working(),
        forall|i: int|
            0 <= i < NUMBER_OF_THREADS ==> tc.round().thread_state@[i] == ThreadState::Outdated,
    ensures
        !tc.accepts_report(id),
{
}

/// Progress never counts more jobs done than there are, and a completed
/// round reports all of them done. Once every worker has taken a job of the
/// round, all jobs are reported done exactly when the round is completed.
///
/// The last part does not hold without that condition. Progress counts a
/// job as done once it is neither queued nor being worked on. So while the
/// queue is empty and no worker is working, but some worker has not yet
/// taken a job of the round, every job counts as done and the round is not
/// completed yet. An idle coordinator also reports `(1, 1)` with nothing to
/// take.
pub proof fn lemma_completion_exact(tc: ThreadCommunicator)
    requires
        tc.wf(),
    ensures
        0 <= tc.progress().0 <= tc.progress().1,
        tc.is_finished() ==> tc.progress() == (
            tc.completed().0.len() + 1int,
            tc.completed().0.len() + 1int,
        ),
        tc.is_finished() || (tc.is_working() && forall|i: int|
            0 <= i < NUMBER_OF_THREADS ==> tc.round().thread_state@[i] != ThreadState::Outdated)
            ==> (tc.progress().0 == tc.progress().1 <==> tc.is_finished()),
{
    if tc.is_working() && forall|i: int|
        0 <= i < NUMBER_OF_THREADS ==> tc.round().thread_state@[i] != ThreadState::Outdated {
        let ts = tc.round().thread_state@;
        let i = choose|i: int| 0 <= i < ts.len() && ts[i] != ThreadState::Finished;
        crate::thread_communicator::lemma_count_pos(ts, i);
    }
}

} // verus!
