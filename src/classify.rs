use vstd::prelude::*;

use crate::label::{label_le, label_lt, sorted, Label, SubLabel, TopLabel};
use crate::label_vec::LabelVec;
use crate::sub_filter::{contains_label, SubFilterCore};

verus! {

/// Whether a record passes every filter but the excluded one.
pub open spec fn survives(rec: Seq<Label>, cores: Seq<SubFilterCore>, excl: Option<usize>) -> bool {
    forall|j: int|
        0 <= j < cores.len() && excl != Some(j as usize) ==> #[trigger] cores[j].passes_spec(rec)
}

/// The number of records that survive.
pub open spec fn n_survivors(
    recs: Seq<Seq<Label>>,
    cores: Seq<SubFilterCore>,
    excl: Option<usize>,
) -> nat
    decreases recs.len(),
{
    if recs.len() == 0 {
        0
    } else {
        n_survivors(recs.drop_last(), cores, excl) + if survives(recs.last(), cores, excl) {
            1nat
        } else {
            0nat
        }
    }
}

/// The number of surviving records that hold `l`.
pub open spec fn n_containing(
    recs: Seq<Seq<Label>>,
    cores: Seq<SubFilterCore>,
    excl: Option<usize>,
    l: Label,
) -> nat
    decreases recs.len(),
{
    if recs.len() == 0 {
        0
    } else {
        n_containing(recs.drop_last(), cores, excl, l) + if survives(recs.last(), cores, excl)
            && recs.last().contains(l) {
            1nat
        } else {
            0nat
        }
    }
}

/// Some record holds `l`.
pub open spec fn observed(recs: Seq<Seq<Label>>, l: Label) -> bool {
    exists|r: int, k: int| 0 <= r < recs.len() && 0 <= k < recs[r].len() && #[trigger] recs[r][k] == l
}

/// `l` is held by some but not all surviving records.
pub open spec fn useful(
    recs: Seq<Seq<Label>>,
    cores: Seq<SubFilterCore>,
    excl: Option<usize>,
    l: Label,
) -> bool {
    0 < n_containing(recs, cores, excl, l) < n_survivors(recs, cores, excl)
}

/// The label of the excluded filter, if any.
pub open spec fn current_label(cores: Seq<SubFilterCore>, excl: Option<usize>) -> Option<Label> {
    match excl {
        Some(i) => Some(cores[i as int].label),
        None => None,
    }
}

/// `l` shares its top-level category with the excluded filter's label, and
/// so is offered as a sub-level option.
pub open spec fn in_sub_bucket(cores: Seq<SubFilterCore>, excl: Option<usize>, l: Label) -> bool {
    match current_label(cores, excl) {
        Some(c) => c.top == l.top,
        None => false,
    }
}

pub open spec fn has_top(s: Seq<Label>, t: TopLabel) -> bool {
    exists|i: int| 0 <= i < s.len() && (#[trigger] s[i]).top == t
}

pub open spec fn has_sub(s: Seq<Label>, t: Option<SubLabel>) -> bool {
    exists|i: int| 0 <= i < s.len() && (#[trigger] s[i]).sub == t
}

pub open spec fn distinct_tops(s: Seq<Label>) -> bool {
    forall|i: int, j: int| 0 <= i < s.len() && 0 <= j < s.len() && i != j ==> s[i].top != s[j].top
}

pub open spec fn distinct_subs(s: Seq<Label>) -> bool {
    forall|i: int, j: int| 0 <= i < s.len() && 0 <= j < s.len() && i != j ==> s[i].sub != s[j].sub
}

/// Some observed top-level option in category `t` is useful.
pub open spec fn top_has_useful(
    recs: Seq<Seq<Label>>,
    cores: Seq<SubFilterCore>,
    excl: Option<usize>,
    t: TopLabel,
) -> bool {
    exists|l: Label|
        #[trigger] observed(recs, l) && !in_sub_bucket(cores, excl, l) && useful(recs, cores, excl, l)
            && l.top == t
}

/// The label options of one job, split into useful and useless top-level
/// and sub-level options.
pub struct LabelOptions {
    pub usefull_top_level_labels: Vec<Label>,
    pub useless_top_level_labels: Vec<Label>,
    pub usefull_sub_level_labels: Vec<Label>,
    pub useless_sub_level_labels: Vec<Label>,
}

/// The useful top-level options: one per top-level category that has a useful
/// observed label outside the sub-level bucket, each such a label, sorted.
pub open spec fn useful_top_ok(
    recs: Seq<Seq<Label>>,
    cores: Seq<SubFilterCore>,
    excl: Option<usize>,
    s: Seq<Label>,
) -> bool {
    &&& sorted(s)
    &&& distinct_tops(s)
    &&& forall|i: int|
        0 <= i < s.len() ==> observed(recs, #[trigger] s[i]) && !in_sub_bucket(cores, excl, s[i])
            && useful(recs, cores, excl, s[i])
    &&& forall|l: Label|
        observed(recs, l) && !in_sub_bucket(cores, excl, l) && useful(recs, cores, excl, l)
            ==> #[trigger] has_top(s, l.top)
}

/// The useless top-level options: one per top-level category of the
/// observed labels outside the sub-level bucket none of which is useful.
pub open spec fn useless_top_ok(
    recs: Seq<Seq<Label>>,
    cores: Seq<SubFilterCore>,
    excl: Option<usize>,
    s: Seq<Label>,
) -> bool {
    &&& sorted(s)
    &&& distinct_tops(s)
    &&& forall|i: int|
        0 <= i < s.len() ==> observed(recs, #[trigger] s[i]) && !in_sub_bucket(cores, excl, s[i])
            && !useful(recs, cores, excl, s[i]) && !top_has_useful(recs, cores, excl, s[i].top)
    &&& forall|l: Label|
        observed(recs, l) && !in_sub_bucket(cores, excl, l) && !top_has_useful(
            recs,
            cores,
            excl,
            l.top,
        ) ==> #[trigger] has_top(s, l.top)
}

/// The sub-level options whose usefulness is `u`: one per sub-level
/// category of the observed labels in the sub-level bucket, sorted.
pub open spec fn sub_ok(
    recs: Seq<Seq<Label>>,
    cores: Seq<SubFilterCore>,
    excl: Option<usize>,
    u: bool,
    s: Seq<Label>,
) -> bool {
    &&& sorted(s)
    &&& distinct_subs(s)
    &&& forall|i: int|
        0 <= i < s.len() ==> observed(recs, #[trigger] s[i]) && in_sub_bucket(cores, excl, s[i])
            && useful(recs, cores, excl, s[i]) == u
    &&& forall|l: Label|
        observed(recs, l) && in_sub_bucket(cores, excl, l) && useful(recs, cores, excl, l) == u
            ==> #[trigger] has_sub(s, l.sub)
}

impl LabelOptions {
    /// The options of the job on `recs` and `cores` that leaves out the
    /// filter `excl` (none for the global job).
    pub open spec fn classifies(
        &self,
        recs: Seq<Seq<Label>>,
        cores: Seq<SubFilterCore>,
        excl: Option<usize>,
    ) -> bool {
        &&& useful_top_ok(recs, cores, excl, self.usefull_top_level_labels@)
        &&& useless_top_ok(recs, cores, excl, self.useless_top_level_labels@)
        &&& sub_ok(recs, cores, excl, true, self.usefull_sub_level_labels@)
        &&& sub_ok(recs, cores, excl, false, self.useless_sub_level_labels@)
    }
}

/// Inserts `l` into a sorted vector, keeping it sorted; returns the position.
fn insert_sorted(v: &mut Vec<Label>, l: Label) -> (k: usize)
    requires
        sorted(old(v)@),
    ensures
        k <= old(v)@.len(),
        final(v)@ == old(v)@.insert(k as int, l),
        sorted(final(v)@),
{
    let mut k: usize = 0;
    while k < v.len() && v[k].less_than(&l)
        invariant
            k <= v@.len(),
            sorted(v@),
            forall|i: int| 0 <= i < k ==> label_lt(v@[i], l),
        decreases v@.len() - k,
    {
        k = k + 1;
    }
    let ghost before = v@;
    v.insert(k, l);
    proof {
        before.insert_ensures(k as int, l);
        assert(k < before.len() ==> !label_lt(before[k as int], l));
        assert forall|i: int, j: int| 0 <= i < j < v@.len() implies label_le(v@[i], v@[j]) by {
            if j < k {
            } else if j == k {
            } else if i < k {
                assert(label_le(before[k as int], before[j - 1]));
            } else if i == k {
                assert(label_le(before[k as int], before[j - 1]));
            } else {
            }
        }
    }
    k
}

/// What inserting into a sorted vector keeps.
proof fn lemma_insert(old_s: Seq<Label>, new_s: Seq<Label>, k: int, l: Label, p: spec_fn(Label) -> bool)
    requires
        0 <= k <= old_s.len(),
        new_s == old_s.insert(k, l),
        forall|i: int| 0 <= i < old_s.len() ==> p(#[trigger] old_s[i]),
        p(l),
    ensures
        forall|i: int| 0 <= i < new_s.len() ==> p(#[trigger] new_s[i]),
        forall|t: TopLabel| has_top(old_s, t) ==> has_top(new_s, t),
        forall|t: Option<SubLabel>| has_sub(old_s, t) ==> has_sub(new_s, t),
        has_top(new_s, l.top),
        has_sub(new_s, l.sub),
        distinct_tops(old_s) && !has_top(old_s, l.top) ==> distinct_tops(new_s),
        distinct_subs(old_s) && !has_sub(old_s, l.sub) ==> distinct_subs(new_s),
{
    old_s.insert_ensures(k, l);
    assert forall|i: int| 0 <= i < new_s.len() implies p(#[trigger] new_s[i]) by {
        if i > k {
            assert(new_s[i] == old_s[i - 1]);
        }
    }
    assert forall|t: TopLabel| has_top(old_s, t) implies has_top(new_s, t) by {
        let i = choose|i: int| 0 <= i < old_s.len() && (#[trigger] old_s[i]).top == t;
        if i < k {
            assert(new_s[i] == old_s[i]);
        } else {
            assert(new_s[i + 1] == old_s[i]);
        }
    }
    assert forall|t: Option<SubLabel>| has_sub(old_s, t) implies has_sub(new_s, t) by {
        let i = choose|i: int| 0 <= i < old_s.len() && (#[trigger] old_s[i]).sub == t;
        if i < k {
            assert(new_s[i] == old_s[i]);
        } else {
            assert(new_s[i + 1] == old_s[i]);
        }
    }
    assert(new_s[k] == l);
    if distinct_tops(old_s) && !has_top(old_s, l.top) {
        assert forall|i: int, j: int|
            0 <= i < new_s.len() && 0 <= j < new_s.len() && i != j implies new_s[i].top
            != new_s[j].top by {
            if i != k && j != k {
                let oi = if i < k { i } else { i - 1 };
                let oj = if j < k { j } else { j - 1 };
                assert(new_s[i] == old_s[oi]);
                assert(new_s[j] == old_s[oj]);
            } else if i == k {
                let oj = if j < k { j } else { j - 1 };
                assert(new_s[j] == old_s[oj]);
            } else {
                let oi = if i < k { i } else { i - 1 };
                assert(new_s[i] == old_s[oi]);
            }
        }
    }
    if distinct_subs(old_s) && !has_sub(old_s, l.sub) {
        assert forall|i: int, j: int|
            0 <= i < new_s.len() && 0 <= j < new_s.len() && i != j implies new_s[i].sub
            != new_s[j].sub by {
            if i != k && j != k {
                let oi = if i < k { i } else { i - 1 };
                let oj = if j < k { j } else { j - 1 };
                assert(new_s[i] == old_s[oi]);
                assert(new_s[j] == old_s[oj]);
            } else if i == k {
                let oj = if j < k { j } else { j - 1 };
                assert(new_s[j] == old_s[oj]);
            } else {
                let oi = if i < k { i } else { i - 1 };
                assert(new_s[i] == old_s[oi]);
            }
        }
    }
}

fn has_top_exec(s: &Vec<Label>, t: TopLabel) -> (r: bool)
    ensures
        r == has_top(s@, t),
{
    let mut i: usize = 0;
    while i < s.len()
        invariant
            i <= s@.len(),
            forall|k: int| 0 <= k < i ==> s@[k].top != t,
        decreases s@.len() - i,
    {
        if s[i].top == t {
            return true;
        }
        i = i + 1;
    }
    false
}

fn has_sub_exec(s: &Vec<Label>, t: Option<SubLabel>) -> (r: bool)
    ensures
        r == has_sub(s@, t),
{
    let mut i: usize = 0;
    while i < s.len()
        invariant
            i <= s@.len(),
            forall|k: int| 0 <= k < i ==> s@[k].sub != t,
        decreases s@.len() - i,
    {
        if s[i].sub == t {
            return true;
        }
        i = i + 1;
    }
    false
}

/// Whether record `r` of the snapshot holds `l`.
fn chunk_contains(labels: &LabelVec, r: usize, l: &Label) -> (b: bool)
    requires
        labels.wf(),
        r < labels.records().len(),
    ensures
        b == labels.records()[r as int].contains(*l),
{
    let (s, e) = labels.chunk(r);
    let ghost rec = labels.records()[r as int];
    let mut p: usize = s;
    while p < e
        invariant
            s <= p <= e <= labels.labels@.len(),
            r < labels.records().len(),
            rec == labels.records()[r as int],
            rec == labels.labels@.subrange(s as int, e as int),
            forall|k: int| 0 <= k < p - s ==> rec[k] != *l,
        decreases e - p,
    {
        if labels.labels[p] == *l {
            assert(rec[p - s] == *l);
            return true;
        }
        p = p + 1;
    }
    false
}

/// Whether record `r` passes every filter but the excluded one.
fn record_survives(
    labels: &LabelVec,
    r: usize,
    all_filters: &Vec<SubFilterCore>,
    excluded: Option<usize>,
) -> (b: bool)
    requires
        labels.wf(),
        r < labels.records().len(),
    ensures
        b == survives(labels.records()[r as int], all_filters@, excluded),
{
    let mut j: usize = 0;
    while j < all_filters.len()
        invariant
            labels.wf(),
            r < labels.records().len(),
            j <= all_filters@.len(),
            forall|q: int|
                0 <= q < j && excluded != Some(q as usize) ==> #[trigger] all_filters@[q].passes_spec(
                    labels.records()[r as int],
                ),
        decreases all_filters@.len() - j,
    {
        if excluded != Some(j) {
            let f = &all_filters[j];
            let has = chunk_contains(labels, r, &f.label);
            if has == f.inverted {
                assert(!all_filters@[j as int].passes_spec(labels.records()[r as int]));
                return false;
            }
        }
        j = j + 1;
    }
    true
}

/// The number of surviving records that hold `l`, given which records survive.
fn count_containing(
    labels: &LabelVec,
    surv: &Vec<bool>,
    all_filters: &Vec<SubFilterCore>,
    excluded: Option<usize>,
    l: &Label,
) -> (c: usize)
    requires
        labels.wf(),
        surv@.len() == labels.records().len(),
        forall|k: int|
            0 <= k < surv@.len() ==> surv@[k] == survives(
                labels.records()[k],
                all_filters@,
                excluded,
            ),
    ensures
        c == n_containing(labels.records(), all_filters@, excluded, *l),
{
    let ghost recs = labels.records();
    let mut c: usize = 0;
    let mut r: usize = 0;
    while r < surv.len()
        invariant
            labels.wf(),
            recs == labels.records(),
            surv@.len() == recs.len(),
            forall|k: int|
                0 <= k < surv@.len() ==> surv@[k] == survives(recs[k], all_filters@, excluded),
            r <= recs.len(),
            c <= r,
            c == n_containing(recs.subrange(0, r as int), all_filters@, excluded, *l),
        decreases recs.len() - r,
    {
        proof {
            assert(recs.subrange(0, r + 1).drop_last() =~= recs.subrange(0, r as int));
        }
        if surv[r] && chunk_contains(labels, r, l) {
            c = c + 1;
        }
        r = r + 1;
    }
    proof {
        assert(recs.subrange(0, recs.len() as int) =~= recs);
    }
    c
}

/// Which records survive, and how many.
fn survivors(labels: &LabelVec, all_filters: &Vec<SubFilterCore>, excluded: Option<usize>) -> (r: (
    Vec<bool>,
    usize,
))
    requires
        labels.wf(),
    ensures
        r.0@.len() == labels.records().len(),
        forall|k: int|
            0 <= k < r.0@.len() ==> r.0@[k] == survives(labels.records()[k], all_filters@, excluded),
        r.1 == n_survivors(labels.records(), all_filters@, excluded),
{
    let ghost recs = labels.records();
    let mut surv: Vec<bool> = Vec::new();
    let mut n: usize = 0;
    let mut r: usize = 0;
    while r < labels.len()
        invariant
            labels.wf(),
            recs == labels.records(),
            r <= recs.len(),
            surv@.len() == r,
            forall|k: int| 0 <= k < r ==> surv@[k] == survives(recs[k], all_filters@, excluded),
            n <= r,
            n == n_survivors(recs.subrange(0, r as int), all_filters@, excluded),
        decreases recs.len() - r,
    {
        proof {
            assert(recs.subrange(0, r + 1).drop_last() =~= recs.subrange(0, r as int));
        }
        let b = record_survives(labels, r, all_filters, excluded);
        surv.push(b);
        if b {
            n = n + 1;
        }
        r = r + 1;
    }
    proof {
        assert(recs.subrange(0, recs.len() as int) =~= recs);
    }
    (surv, n)
}

/// `l` already has its place in the options collected so far.
spec fn handled(
    recs: Seq<Seq<Label>>,
    cores: Seq<SubFilterCore>,
    excl: Option<usize>,
    ut: Seq<Label>,
    lt: Seq<Label>,
    us: Seq<Label>,
    ls: Seq<Label>,
    l: Label,
) -> bool {
    if in_sub_bucket(cores, excl, l) {
        if useful(recs, cores, excl, l) {
            has_sub(us, l.sub)
        } else {
            has_sub(ls, l.sub)
        }
    } else if useful(recs, cores, excl, l) {
        has_top(ut, l.top)
    } else {
        has_top(ut, l.top) || has_top(lt, l.top)
    }
}

/// What holds of each option collected so far.
spec fn entries_ok(
    recs: Seq<Seq<Label>>,
    cores: Seq<SubFilterCore>,
    excl: Option<usize>,
    ut: Seq<Label>,
    lt: Seq<Label>,
    us: Seq<Label>,
    ls: Seq<Label>,
) -> bool {
    &&& sorted(ut) && distinct_tops(ut)
    &&& sorted(lt) && distinct_tops(lt)
    &&& sorted(us) && distinct_subs(us)
    &&& sorted(ls) && distinct_subs(ls)
    &&& forall|i: int|
        0 <= i < ut.len() ==> observed(recs, #[trigger] ut[i]) && !in_sub_bucket(cores, excl, ut[i])
            && useful(recs, cores, excl, ut[i])
    &&& forall|i: int|
        0 <= i < lt.len() ==> observed(recs, #[trigger] lt[i]) && !in_sub_bucket(cores, excl, lt[i])
            && !useful(recs, cores, excl, lt[i])
    &&& forall|i: int|
        0 <= i < us.len() ==> observed(recs, #[trigger] us[i]) && in_sub_bucket(cores, excl, us[i])
            && useful(recs, cores, excl, us[i])
    &&& forall|i: int|
        0 <= i < ls.len() ==> observed(recs, #[trigger] ls[i]) && in_sub_bucket(cores, excl, ls[i])
            && !useful(recs, cores, excl, ls[i])
}

/// Classifies every label of the snapshot for one job: the job of filter
/// `excluded`, which leaves that filter out, or with `None` the global job,
/// which applies every filter.
///
/// A label is useful when some but not all surviving records hold it.
/// Labels that share the top-level category of the excluded filter's label
/// are sub-level options, one per sub-level category; all others are
/// top-level options, one per top-level category, and a category with a
/// useful label is never listed as useless. Each list is sorted.
pub fn calculate_filter_options(
    labels: &LabelVec,
    all_filters: &Vec<SubFilterCore>,
    excluded: Option<usize>,
) -> (r: LabelOptions)
    requires
        labels.wf(),
        excluded matches Some(i) ==> i < all_filters@.len(),
    ensures
        r.classifies(labels.records(), all_filters@, excluded),
{
    let ghost recs = labels.records();
    let ghost cores = all_filters@;
    let (surv, n_surv) = survivors(labels, all_filters, excluded);
    let current: Option<Label> = match excluded {
        Some(i) => Some(all_filters[i].label),
        None => None,
    };
    let mut ut: Vec<Label> = Vec::new();
    let mut lt: Vec<Label> = Vec::new();
    let mut us: Vec<Label> = Vec::new();
    let mut ls: Vec<Label> = Vec::new();
    // each distinct label is classified once
    let mut seen: Vec<Label> = Vec::new();
    let mut r: usize = 0;
    while r < labels.len()
        invariant
            labels.wf(),
            recs == labels.records(),
            cores == all_filters@,
            current == current_label(cores, excluded),
            surv@.len() == recs.len(),
            forall|k: int| 0 <= k < surv@.len() ==> surv@[k] == survives(recs[k], cores, excluded),
            n_surv == n_survivors(recs, cores, excluded),
            r <= recs.len(),
            entries_ok(recs, cores, excluded, ut@, lt@, us@, ls@),
            forall|k: int|
                0 <= k < seen@.len() ==> handled(
                    recs,
                    cores,
                    excluded,
                    ut@,
                    lt@,
                    us@,
                    ls@,
                    #[trigger] seen@[k],
                ),
            forall|r2: int, k: int|
                0 <= r2 < r && 0 <= k < recs[r2].len() ==> handled(
                    recs,
                    cores,
                    excluded,
                    ut@,
                    lt@,
                    us@,
                    ls@,
                    #[trigger] recs[r2][k],
                ),
        decreases recs.len() - r,
    {
        let (s, e) = labels.chunk(r);
        let mut p: usize = s;
        while p < e
            invariant
                labels.wf(),
                recs == labels.records(),
                cores == all_filters@,
                current == current_label(cores, excluded),
                surv@.len() == recs.len(),
                forall|k: int|
                    0 <= k < surv@.len() ==> surv@[k] == survives(recs[k], cores, excluded),
                n_surv == n_survivors(recs, cores, excluded),
                r < recs.len(),
                s <= p <= e <= labels.labels@.len(),
                recs[r as int] == labels.labels@.subrange(s as int, e as int),
                entries_ok(recs, cores, excluded, ut@, lt@, us@, ls@),
                forall|k: int|
                    0 <= k < seen@.len() ==> handled(
                        recs,
                        cores,
                        excluded,
                        ut@,
                        lt@,
                        us@,
                        ls@,
                        #[trigger] seen@[k],
                    ),
                forall|r2: int, k: int|
                    0 <= r2 < r && 0 <= k < recs[r2].len() ==> handled(
                        recs,
                        cores,
                        excluded,
                        ut@,
                        lt@,
                        us@,
                        ls@,
                        #[trigger] recs[r2][k],
                    ),
                forall|k: int|
                    0 <= k < p - s ==> handled(
                        recs,
                        cores,
                        excluded,
                        ut@,
                        lt@,
                        us@,
                        ls@,
                        #[trigger] recs[r as int][k],
                    ),
            decreases e - p,
        {
            let l = labels.labels[p];
            proof {
                assert(recs[r as int][p - s] == l);
                assert(observed(recs, l));
            }
            if contains_label(seen.as_slice(), &l) {
                proof {
                    let k = choose|k: int| 0 <= k < seen@.len() && seen@[k] == l;
                }
                p = p + 1;
                continue;
            }
            let c = count_containing(labels, &surv, all_filters, excluded, &l);
            let u = 0 < c && c < n_surv;
            let in_sub = match current {
                Some(cl) => cl.top == l.top,
                None => false,
            };
            let ghost (ut0, lt0, us0, ls0) = (ut@, lt@, us@, ls@);
            if in_sub {
                if u {
                    if !has_sub_exec(&us, l.sub) {
                        let k = insert_sorted(&mut us, l);
                        proof {
                            lemma_insert(
                                us0,
                                us@,
                                k as int,
                                l,
                                |x: Label|
                                    observed(recs, x) && in_sub_bucket(cores, excluded, x) && useful(
                                        recs,
                                        cores,
                                        excluded,
                                        x,
                                    ),
                            );
                        }
                    }
                } else {
                    if !has_sub_exec(&ls, l.sub) {
                        let k = insert_sorted(&mut ls, l);
                        proof {
                            lemma_insert(
                                ls0,
                                ls@,
                                k as int,
                                l,
                                |x: Label|
                                    observed(recs, x) && in_sub_bucket(cores, excluded, x)
                                        && !useful(recs, cores, excluded, x),
                            );
                        }
                    }
                }
            } else {
                let in_useless = has_top_exec(&lt, l.top);
                let in_useful = has_top_exec(&ut, l.top);
                if !u {
                    if !in_useful && !in_useless {
                        let k = insert_sorted(&mut lt, l);
                        proof {
                            lemma_insert(
                                lt0,
                                lt@,
                                k as int,
                                l,
                                |x: Label|
                                    observed(recs, x) && !in_sub_bucket(cores, excluded, x)
                                        && !useful(recs, cores, excluded, x),
                            );
                        }
                    }
                } else if !in_useful {
                    let k = insert_sorted(&mut ut, l);
                    proof {
                        lemma_insert(
                            ut0,
                            ut@,
                            k as int,
                            l,
                            |x: Label|
                                observed(recs, x) && !in_sub_bucket(cores, excluded, x) && useful(
                                    recs,
                                    cores,
                                    excluded,
                                    x,
                                ),
                        );
                    }
                }
            }
            seen.push(l);
            p = p + 1;
        }
        r = r + 1;
    }
    // a useful label wins its top-level category
    let mut lt2: Vec<Label> = Vec::new();
    let mut q: usize = 0;
    while q < lt.len()
        invariant
            q <= lt@.len(),
            sorted(lt@),
            distinct_tops(lt@),
            sorted(lt2@),
            distinct_tops(lt2@),
            forall|i: int|
                0 <= i < lt2@.len() ==> observed(recs, #[trigger] lt2@[i]) && !in_sub_bucket(
                    cores,
                    excluded,
                    lt2@[i],
                ) && !useful(recs, cores, excluded, lt2@[i]) && !has_top(ut@, lt2@[i].top),
            forall|i: int|
                0 <= i < lt@.len() ==> observed(recs, #[trigger] lt@[i]) && !in_sub_bucket(
                    cores,
                    excluded,
                    lt@[i],
                ) && !useful(recs, cores, excluded, lt@[i]),
            forall|i: int, j: int|
                #![trigger lt2@[i], lt@[j]]
                0 <= i < lt2@.len() && q <= j < lt@.len() ==> label_le(lt2@[i], lt@[j])
                    && lt2@[i].top != lt@[j].top,
            forall|j: int|
                0 <= j < q ==> has_top(ut@, (#[trigger] lt@[j]).top) || has_top(lt2@, lt@[j].top),
        decreases lt@.len() - q,
    {
        let x = lt[q];
        if !has_top_exec(&ut, x.top) {
            let ghost o = lt2@;
            assert forall|i: int| 0 <= i < o.len() implies label_le(o[i], x) && o[i].top
                != x.top by {
                assert(label_le(lt2@[i], lt@[q as int]) && lt2@[i].top != lt@[q as int].top);
            }
            assert forall|i: int, j: int|
                #![trigger o[i], lt@[j]]
                0 <= i < o.len() && q <= j < lt@.len() implies label_le(
                o[i],
                lt@[j],
            ) && o[i].top != lt@[j].top by {
                assert(label_le(lt2@[i], lt@[j]) && lt2@[i].top != lt@[j].top);
            }
            lt2.push(x);
            proof {
                assert(lt2@[o.len() as int] == x);
                assert forall|j: int| 0 <= j < q implies has_top(ut@, (#[trigger] lt@[j]).top)
                    || has_top(lt2@, lt@[j].top) by {
                    if !has_top(ut@, lt@[j].top) {
                        let i = choose|i: int| 0 <= i < o.len() && (#[trigger] o[i]).top == lt@[j].top;
                        assert(lt2@[i] == o[i]);
                    }
                }
                assert(has_top(lt2@, lt@[q as int].top));
                assert forall|i: int, j: int|
                    0 <= i < lt2@.len() && 0 <= j < lt2@.len() && i != j implies lt2@[i].top
                    != lt2@[j].top by {
                    if i == o.len() {
                        assert(o[j].top != x.top);
                    } else if j == o.len() {
                        assert(o[i].top != x.top);
                    }
                }
                assert forall|i: int, j: int|
                    0 <= i < lt2@.len() && q + 1 <= j < lt@.len() implies label_le(
                        lt2@[i],
                        lt@[j],
                    ) && lt2@[i].top != lt@[j].top by {
                    if i == o.len() {
                        assert(label_le(lt@[q as int], lt@[j]));
                        assert(lt@[q as int].top != lt@[j].top);
                    } else {
                        assert(lt2@[i] == o[i]);
                        assert(label_le(o[i], lt@[j]) && o[i].top != lt@[j].top);
                    }
                }
            }
        }
        q = q + 1;
    }
    proof {
        let ut_s = ut@;
        let lt_s = lt2@;
        assert forall|l: Label|
            observed(recs, l) implies handled(recs, cores, excluded, ut@, lt@, us@, ls@, l) by {
            let (r2, k) = choose|r2: int, k: int|
                0 <= r2 < recs.len() && 0 <= k < recs[r2].len() && #[trigger] recs[r2][k] == l;
        }
        assert forall|i: int| 0 <= i < lt_s.len() implies !top_has_useful(
            recs,
            cores,
            excluded,
            (#[trigger] lt_s[i]).top,
        ) by {
            if top_has_useful(recs, cores, excluded, lt_s[i].top) {
                let l = choose|l: Label|
                    #[trigger] observed(recs, l) && !in_sub_bucket(cores, excluded, l) && useful(
                        recs,
                        cores,
                        excluded,
                        l,
                    ) && l.top == lt_s[i].top;
                assert(handled(recs, cores, excluded, ut@, lt@, us@, ls@, l));
            }
        }
        assert forall|l: Label|
            observed(recs, l) && !in_sub_bucket(cores, excluded, l) && !top_has_useful(
                recs,
                cores,
                excluded,
                l.top,
            ) implies #[trigger] has_top(lt_s, l.top) by {
            assert(handled(recs, cores, excluded, ut@, lt@, us@, ls@, l));
            if has_top(ut_s, l.top) {
                let i = choose|i: int| 0 <= i < ut_s.len() && (#[trigger] ut_s[i]).top == l.top;
                assert(observed(recs, ut_s[i]));
                assert(top_has_useful(recs, cores, excluded, l.top));
            }
            let j = choose|j: int| 0 <= j < lt@.len() && (#[trigger] lt@[j]).top == l.top;
            assert(has_top(ut@, lt@[j].top) || has_top(lt2@, lt@[j].top));
        }
    }
    LabelOptions {
        usefull_top_level_labels: ut,
        useless_top_level_labels: lt2,
        usefull_sub_level_labels: us,
        useless_sub_level_labels: ls,
    }
}

} // verus!
