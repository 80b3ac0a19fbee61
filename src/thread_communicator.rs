use std::sync::Arc;

use vstd::prelude::*;

use crate::classify::{calculate_filter_options, LabelOptions};
use crate::label::Label;
use crate::label_vec::LabelVec;
use crate::labeled_data::LabeledData;
use crate::sub_filter::{SubFilter, SubFilterCore};

verus! {

/// The number of workers that run jobs.
pub const NUMBER_OF_THREADS: u8 = 7;

/// What a worker is doing in the current round.
#[derive(Clone, Copy, Debug, PartialEq, Eq, Structural)]
pub enum ThreadState {
    /// It took the empty-queue sentinel.
    Finished,
    /// It runs a job of this round.
    Working,
    /// It has not taken a job since the round began.
    Outdated,
}

/// A job handed to a worker.
#[derive(Clone, Copy, Debug)]
pub enum Work {
    /// The queue is empty.
    NothingToDo,
    /// Classify the labels for filter `index`, leaving that filter out.
    FilterLabel { index: usize, filter: SubFilterCore },
    /// Classify the labels with every filter applied.
    MainFilterOptions,
}

/// A round in progress.
pub struct Round {
    pub thread_state: Vec<ThreadState>,
    pub all_filters_len: usize,
    pub unfinished_work: Vec<Work>,
    /// The result of each filter's job, by filter position.
    pub finished_filters: Vec<Option<SubFilter>>,
    pub finished_main_filter_label: Vec<Label>,
    pub labels: Arc<LabelVec>,
    pub all_filters: Arc<Vec<SubFilterCore>>,
}

/// The state of the rounds: idle, a round in progress, or a completed
/// round whose result nobody has taken yet.
pub enum WorkState {
    NothingToDo,
    Working(Round),
    Finished { filter: Vec<SubFilter>, main_filter_label_options: Vec<Label> },
}

/// The number of workers in `s` that are working.
pub open spec fn count_working(s: Seq<ThreadState>) -> nat
    decreases s.len(),
{
    if s.len() == 0 {
        0
    } else {
        count_working(s.drop_last()) + if s.last() == ThreadState::Working {
            1nat
        } else {
            0nat
        }
    }
}

pub open spec fn all_finished(s: Seq<ThreadState>) -> bool {
    forall|i: int| 0 <= i < s.len() ==> s[i] == ThreadState::Finished
}

/// The filters of the filled result slots, in slot order.
pub open spec fn flatten_slots(s: Seq<Option<SubFilter>>) -> Seq<SubFilter>
    decreases s.len(),
{
    if s.len() == 0 {
        Seq::empty()
    } else {
        let rest = flatten_slots(s.subrange(1, s.len() as int));
        match s[0] {
            Some(f) => seq![f] + rest,
            None => rest,
        }
    }
}

/// The jobs of a round on `k` filters: one per filter, and the global job,
/// which is taken first.
pub open spec fn round_jobs(cores: Seq<SubFilterCore>) -> Seq<Work> {
    Seq::new(cores.len(), |i: int| Work::FilterLabel { index: i as usize, filter: cores[i] }).push(
        Work::MainFilterOptions,
    )
}

proof fn lemma_count_update(s: Seq<ThreadState>, i: int, v: ThreadState)
    requires
        0 <= i < s.len(),
    ensures
        count_working(s.update(i, v)) + (if s[i] == ThreadState::Working {
            1int
        } else {
            0int
        }) == count_working(s) + (if v == ThreadState::Working {
            1int
        } else {
            0int
        }),
    decreases s.len(),
{
    if i == s.len() - 1 {
        assert(s.update(i, v).drop_last() =~= s.drop_last());
    } else {
        lemma_count_update(s.drop_last(), i, v);
        assert(s.update(i, v).drop_last() =~= s.drop_last().update(i, v));
    }
}

pub proof fn lemma_count_pos(s: Seq<ThreadState>, i: int)
    requires
        0 <= i < s.len(),
        s[i] == ThreadState::Working,
    ensures
        count_working(s) > 0,
    decreases s.len(),
{
    if i < s.len() - 1 {
        lemma_count_pos(s.drop_last(), i);
    }
}

proof fn lemma_flatten_len(s: Seq<Option<SubFilter>>)
    ensures
        flatten_slots(s).len() <= s.len(),
    decreases s.len(),
{
    if s.len() > 0 {
        lemma_flatten_len(s.subrange(1, s.len() as int));
    }
}

impl Round {
    pub open spec fn wf(&self) -> bool {
        &&& self.thread_state@.len() == NUMBER_OF_THREADS
        &&& !all_finished(self.thread_state@)
        &&& self.all_filters_len < usize::MAX
        &&& self.all_filters_len == (*self.all_filters)@.len()
        &&& self.finished_filters@.len() == self.all_filters_len
        &&& self.unfinished_work@.len() + count_working(self.thread_state@) <= self.all_filters_len
            + 1
        &&& self.labels.wf()
        &&& forall|j: int|
            0 <= j < self.unfinished_work@.len() ==> match #[trigger] self.unfinished_work@[j] {
                Work::FilterLabel { index, filter } => index < self.all_filters_len && filter
                    == (*self.all_filters)@[index as int],
                Work::MainFilterOptions => true,
                Work::NothingToDo => false,
            }
    }

    /// Jobs done so far.
    pub open spec fn done(&self) -> int {
        self.all_filters_len + 1 - (self.unfinished_work@.len() + count_working(
            self.thread_state@,
        ))
    }
}

/// The coordinator of rounds: it hands jobs out to workers, takes their
/// results, and assembles a completed round.
pub struct ThreadCommunicator {
    pub work_state: WorkState,
}

impl ThreadCommunicator {
    pub open spec fn wf(&self) -> bool {
        match self.work_state {
            WorkState::NothingToDo => true,
            WorkState::Working(round) => round.wf(),
            WorkState::Finished { filter, .. } => filter@.len() < usize::MAX,
        }
    }

    pub open spec fn is_working(&self) -> bool {
        self.work_state is Working
    }

    pub open spec fn is_finished(&self) -> bool {
        self.work_state is Finished
    }

    /// The round in progress.
    pub open spec fn round(&self) -> Round
        recommends
            self.is_working(),
    {
        self.work_state->Working_0
    }

    /// A report of worker `id` is taken: the round is in progress and the
    /// worker runs a job of it.
    pub open spec fn accepts_report(&self, id: u8) -> bool {
        self.is_working() && id < NUMBER_OF_THREADS && self.round().thread_state@[id as int]
            == ThreadState::Working
    }

    /// `(done, total)` as `get_progress` returns it.
    pub open spec fn progress(&self) -> (int, int) {
        match self.work_state {
            WorkState::NothingToDo => (1, 1),
            WorkState::Working(round) => (round.done(), round.all_filters_len + 1int),
            WorkState::Finished { filter, .. } => (filter@.len() + 1int, filter@.len() + 1int),
        }
    }

    /// The result of a completed round: the filters and the global options.
    pub open spec fn completed(&self) -> (Seq<SubFilter>, Seq<Label>)
        recommends
            self.is_finished(),
    {
        match self.work_state {
            WorkState::Finished { filter, main_filter_label_options } => (
                filter@,
                main_filter_label_options@,
            ),
            _ => (Seq::empty(), Seq::empty()),
        }
    }

    /// `a` and `b` are the same round, results aside.
    pub open spec fn same_round(a: Round, b: Round) -> bool {
        &&& a.thread_state@ == b.thread_state@
        &&& a.all_filters_len == b.all_filters_len
        &&& a.unfinished_work@ == b.unfinished_work@
        &&& a.labels == b.labels
        &&& a.all_filters == b.all_filters
    }

    /// An idle coordinator.
    pub fn new() -> (r: ThreadCommunicator)
        ensures
            r.wf(),
            r.work_state is NothingToDo,
    {
        ThreadCommunicator { work_state: WorkState::NothingToDo }
    }

    /// Whether a round is in progress.
    pub fn working(&self) -> (r: bool)
        ensures
            r == self.is_working(),
    {
        match &self.work_state {
            WorkState::Working(_) => true,
            _ => false,
        }
    }

    /// Begins a new round on `data` and `filter`, whatever the state was:
    /// one job per filter and the global job, every worker outdated, no
    /// results yet.
    pub fn start<D: LabeledData>(&mut self, data: &[D], filter: &[SubFilter])
        requires
            filter@.len() < usize::MAX,
        ensures
            final(self).wf(),
            final(self).is_working(),
            final(self).round().labels.records().len() == data@.len(),
            forall|i: int|
                0 <= i < data@.len() ==> final(self).round().labels.records()[i]
                    == data@[i].label_seq(),
            (*final(self).round().all_filters)@ == filter@.map_values(|f: SubFilter| f.core),
            final(self).round().unfinished_work@ == round_jobs(
                (*final(self).round().all_filters)@,
            ),
            forall|i: int|
                0 <= i < NUMBER_OF_THREADS ==> final(self).round().thread_state@[i]
                    == ThreadState::Outdated,
            forall|i: int|
                0 <= i < filter@.len() ==> final(self).round().finished_filters@[i] is None,
            final(self).round().finished_main_filter_label@.len() == 0,
    {
        let labels = LabelVec::from(data);
        let mut cores: Vec<SubFilterCore> = Vec::new();
        let mut i: usize = 0;
        while i < filter.len()
            invariant
                i <= filter@.len(),
                cores@ == filter@.subrange(0, i as int).map_values(|f: SubFilter| f.core),
            decreases filter@.len() - i,
        {
            cores.push(filter[i].clone_core());
            proof {
                assert(cores@ =~= filter@.subrange(0, i + 1).map_values(|f: SubFilter| f.core));
            }
            i = i + 1;
        }
        proof {
            assert(filter@.subrange(0, filter@.len() as int) =~= filter@);
        }
        let mut jobs: Vec<Work> = Vec::new();
        let mut slots: Vec<Option<SubFilter>> = Vec::new();
        let mut j: usize = 0;
        while j < cores.len()
            invariant
                j <= cores@.len(),
                cores@.len() == filter@.len(),
                jobs@ == Seq::new(
                    j as nat,
                    |k: int| Work::FilterLabel { index: k as usize, filter: cores@[k] },
                ),
                slots@.len() == j,
                forall|k: int| 0 <= k < j ==> slots@[k] is None,
            decreases cores@.len() - j,
        {
            jobs.push(Work::FilterLabel { index: j, filter: cores[j] });
            slots.push(None);
            proof {
                assert(jobs@ =~= Seq::new(
                    (j + 1) as nat,
                    |k: int| Work::FilterLabel { index: k as usize, filter: cores@[k] },
                ));
            }
            j = j + 1;
        }
        jobs.push(Work::MainFilterOptions);
        let mut thread_state: Vec<ThreadState> = Vec::new();
        let mut t: u8 = 0;
        while t < NUMBER_OF_THREADS
            invariant
                t <= NUMBER_OF_THREADS,
                thread_state@.len() == t,
                count_working(thread_state@) == 0,
                forall|k: int| 0 <= k < t ==> thread_state@[k] == ThreadState::Outdated,
            decreases NUMBER_OF_THREADS - t,
        {
            let ghost before = thread_state@;
            thread_state.push(ThreadState::Outdated);
            proof {
                assert(thread_state@.drop_last() =~= before);
            }
            t = t + 1;
        }
        let all_filters_len = cores.len();
        let round = Round {
            thread_state,
            all_filters_len,
            unfinished_work: jobs,
            finished_filters: slots,
            finished_main_filter_label: Vec::new(),
            labels: Arc::new(labels),
            all_filters: Arc::new(cores),
        };
        proof {
            assert(round.unfinished_work@ =~= round_jobs((*round.all_filters)@));
            assert(round.thread_state@[0] == ThreadState::Outdated);
        }
        self.work_state = WorkState::Working(round);
    }

    /// Hands worker `id` the next job, or the sentinel when the queue is
    /// empty, and records what the worker now does. When every worker has
    /// taken the sentinel the round is completed: the filters' results in
    /// filter order, and the global options.
    pub fn get_work(&mut self, id: u8) -> (w: Work)
        requires
            old(self).wf(),
            old(self).is_working(),
            id < NUMBER_OF_THREADS,
        ensures
            final(self).wf(),
            ({
                let r0 = old(self).round();
                let ts = r0.thread_state@.update(
                    id as int,
                    if w is NothingToDo {
                        ThreadState::Finished
                    } else {
                        ThreadState::Working
                    },
                );
                &&& w == if r0.unfinished_work@.len() == 0 {
                    Work::NothingToDo
                } else {
                    r0.unfinished_work@.last()
                }
                &&& all_finished(ts) ==> final(self).is_finished() && final(self).completed() == (
                    flatten_slots(r0.finished_filters@),
                    r0.finished_main_filter_label@,
                )
                &&& !all_finished(ts) ==> {
                    let r1 = final(self).round();
                    &&& final(self).is_working()
                    &&& r1.thread_state@ == ts
                    &&& r1.unfinished_work@ == if r0.unfinished_work@.len() == 0 {
                        r0.unfinished_work@
                    } else {
                        r0.unfinished_work@.drop_last()
                    }
                    &&& r1.all_filters_len == r0.all_filters_len
                    &&& r1.finished_filters@ == r0.finished_filters@
                    &&& r1.finished_main_filter_label@ == r0.finished_main_filter_label@
                    &&& r1.labels == r0.labels
                    &&& r1.all_filters == r0.all_filters
                }
            }),
    {
        let mut st = WorkState::NothingToDo;
        std::mem::swap(&mut st, &mut self.work_state);
        match st {
            WorkState::Working(mut round) => {
                let ghost r0 = round;
                let w = match round.unfinished_work.pop() {
                    Some(w) => w,
                    None => Work::NothingToDo,
                };
                let new_state = match w {
                    Work::NothingToDo => ThreadState::Finished,
                    _ => ThreadState::Working,
                };
                proof {
                    if r0.unfinished_work@.len() > 0 {
                        let last = r0.unfinished_work@.len() - 1;
                        assert(r0.unfinished_work@[last] == r0.unfinished_work@.last());
                    }
                    lemma_count_update(r0.thread_state@, id as int, new_state);
                }
                round.thread_state.set(id as usize, new_state);
                if all_finished_exec(&round.thread_state) {
                    let filter = collect_slots(round.finished_filters);
                    proof {
                        lemma_flatten_len(r0.finished_filters@);
                    }
                    self.work_state = WorkState::Finished {
                        filter,
                        main_filter_label_options: round.finished_main_filter_label,
                    };
                } else {
                    proof {
                        assert forall|j: int| 0 <= j < round.unfinished_work@.len() implies match #[trigger] round.unfinished_work@[j] {
                            Work::FilterLabel { index, filter } => index < round.all_filters_len
                                && filter == (*round.all_filters)@[index as int],
                            Work::MainFilterOptions => true,
                            Work::NothingToDo => false,
                        } by {
                            assert(round.unfinished_work@[j] == r0.unfinished_work@[j]);
                        }
                    }
                    self.work_state = WorkState::Working(round);
                }
                w
            },
            other => {
                self.work_state = other;
                Work::NothingToDo
            },
        }
    }

    /// Takes the result of filter `index`'s job from worker `id`. Reports
    /// come only while a round is in progress; one from a worker that is not
    /// working on a job of this round is stale and changes nothing.
    pub fn push_finished_filter(&mut self, index: usize, filter: SubFilter, id: u8)
        requires
            old(self).wf(),
            old(self).is_working(),
        ensures
            final(self).wf(),
            old(self).accepts_report(id) && index < old(self).round().all_filters_len ==> {
                &&& final(self).is_working()
                &&& Self::same_round(final(self).round(), old(self).round())
                &&& final(self).round().finished_filters@ == old(self).round().finished_filters@.update(index as int, Some(filter))
                &&& final(self).round().finished_main_filter_label@ == old(self).round().finished_main_filter_label@
            },
            !(old(self).accepts_report(id) && index < old(self).round().all_filters_len) ==> *final(self) == *old(self),
    {
        let mut st = WorkState::NothingToDo;
        std::mem::swap(&mut st, &mut self.work_state);
        match st {
            WorkState::Working(mut round) => {
                if id < NUMBER_OF_THREADS && round.thread_state[id as usize]
                    == ThreadState::Working && index < round.all_filters_len {
                    round.finished_filters.set(index, Some(filter));
                }
                self.work_state = WorkState::Working(round);
            },
            other => {
                self.work_state = other;
            },
        }
    }

    /// Takes the global options from worker `id`. Reports come only while a
    /// round is in progress; one from a worker that is not working on a job
    /// of this round is stale and changes nothing.
    pub fn push_main_filter_label_options(&mut self, main_filter_label_options: Vec<Label>, id: u8)
        requires
            old(self).wf(),
            old(self).is_working(),
        ensures
            final(self).wf(),
            old(self).accepts_report(id) ==> {
                &&& final(self).is_working()
                &&& Self::same_round(final(self).round(), old(self).round())
                &&& final(self).round().finished_filters@ == old(self).round().finished_filters@
                &&& final(self).round().finished_main_filter_label@ == main_filter_label_options@
            },
            !old(self).accepts_report(id) ==> *final(self) == *old(self),
    {
        let mut st = WorkState::NothingToDo;
        std::mem::swap(&mut st, &mut self.work_state);
        match st {
            WorkState::Working(mut round) => {
                if id < NUMBER_OF_THREADS && round.thread_state[id as usize]
                    == ThreadState::Working {
                    round.finished_main_filter_label = main_filter_label_options;
                }
                self.work_state = WorkState::Working(round);
            },
            other => {
                self.work_state = other;
            },
        }
    }

    /// Takes a completed round's result, leaving the coordinator idle.
    pub fn try_get_finished(&mut self) -> (r: Option<(Vec<SubFilter>, Vec<Label>)>)
        requires
            old(self).wf(),
        ensures
            final(self).wf(),
            old(self).is_finished() ==> (r matches Some(p) && p.0@ == old(self).completed().0 && p.1@
                == old(self).completed().1) && final(self).work_state is NothingToDo,
            !old(self).is_finished() ==> r is None && *final(self) == *old(self),
    {
        let mut st = WorkState::NothingToDo;
        std::mem::swap(&mut st, &mut self.work_state);
        match st {
            WorkState::Finished { filter, main_filter_label_options } => {
                Some((filter, main_filter_label_options))
            },
            other => {
                self.work_state = other;
                None
            },
        }
    }

    /// Returns `(done, total)`: jobs done and jobs of the round.
    pub fn get_progress(&self) -> (r: (usize, usize))
        requires
            self.wf(),
        ensures
            r.0 == self.progress().0,
            r.1 == self.progress().1,
            r.0 <= r.1,
    {
        match &self.work_state {
            WorkState::Working(round) => {
                let total = round.all_filters_len + 1;
                let working = count_working_exec(&round.thread_state);
                (total - (round.unfinished_work.len() + working), total)
            },
            WorkState::Finished { filter, .. } => {
                let a = filter.len() + 1;
                (a, a)
            },
            WorkState::NothingToDo => (1, 1),
        }
    }
}

impl ThreadCommunicator {
    /// The snapshot and the filters of the round in progress.
    pub fn round_data(&self) -> (r: Option<(&Arc<LabelVec>, &Arc<Vec<SubFilterCore>>)>)
        ensures
            self.is_working() == r is Some,
            r matches Some(p) ==> *p.0 == self.round().labels && *p.1 == self.round().all_filters,
    {
        match &self.work_state {
            WorkState::Working(round) => Some((&round.labels, &round.all_filters)),
            _ => None,
        }
    }

    /// Hands in the options that a worker computed for `work`, while a round
    /// is in progress; a stale report changes nothing.
    pub fn push_result(&mut self, work: &Work, options: LabelOptions, id: u8)
        requires
            old(self).wf(),
            old(self).is_working(),
        ensures
            final(self).wf(),
            !old(self).accepts_report(id) ==> *final(self) == *old(self),
            work is NothingToDo ==> *final(self) == *old(self),
            old(self).accepts_report(id) ==> match *work {
                Work::FilterLabel { index, filter } => index < old(self).round().all_filters_len
                    ==> final(self).is_working() && final(self).round().finished_filters@ == old(self).round().finished_filters@.update(
                    index as int,
                    Some(
                        SubFilter {
                            core: filter,
                            usefull_top_level_labels: options.usefull_top_level_labels,
                            useless_top_level_labels: options.useless_top_level_labels,
                            usefull_sub_level_labels: options.usefull_sub_level_labels,
                            useless_sub_level_labels: options.useless_sub_level_labels,
                        },
                    ),
                ),
                Work::MainFilterOptions => final(self).is_working()
                    && final(self).round().finished_main_filter_label@
                    == options.usefull_top_level_labels@,
                Work::NothingToDo => true,
            },
    {
        match work {
            Work::FilterLabel { index, filter } => {
                let f = SubFilter {
                    core: *filter,
                    usefull_top_level_labels: options.usefull_top_level_labels,
                    useless_top_level_labels: options.useless_top_level_labels,
                    usefull_sub_level_labels: options.usefull_sub_level_labels,
                    useless_sub_level_labels: options.useless_sub_level_labels,
                };
                self.push_finished_filter(*index, f, id);
            },
            Work::MainFilterOptions => {
                self.push_main_filter_label_options(options.usefull_top_level_labels, id);
            },
            Work::NothingToDo => {},
        }
    }
}

/// Runs a job on the round's snapshot and filters: the job of a filter
/// leaves that filter out, the global job applies them all.
pub fn run_work(work: &Work, labels: &LabelVec, all_filters: &Vec<SubFilterCore>) -> (r: Option<
    LabelOptions,
>)
    requires
        labels.wf(),
        work matches Work::FilterLabel { index, .. } ==> index < all_filters@.len(),
    ensures
        work is NothingToDo <==> r is None,
        work matches Work::FilterLabel { index, .. } ==> r->0.classifies(
            labels.records(),
            all_filters@,
            Some(*index),
        ),
        work is MainFilterOptions ==> r->0.classifies(labels.records(), all_filters@, None),
{
    match work {
        Work::FilterLabel { index, .. } => Some(
            calculate_filter_options(labels, all_filters, Some(*index)),
        ),
        Work::MainFilterOptions => Some(calculate_filter_options(labels, all_filters, None)),
        Work::NothingToDo => None,
    }
}

/// Whether every worker has taken the sentinel.
fn all_finished_exec(s: &Vec<ThreadState>) -> (r: bool)
    ensures
        r == all_finished(s@),
{
    let mut i: usize = 0;
    while i < s.len()
        invariant
            i <= s@.len(),
            forall|k: int| 0 <= k < i ==> s@[k] == ThreadState::Finished,
        decreases s@.len() - i,
    {
        if s[i] != ThreadState::Finished {
            return false;
        }
        i = i + 1;
    }
    true
}

/// The number of workers that are working.
fn count_working_exec(s: &Vec<ThreadState>) -> (r: usize)
    ensures
        r == count_working(s@),
{
    let mut c: usize = 0;
    let mut i: usize = 0;
    while i < s.len()
        invariant
            i <= s@.len(),
            c <= i,
            c == count_working(s@.subrange(0, i as int)),
        decreases s@.len() - i,
    {
        proof {
            assert(s@.subrange(0, i + 1).drop_last() =~= s@.subrange(0, i as int));
        }
        if s[i] == ThreadState::Working {
            c = c + 1;
        }
        i = i + 1;
    }
    proof {
        assert(s@.subrange(0, s@.len() as int) =~= s@);
    }
    c
}

/// The filters of the filled result slots, in slot order.
fn collect_slots(slots: Vec<Option<SubFilter>>) -> (r: Vec<SubFilter>)
    ensures
        r@ == flatten_slots(slots@),
{
    let ghost all = slots@;
    let mut rest = slots;
    let mut out: Vec<SubFilter> = Vec::new();
    while rest.len() > 0
        invariant
            out@ + flatten_slots(rest@) == flatten_slots(all),
        decreases rest@.len(),
    {
        let ghost before = rest@;
        let x = rest.remove(0);
        proof {
            assert(rest@ =~= before.subrange(1, before.len() as int));
        }
        match x {
            Some(f) => {
                let ghost o = out@;
                out.push(f);
                proof {
                    assert(o + (seq![f] + flatten_slots(rest@)) =~= out@ + flatten_slots(rest@));
                }
            },
            None => {},
        }
    }
    proof {
        assert(out@ + flatten_slots(rest@) =~= out@);
    }
    out
}


} // verus!
