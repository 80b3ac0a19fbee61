use label_filter::label_vec::LabelVec;
use label_filter::sub_filter::{SubFilter, SubFilterCore};
use label_filter::thread_communicator::{
    run_work, ThreadCommunicator, ThreadState, Work, WorkState, NUMBER_OF_THREADS,
};
use label_filter::Label;

fn l(top: u32, sub: Option<u32>) -> Label {
    Label::new(top, sub)
}

fn records() -> Vec<Vec<Label>> {
    vec![
        vec![l(1, Some(1)), l(1, Some(2))],
        vec![l(1, Some(1))],
        vec![l(2, None)],
    ]
}

fn snapshot(tc: &ThreadCommunicator) -> (LabelVec, Vec<SubFilterCore>) {
    let (labels, cores) = tc.round_data().unwrap();
    (
        LabelVec {
            labels: labels.labels.clone(),
            chunk_borders: labels.chunk_borders.clone(),
        },
        cores.as_ref().clone(),
    )
}

/// Worker `id` takes one job and, if it got one, runs it and reports.
fn step(tc: &mut ThreadCommunicator, id: u8) -> bool {
    let (labels, cores) = snapshot(tc);
    let work = tc.get_work(id);
    match run_work(&work, &labels, &cores) {
        Some(options) => {
            tc.push_result(&work, options, id);
            true
        }
        None => false,
    }
}

/// Runs the workers one after another until the round is completed.
fn run_round(tc: &mut ThreadCommunicator) {
    while tc.working() {
        for id in 0..NUMBER_OF_THREADS {
            if tc.working() {
                step(tc, id);
            }
        }
    }
}

#[test]
fn idle_progress_and_nothing_finished() {
    let mut tc = ThreadCommunicator::new();
    assert_eq!(tc.get_progress(), (1, 1));
    assert!(tc.try_get_finished().is_none());
    assert!(!tc.working());
}

#[test]
fn round_completes_with_filters_in_order() {
    let mut tc = ThreadCommunicator::new();
    let filters = vec![
        SubFilter::new(l(1, Some(1)), 0),
        SubFilter::new(l(2, None), 1),
    ];
    tc.start(records().as_slice(), filters.as_slice());
    assert_eq!(tc.get_progress(), (0, 3));
    run_round(&mut tc);
    assert_eq!(tc.get_progress(), (3, 3));
    let (done, options) = tc.try_get_finished().unwrap();
    assert_eq!(done.len(), 2);
    assert_eq!(done[0].core.id, 0);
    assert_eq!(done[1].core.id, 1);
    // filter 1 still applies in filter 0's job: only the record of 2 survives
    assert!(done[0].usefull_top_level_labels.is_empty());
    assert_eq!(done[0].useless_top_level_labels, vec![l(2, None)]);
    assert!(done[0].usefull_sub_level_labels.is_empty());
    assert_eq!(done[0].useless_sub_level_labels, vec![l(1, Some(1)), l(1, Some(2))]);
    // with both filters applied no record survives, so no option is useful
    assert!(options.is_empty());
    assert_eq!(tc.get_progress(), (1, 1));
    assert!(tc.try_get_finished().is_none());
}

#[test]
fn global_options_of_a_round() {
    let mut tc = ThreadCommunicator::new();
    let filters: Vec<SubFilter> = Vec::new();
    tc.start(records().as_slice(), filters.as_slice());
    run_round(&mut tc);
    let (done, options) = tc.try_get_finished().unwrap();
    assert!(done.is_empty());
    assert_eq!(options, vec![l(1, Some(1)), l(2, None)]);
}

#[test]
fn jobs_come_global_first() {
    let mut tc = ThreadCommunicator::new();
    let filters = vec![SubFilter::new(l(1, Some(1)), 0)];
    tc.start(records().as_slice(), filters.as_slice());
    assert!(matches!(tc.get_work(0), Work::MainFilterOptions));
    assert!(matches!(tc.get_work(1), Work::FilterLabel { index: 0, .. }));
    assert!(matches!(tc.get_work(2), Work::NothingToDo));
    // nothing queued, two workers still working: no job counts as done
    assert_eq!(tc.get_progress(), (0, 2));
}

#[test]
fn stale_report_is_dropped() {
    let mut tc = ThreadCommunicator::new();
    let first = vec![SubFilter::new(l(1, Some(1)), 0)];
    tc.start(records().as_slice(), first.as_slice());
    let (labels, cores) = snapshot(&tc);
    let stale_work = tc.get_work(0);
    let stale = run_work(&stale_work, &labels, &cores).unwrap();

    // a new round begins while worker 0 still computes
    let second: Vec<SubFilter> = Vec::new();
    tc.start(records().as_slice(), second.as_slice());
    let before = match &tc.work_state {
        WorkState::Working(round) => round.finished_main_filter_label.clone(),
        _ => panic!("round not in progress"),
    };
    tc.push_result(&stale_work, stale, 0);
    match &tc.work_state {
        WorkState::Working(round) => {
            assert_eq!(round.finished_main_filter_label, before);
            assert!(round.thread_state.iter().all(|s| *s == ThreadState::Outdated));
        }
        _ => panic!("round not in progress"),
    }
    run_round(&mut tc);
    let (done, options) = tc.try_get_finished().unwrap();
    assert!(done.is_empty());
    assert_eq!(options, vec![l(1, Some(1)), l(2, None)]);
}

#[test]
fn completion_only_when_finished() {
    let mut tc = ThreadCommunicator::new();
    let filters = vec![SubFilter::new(l(2, None), 0)];
    tc.start(records().as_slice(), filters.as_slice());
    // every worker takes a job or the sentinel once
    for id in 0..NUMBER_OF_THREADS {
        step(&mut tc, id);
    }
    // the two workers that ran jobs still count as working
    let (done, total) = tc.get_progress();
    assert!(done < total);
    assert!(tc.try_get_finished().is_none());
    run_round(&mut tc);
    assert_eq!(tc.get_progress(), (2, 2));
    assert!(tc.try_get_finished().is_some());
}

#[test]
fn report_from_unknown_worker_is_dropped() {
    let mut tc = ThreadCommunicator::new();
    let filters: Vec<SubFilter> = Vec::new();
    tc.start(records().as_slice(), filters.as_slice());
    tc.push_main_filter_label_options(vec![l(9, None)], NUMBER_OF_THREADS);
    tc.push_finished_filter(0, SubFilter::new(l(9, None), 0), 0);
    match &tc.work_state {
        WorkState::Working(round) => assert!(round.finished_main_filter_label.is_empty()),
        _ => panic!("round not in progress"),
    }
}
