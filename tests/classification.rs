use label_filter::classify::{calculate_filter_options, LabelOptions};
use label_filter::label_vec::LabelVec;
use label_filter::sub_filter::SubFilterCore;
use label_filter::Label;

const A: u32 = 1;
const B: u32 = 2;
const C: u32 = 3;

fn l(top: u32, sub: Option<u32>) -> Label {
    Label::new(top, sub)
}

fn example_records() -> Vec<Vec<Label>> {
    vec![
        vec![l(A, Some(1)), l(A, Some(2))],
        vec![l(A, Some(1))],
        vec![l(B, None)],
    ]
}

fn run(records: &[Vec<Label>], cores: &Vec<SubFilterCore>, excluded: Option<usize>) -> LabelOptions {
    let lv = LabelVec::from(records);
    calculate_filter_options(&lv, cores, excluded)
}

#[test]
fn leave_one_out_example() {
    let cores = vec![SubFilterCore::new(0, l(A, Some(1)), false)];
    let r = run(&example_records(), &cores, Some(0));
    assert_eq!(r.usefull_sub_level_labels, vec![l(A, Some(1)), l(A, Some(2))]);
    assert!(r.useless_sub_level_labels.is_empty());
    assert_eq!(r.usefull_top_level_labels, vec![l(B, None)]);
    assert!(r.useless_top_level_labels.is_empty());
}

#[test]
fn global_job_example() {
    let r = run(&example_records(), &Vec::new(), None);
    assert_eq!(r.usefull_top_level_labels, vec![l(A, Some(1)), l(B, None)]);
    assert!(r.useless_top_level_labels.is_empty());
    assert!(r.usefull_sub_level_labels.is_empty());
    assert!(r.useless_sub_level_labels.is_empty());
}

#[test]
fn own_filter_is_left_out() {
    let plain = vec![SubFilterCore::new(0, l(A, Some(1)), false)];
    let inverted = vec![SubFilterCore::new(0, l(A, Some(1)), true)];
    let a = run(&example_records(), &plain, Some(0));
    let b = run(&example_records(), &inverted, Some(0));
    assert_eq!(a.usefull_top_level_labels, b.usefull_top_level_labels);
    assert_eq!(a.useless_top_level_labels, b.useless_top_level_labels);
    assert_eq!(a.usefull_sub_level_labels, b.usefull_sub_level_labels);
    assert_eq!(a.useless_sub_level_labels, b.useless_sub_level_labels);
    // applied in the global job, the inverted filter keeps only the record of B
    let g = run(&example_records(), &inverted, None);
    assert!(g.usefull_top_level_labels.is_empty());
    assert_eq!(g.useless_top_level_labels, vec![l(A, Some(1)), l(B, None)]);
}

#[test]
fn useful_wins_its_category() {
    // A/1 is on every record, A/2 on one of two: A is useful, never useless
    let records = vec![vec![l(A, Some(1))], vec![l(A, Some(1)), l(A, Some(2))]];
    let r = run(&records, &Vec::new(), None);
    assert_eq!(r.usefull_top_level_labels, vec![l(A, Some(2))]);
    assert!(r.useless_top_level_labels.is_empty());
}

#[test]
fn every_label_in_exactly_one_list() {
    let records = vec![
        vec![l(A, Some(1)), l(C, None)],
        vec![l(A, Some(2)), l(C, None)],
        vec![l(B, None), l(C, None)],
    ];
    let cores = vec![SubFilterCore::new(0, l(A, Some(1)), false)];
    let r = run(&records, &cores, Some(0));
    // sub bucket: A/1 and A/2 each on one of three survivors
    assert_eq!(r.usefull_sub_level_labels, vec![l(A, Some(1)), l(A, Some(2))]);
    assert!(r.useless_sub_level_labels.is_empty());
    // top bucket: B on one of three, C on all
    assert_eq!(r.usefull_top_level_labels, vec![l(B, None)]);
    assert_eq!(r.useless_top_level_labels, vec![l(C, None)]);
}

#[test]
fn no_records_no_options() {
    let records: Vec<Vec<Label>> = Vec::new();
    let cores = vec![SubFilterCore::new(0, l(A, None), false)];
    let r = run(&records, &cores, Some(0));
    assert!(r.usefull_top_level_labels.is_empty());
    assert!(r.useless_top_level_labels.is_empty());
    assert!(r.usefull_sub_level_labels.is_empty());
    assert!(r.useless_sub_level_labels.is_empty());
}

#[test]
fn no_survivors_makes_all_useless() {
    // a filter on a label that no record holds keeps nothing
    let cores = vec![SubFilterCore::new(0, l(C, None), false)];
    let r = run(&example_records(), &cores, None);
    assert!(r.usefull_top_level_labels.is_empty());
    assert_eq!(r.useless_top_level_labels, vec![l(A, Some(1)), l(B, None)]);
}

#[test]
fn other_filters_still_apply() {
    // filter 1 keeps the records with A/1; the job of filter 0 applies it
    let cores = vec![
        SubFilterCore::new(0, l(B, None), true),
        SubFilterCore::new(1, l(A, Some(1)), false),
    ];
    let r = run(&example_records(), &cores, Some(0));
    // survivors: the two records with A/1; A/2 is on one of them, so A is
    // useful; B, on none of them, is a useless sub-level option
    assert_eq!(r.usefull_top_level_labels, vec![l(A, Some(2))]);
    assert!(r.useless_top_level_labels.is_empty());
    assert!(r.usefull_sub_level_labels.is_empty());
    assert_eq!(r.useless_sub_level_labels, vec![l(B, None)]);
}

#[test]
fn options_are_sorted() {
    let records = vec![
        vec![l(C, Some(9)), l(B, Some(4))],
        vec![l(A, None)],
        vec![l(B, Some(1))],
    ];
    let r = run(&records, &Vec::new(), None);
    assert_eq!(r.usefull_top_level_labels, vec![l(A, None), l(B, Some(4)), l(C, Some(9))]);
}

#[test]
fn snapshot_keeps_records() {
    let lv = LabelVec::from(example_records().as_slice());
    assert_eq!(lv.len(), 3);
    assert_eq!(lv.iter(), example_records());
    assert!(lv.is_wf());
    assert_eq!(lv.chunk(1), (2, 3));
    assert_eq!(lv.labels, vec![l(A, Some(1)), l(A, Some(2)), l(A, Some(1)), l(B, None)]);
    assert_eq!(lv.chunk_borders, vec![2, 3, 4]);
}

#[test]
fn label_order() {
    assert!(l(A, None).less_than(&l(A, Some(0))));
    assert!(l(A, Some(5)).less_than(&l(B, None)));
    assert!(!l(A, Some(5)).less_than(&l(A, Some(5))));
    assert!(!l(B, None).less_than(&l(A, Some(1))));
    assert_eq!(l(A, Some(2)).get_top_level_label(), A);
    assert_eq!(l(A, Some(2)).get_sub_level_label(), Some(2));
}

#[test]
fn filter_core_predicate() {
    let record = vec![l(A, Some(1))];
    let f = SubFilterCore::new(3, l(A, Some(1)), false);
    let g = SubFilterCore::new(3, l(A, Some(1)), true);
    assert!(f.filter(&record));
    assert!(!g.filter(&record));
    assert_eq!(f.id(), 3);
    assert_eq!(*f.label(), l(A, Some(1)));
    assert!(f.eq(&SubFilterCore::new(3, l(A, Some(1)), false)));
    assert!(!f.eq(&SubFilterCore::new(4, l(B, None), true)));
}

#[test]
fn left_out_filter_counts_as_removed() {
    // filter 0 on C would keep nothing; its own job leaves it out, so the
    // records count as in the global job without any filter
    let cores = vec![SubFilterCore::new(0, l(C, None), false)];
    let own = run(&example_records(), &cores, Some(0));
    let global = run(&example_records(), &Vec::new(), None);
    assert_eq!(own.usefull_top_level_labels, global.usefull_top_level_labels);
    assert_eq!(own.usefull_top_level_labels, vec![l(A, Some(1)), l(B, None)]);
    assert!(own.useless_top_level_labels.is_empty());
}

#[test]
fn repeated_labels_classified_once() {
    let records = vec![
        vec![l(A, Some(1)), l(A, Some(1))],
        vec![l(A, Some(1)), l(B, None)],
        vec![l(B, None)],
    ];
    let r = run(&records, &Vec::new(), None);
    assert_eq!(r.usefull_top_level_labels, vec![l(A, Some(1)), l(B, None)]);
    assert!(r.useless_top_level_labels.is_empty());
}
