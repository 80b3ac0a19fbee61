use label_filter::sub_filter::SubFilter;
use label_filter::thread_communicator::ThreadCommunicator;
use label_filter::{Label, MainFilter};

fn l(top: u32, sub: Option<u32>) -> Label {
    Label::new(top, sub)
}

fn records() -> Vec<Vec<Label>> {
    vec![
        vec![l(1, Some(1)), l(1, Some(2))],
        vec![l(1, Some(1))],
        vec![l(2, None)],
    ]
}

#[test]
fn new_main_filter_is_empty() {
    let m = MainFilter::new();
    assert!(m.filters.is_empty());
    assert!(m.default_label.is_none());
    assert!(m.needs_init);
    assert_eq!(m.get_filter_map(records().as_slice()), vec![0, 1, 2]);
}

#[test]
fn filter_map_applies_every_filter() {
    let mut m = MainFilter::new();
    m.filters.push(SubFilter::new(l(1, Some(1)), 0));
    assert_eq!(m.get_filter_map(records().as_slice()), vec![0, 1]);
    let mut inverted = SubFilter::new(l(1, Some(2)), 1);
    inverted.core.inverted = true;
    m.filters.push(inverted);
    assert_eq!(m.get_filter_map(records().as_slice()), vec![1]);
}

#[test]
fn add_filter_takes_smallest_free_id() {
    let mut m = MainFilter::new();
    assert!(!m.add_filter());
    m.apply_finished(Vec::new(), vec![l(1, Some(1)), l(2, None)]);
    assert_eq!(m.default_label, Some(l(1, Some(1))));
    assert!(m.add_filter());
    assert_eq!(m.filters[0].core.id, 0);
    assert_eq!(m.filters[0].core.label, l(2, None));
    assert!(m.add_filter());
    assert!(m.add_filter());
    assert_eq!(m.filters[2].core.label, l(1, Some(1)));
    m.remove_filter(0);
    assert_eq!(m.next_free_id(), Some(0));
    assert!(m.add_filter());
    assert_eq!(m.filters[2].core.id, 0);
    assert_eq!(m.next_free_id(), Some(3));
}

#[test]
fn round_from_main_filter() {
    let mut m = MainFilter::new();
    m.apply_finished(Vec::new(), vec![l(2, None)]);
    assert!(m.add_filter());
    let mut tc = ThreadCommunicator::new();
    m.update_all_filter(records().as_slice(), &mut tc);
    assert!(tc.working());
    assert_eq!(tc.get_progress(), (0, 2));
}

#[test]
fn default_main_filter_is_new() {
    let m = MainFilter::default();
    assert!(m.filters.is_empty());
    assert!(m.top_level_label_options.is_empty());
    assert!(m.default_label.is_none());
    assert!(m.needs_init);
}
