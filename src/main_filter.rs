use vstd::prelude::*;

use crate::classify::survives;
use crate::label::Label;
use crate::labeled_data::LabeledData;
use crate::sub_filter::{SubFilter, SubFilterCore};
use crate::thread_communicator::ThreadCommunicator;

verus! {

/// The indices of the records that pass every filter of `cores`.
pub open spec fn matching_indices(recs: Seq<Seq<Label>>, cores: Seq<SubFilterCore>) -> Seq<usize>
    decreases recs.len(),
{
    if recs.len() == 0 {
        Seq::empty()
    } else {
        let rest = matching_indices(recs.drop_last(), cores);
        if survives(recs.last(), cores, None) {
            rest.push((recs.len() - 1) as usize)
        } else {
            rest
        }
    }
}

/// The labels of each record.
pub open spec fn records_of<D: LabeledData>(data: Seq<D>) -> Seq<Seq<Label>> {
    data.map_values(|d: D| d.label_seq())
}

/// The cores of the filters.
pub open spec fn cores_of(filters: Seq<SubFilter>) -> Seq<SubFilterCore> {
    filters.map_values(|f: SubFilter| f.core)
}

/// Some filter has id `id`.
pub open spec fn id_used(filters: Seq<SubFilter>, id: u32) -> bool {
    exists|i: int| 0 <= i < filters.len() && (#[trigger] filters[i]).core.id == id
}

/// The filters a user edits, with the options of the last completed round.
pub struct MainFilter {
    pub filters: Vec<SubFilter>,
    pub top_level_label_options: Vec<Label>,
    pub default_label: Option<Label>,
    pub needs_init: bool,
}

impl MainFilter {
    /// No filters and no options yet.
    pub fn new() -> (r: MainFilter)
        ensures
            r.filters@.len() == 0,
            r.top_level_label_options@.len() == 0,
            r.default_label is None,
            r.needs_init,
    {
        MainFilter {
            filters: Vec::new(),
            top_level_label_options: Vec::new(),
            default_label: None,
            needs_init: true,
        }
    }

    /// The indices of the records that pass every filter, in order.
    pub fn get_filter_map<D: LabeledData>(&self, data: &[D]) -> (r: Vec<usize>)
        ensures
            r@ == matching_indices(records_of(data@), cores_of(self.filters@)),
    {
        let ghost recs = records_of(data@);
        let ghost cores = cores_of(self.filters@);
        let mut out: Vec<usize> = Vec::new();
        let mut i: usize = 0;
        while i < data.len()
            invariant
                i <= data@.len(),
                recs == records_of(data@),
                cores == cores_of(self.filters@),
                out@ == matching_indices(recs.subrange(0, i as int), cores),
            decreases data@.len() - i,
        {
            let mut passes = true;
            let mut j: usize = 0;
            while j < self.filters.len()
                invariant
                    j <= self.filters@.len(),
                    i < data@.len(),
                    recs == records_of(data@),
                    cores == cores_of(self.filters@),
                    passes == forall|q: int| 0 <= q < j ==> #[trigger] cores[q].passes_spec(recs[i as int]),
                decreases self.filters@.len() - j,
            {
                let ok = self.filters[j].filter(&data[i]);
                proof {
                    assert(cores[j as int] == self.filters@[j as int].core);
                    assert(recs[i as int] == data@[i as int].label_seq());
                }
                if !ok {
                    passes = false;
                }
                j = j + 1;
            }
            proof {
                let pre = recs.subrange(0, i + 1);
                assert(pre.drop_last() =~= recs.subrange(0, i as int));
                assert(pre.last() == recs[i as int]);
                assert(passes == survives(recs[i as int], cores, None));
            }
            if passes {
                out.push(i);
            }
            i = i + 1;
        }
        proof {
            assert(recs.subrange(0, data@.len() as int) =~= recs);
        }
        out
    }

    /// Begins a round on `data` and the current filters.
    pub fn update_all_filter<D: LabeledData>(&self, data: &[D], communicator: &mut ThreadCommunicator)
        requires
            self.filters@.len() < usize::MAX,
        ensures
            final(communicator).wf(),
            final(communicator).is_working(),
            (*final(communicator).round().all_filters)@ == cores_of(self.filters@),
            final(communicator).round().labels.records() == records_of(data@),
    {
        communicator.start(data, self.filters.as_slice());
        proof {
            assert(final(communicator).round().labels.records() =~= records_of(data@));
        }
    }

    /// Takes the result of a completed round: the filters with their
    /// options, and the global options; the first global option becomes
    /// the default label for new filters if there is none yet.
    pub fn apply_finished(&mut self, filters: Vec<SubFilter>, top_level_label_options: Vec<Label>)
        ensures
            final(self).filters@ == filters@,
            final(self).top_level_label_options@ == top_level_label_options@,
            final(self).default_label == if old(self).default_label is None
                && top_level_label_options@.len() > 0 {
                Some(top_level_label_options@[0])
            } else {
                old(self).default_label
            },
            final(self).needs_init == old(self).needs_init,
    {
        self.filters = filters;
        if self.default_label.is_none() && top_level_label_options.len() > 0 {
            self.default_label = Some(top_level_label_options[0]);
        }
        self.top_level_label_options = top_level_label_options;
    }

    /// The smallest id that no filter has, if there is one.
    pub fn next_free_id(&self) -> (r: Option<u32>)
        ensures
            r matches Some(id) ==> !id_used(self.filters@, id) && forall|k: u32|
                k < id ==> id_used(self.filters@, k),
            r is None ==> forall|k: u32| id_used(self.filters@, k),
    {
        let mut id: u32 = 0;
        loop
            invariant
                forall|k: u32| k < id ==> id_used(self.filters@, k),
            decreases u32::MAX - id,
        {
            let mut used = false;
            let mut j: usize = 0;
            while j < self.filters.len()
                invariant
                    j <= self.filters@.len(),
                    used == exists|q: int| 0 <= q < j && (#[trigger] self.filters@[q]).core.id == id,
                decreases self.filters@.len() - j,
            {
                if self.filters[j].id() == id {
                    used = true;
                }
                j = j + 1;
            }
            if !used {
                return Some(id);
            }
            if id == u32::MAX {
                assert forall|k: u32| id_used(self.filters@, k) by {
                    if k == id {
                    }
                }
                return None;
            }
            id = id + 1;
        }
    }

    /// Adds a filter with the smallest free id: on the last global option,
    /// which it takes from the list, or else on the default label. Returns
    /// whether a filter was added.
    pub fn add_filter(&mut self) -> (r: bool)
        ensures
            ({
                let options = old(self).top_level_label_options@;
                let label = if options.len() > 0 {
                    Some(options.last())
                } else {
                    old(self).default_label
                };
                &&& r ==> label is Some && final(self).filters@.len() == old(self).filters@.len() + 1
                    && final(self).filters@.drop_last() == old(self).filters@ && final(self).filters@.last().core.label == label->0 && !final(self).filters@.last().core.inverted && !id_used(
                    old(self).filters@,
                    final(self).filters@.last().core.id,
                ) && forall|k: u32|
                    k < final(self).filters@.last().core.id ==> id_used(old(self).filters@, k)
                &&& r ==> final(self).top_level_label_options@ == if options.len() > 0 {
                    options.drop_last()
                } else {
                    options
                }
                &&& !r ==> *final(self) == *old(self)
                &&& !r ==> label is None || forall|k: u32| id_used(old(self).filters@, k)
            }),
    {
        let id = match self.next_free_id() {
            Some(id) => id,
            None => return false,
        };
        let label = if self.top_level_label_options.len() > 0 {
            let l = self.top_level_label_options.pop();
            l
        } else {
            self.default_label
        };
        match label {
            Some(l) => {
                self.filters.push(SubFilter::new(l, id));
                proof {
                    assert(self.filters@.drop_last() =~= old(self).filters@);
                }
                true
            },
            None => false,
        }
    }

    /// Removes filter `i`.
    pub fn remove_filter(&mut self, i: usize)
        requires
            i < old(self).filters@.len(),
        ensures
            final(self).filters@ == old(self).filters@.remove(i as int),
            final(self).top_level_label_options@ == old(self).top_level_label_options@,
            final(self).default_label == old(self).default_label,
    {
        self.filters.remove(i);
    }
}

impl Default for MainFilter {
    fn default() -> (r: MainFilter)
        ensures
            r.filters@.len() == 0,
            r.top_level_label_options@.len() == 0,
            r.default_label is None,
            r.needs_init,
    {
        MainFilter::new()
    }
}

} // verus!
