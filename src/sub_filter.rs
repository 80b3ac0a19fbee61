use vstd::prelude::*;

use crate::label::Label;
use crate::labeled_data::LabeledData;

verus! {

/// Whether a record with labels `rec` passes a filter on `label`.
pub open spec fn passes(label: Label, inverted: bool, rec: Seq<Label>) -> bool {
    rec.contains(label) != inverted
}

/// The predicate of a filter: a stable id, a chosen label and an invert flag.
#[derive(Clone, Copy, Debug)]
pub struct SubFilterCore {
    pub id: u32,
    pub label: Label,
    pub inverted: bool,
}

impl SubFilterCore {
    pub open spec fn passes_spec(&self, rec: Seq<Label>) -> bool {
        passes(self.label, self.inverted, rec)
    }

    pub fn new(id: u32, label: Label, inverted: bool) -> (r: SubFilterCore)
        ensures
            r.id == id,
            r.label == label,
            r.inverted == inverted,
    {
        SubFilterCore { id, label, inverted }
    }

    /// Whether the record passes this filter.
    pub fn filter<D: LabeledData>(&self, data: &D) -> (r: bool)
        ensures
            r == self.passes_spec(data.label_seq()),
    {
        let labels = data.get_labels();
        contains_label(labels, &self.label) != self.inverted
    }

    pub fn label(&self) -> (r: &Label)
        ensures
            *r == self.label,
    {
        &self.label
    }

    pub fn id(&self) -> (r: u32)
        ensures
            r == self.id,
    {
        self.id
    }

    /// Filter cores are equal when their ids are; two cores that share an id
    /// must agree on label and inversion.
    pub fn eq(&self, other: &SubFilterCore) -> (r: bool)
        requires
            self.id == other.id ==> (self.label == other.label && self.inverted
                == other.inverted),
        ensures
            r == (self.id == other.id),
    {
        self.id == other.id
    }
}

/// Whether `labels` holds `label`.
pub fn contains_label(labels: &[Label], label: &Label) -> (r: bool)
    ensures
        r == labels@.contains(*label),
{
    let mut i: usize = 0;
    while i < labels.len()
        invariant
            i <= labels@.len(),
            forall|k: int| 0 <= k < i ==> labels@[k] != *label,
        decreases labels@.len() - i,
    {
        if labels[i] == *label {
            return true;
        }
        i = i + 1;
    }
    false
}

/// A filter together with the label options computed for it in the last
/// round: useful and useless top-level options, useful and useless
/// sub-level options.
#[derive(Clone, Debug)]
pub struct SubFilter {
    pub core: SubFilterCore,
    pub usefull_top_level_labels: Vec<Label>,
    pub useless_top_level_labels: Vec<Label>,
    pub usefull_sub_level_labels: Vec<Label>,
    pub useless_sub_level_labels: Vec<Label>,
}

impl SubFilter {
    /// A new, not inverted filter with no options computed yet.
    pub fn new(label: Label, id: u32) -> (r: SubFilter)
        ensures
            r.core.id == id,
            r.core.label == label,
            !r.core.inverted,
            r.usefull_top_level_labels@.len() == 0,
            r.useless_top_level_labels@.len() == 0,
            r.usefull_sub_level_labels@.len() == 0,
            r.useless_sub_level_labels@.len() == 0,
    {
        SubFilter::from(SubFilterCore::new(id, label, false))
    }

    pub fn from(core: SubFilterCore) -> (r: SubFilter)
        ensures
            r.core == core,
            r.usefull_top_level_labels@.len() == 0,
            r.useless_top_level_labels@.len() == 0,
            r.usefull_sub_level_labels@.len() == 0,
            r.useless_sub_level_labels@.len() == 0,
    {
        SubFilter {
            core,
            usefull_top_level_labels: Vec::new(),
            useless_top_level_labels: Vec::new(),
            usefull_sub_level_labels: Vec::new(),
            useless_sub_level_labels: Vec::new(),
        }
    }

    pub fn from_core_with_label_options(
        core: SubFilterCore,
        usefull_top_level_labels: Vec<Label>,
        useless_top_level_labels: Vec<Label>,
        usefull_sub_level_labels: Vec<Label>,
        useless_sub_level_labels: Vec<Label>,
    ) -> (r: SubFilter)
        ensures
            r.core == core,
            r.usefull_top_level_labels@ == usefull_top_level_labels@,
            r.useless_top_level_labels@ == useless_top_level_labels@,
            r.usefull_sub_level_labels@ == usefull_sub_level_labels@,
            r.useless_sub_level_labels@ == useless_sub_level_labels@,
    {
        SubFilter {
            core,
            usefull_top_level_labels,
            useless_top_level_labels,
            usefull_sub_level_labels,
            useless_sub_level_labels,
        }
    }

    pub fn clone_core(&self) -> (r: SubFilterCore)
        ensures
            r == self.core,
    {
        self.core
    }

    pub fn id(&self) -> (r: u32)
        ensures
            r == self.core.id,
    {
        self.core.id
    }

    pub fn filter<D: LabeledData>(&self, data: &D) -> (r: bool)
        ensures
            r == self.core.passes_spec(data.label_seq()),
    {
        self.core.filter(data)
    }
}

} // verus!
