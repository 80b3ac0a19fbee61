use vstd::prelude::*;

use crate::label::Label;

verus! {

/// A read-only view of a record: its ordered list of labels.
pub trait LabeledData {
    /// The labels of the record.
    spec fn label_seq(&self) -> Seq<Label>;

    fn get_labels(&self) -> (r: &[Label])
        ensures
            r@ == self.label_seq(),
    ;
}

impl LabeledData for Vec<Label> {
    open spec fn label_seq(&self) -> Seq<Label> {
        self@
    }

    fn get_labels(&self) -> (r: &[Label]) {
        self.as_slice()
    }
}

} // verus!
