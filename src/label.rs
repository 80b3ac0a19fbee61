use vstd::prelude::*;

verus! {

/// The top-level category of a label.
pub type TopLabel = u32;

/// The optional sub-level category of a label.
pub type SubLabel = u32;

/// A label: a top-level category with an optional sub-level category.
///
/// Labels are ordered by top-level category first, then by sub-level
/// category, with a missing sub-level category before any present one.
#[derive(Clone, Copy, Debug, PartialEq, Eq, Structural, Hash, PartialOrd, Ord)]
pub struct Label {
    pub top: TopLabel,
    pub sub: Option<SubLabel>,
}

/// `a <= b` on optional sub-level categories (`None` first).
pub open spec fn sub_le(a: Option<SubLabel>, b: Option<SubLabel>) -> bool {
    match (a, b) {
        (None, _) => true,
        (Some(_), None) => false,
        (Some(x), Some(y)) => x <= y,
    }
}

/// The total order on labels.
pub open spec fn label_le(a: Label, b: Label) -> bool {
    a.top < b.top || (a.top == b.top && sub_le(a.sub, b.sub))
}

/// The strict form of `label_le`.
pub open spec fn label_lt(a: Label, b: Label) -> bool {
    label_le(a, b) && a != b
}

/// A sequence of labels in non-decreasing order.
pub open spec fn sorted(s: Seq<Label>) -> bool {
    forall|i: int, j: int| 0 <= i < j < s.len() ==> label_le(s[i], s[j])
}

impl Label {
    pub fn new(top: TopLabel, sub: Option<SubLabel>) -> (r: Label)
        ensures
            r.top == top,
            r.sub == sub,
    {
        Label { top, sub }
    }

    pub fn get_top_level_label(&self) -> (r: TopLabel)
        ensures
            r == self.top,
    {
        self.top
    }

    pub fn get_sub_level_label(&self) -> (r: Option<SubLabel>)
        ensures
            r == self.sub,
    {
        self.sub
    }

    /// Compares two labels in their total order.
    pub fn less_than(&self, other: &Label) -> (r: bool)
        ensures
            r == label_lt(*self, *other),
    {
        if self.top != other.top {
            self.top < other.top
        } else {
            match (self.sub, other.sub) {
                (None, None) => false,
                (None, Some(_)) => true,
                (Some(_), None) => false,
                (Some(x), Some(y)) => x < y,
            }
        }
    }
}

} // verus!
