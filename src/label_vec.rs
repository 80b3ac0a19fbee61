use vstd::prelude::*;

use crate::label::Label;
use crate::labeled_data::LabeledData;

verus! {

/// An immutable copy of the labels of every record: all labels one after
/// the other, and for each record the end of its chunk.
pub struct LabelVec {
    pub labels: Vec<Label>,
    pub chunk_borders: Vec<usize>,
}

impl LabelVec {
    /// Where the chunk of record `i` starts.
    pub open spec fn start(&self, i: int) -> int {
        if i == 0 {
            0
        } else {
            self.chunk_borders@[i - 1] as int
        }
    }

    pub open spec fn wf(&self) -> bool {
        forall|i: int|
            0 <= i < self.chunk_borders@.len() ==> 0 <= #[trigger] self.start(i)
                <= self.chunk_borders@[i] <= self.labels@.len()
    }

    /// The labels of each record.
    pub open spec fn records(&self) -> Seq<Seq<Label>> {
        Seq::new(
            self.chunk_borders@.len(),
            |i: int| self.labels@.subrange(self.start(i), self.chunk_borders@[i] as int),
        )
    }

    /// Copies the labels of every record.
    pub fn from<D: LabeledData>(data: &[D]) -> (r: LabelVec)
        ensures
            r.wf(),
            r.records().len() == data@.len(),
            forall|i: int| 0 <= i < data@.len() ==> r.records()[i] == data@[i].label_seq(),
            r.labels@.len() == if data@.len() == 0 {
                0
            } else {
                r.chunk_borders@.last() as int
            },
    {
        let mut labels: Vec<Label> = Vec::new();
        let mut chunk_borders: Vec<usize> = Vec::new();
        let mut i: usize = 0;
        while i < data.len()
            invariant
                i <= data@.len(),
                chunk_borders@.len() == i,
                (LabelVec { labels, chunk_borders }).wf(),
                i > 0 ==> chunk_borders@[i - 1] == labels@.len(),
                i == 0 ==> labels@.len() == 0,
                forall|j: int|
                    0 <= j < i ==> (LabelVec { labels, chunk_borders }).records()[j]
                        == data@[j].label_seq(),
            decreases data@.len() - i,
        {
            let ghost old_labels = labels@;
            let ghost old_lv = LabelVec { labels, chunk_borders };
            let record = data[i].get_labels();
            let mut k: usize = 0;
            while k < record.len()
                invariant
                    k <= record@.len(),
                    labels@.len() == old_labels.len() + k,
                    labels@.subrange(0, old_labels.len() as int) == old_labels,
                    labels@.subrange(old_labels.len() as int, labels@.len() as int)
                        == record@.subrange(0, k as int),
                decreases record@.len() - k,
            {
                labels.push(record[k]);
                proof {
                    assert(labels@.subrange(0, old_labels.len() as int) =~= old_labels);
                    assert(labels@.subrange(old_labels.len() as int, labels@.len() as int)
                        =~= record@.subrange(0, k + 1));
                }
                k = k + 1;
            }
            chunk_borders.push(labels.len());
            proof {
                let lv = LabelVec { labels, chunk_borders };
                assert(record@.subrange(0, record@.len() as int) =~= record@);
                assert(lv.start(i as int) == old_labels.len());
                assert forall|j: int| 0 <= j <= i implies #[trigger] lv.records()[j]
                    == data@[j].label_seq() by {
                    if j < i {
                        assert(lv.start(j) == old_lv.start(j));
                        assert(old_lv.records()[j] == data@[j].label_seq());
                        assert(labels@.subrange(lv.start(j), lv.chunk_borders@[j] as int)
                            =~= old_labels.subrange(lv.start(j), lv.chunk_borders@[j] as int));
                    }
                }
                assert forall|j: int| 0 <= j < lv.chunk_borders@.len() implies 0
                    <= #[trigger] lv.start(j) <= lv.chunk_borders@[j] <= lv.labels@.len() by {
                    if j < i {
                        assert(old_lv.start(j) <= old_lv.chunk_borders@[j]);
                    }
                }
            }
            i = i + 1;
        }
        LabelVec { labels, chunk_borders }
    }

    /// Whether the chunk borders are in order and within the labels.
    pub fn is_wf(&self) -> (r: bool)
        ensures
            r == self.wf(),
    {
        let mut last: usize = 0;
        let mut i: usize = 0;
        while i < self.chunk_borders.len()
            invariant
                i <= self.chunk_borders@.len(),
                last == if i == 0 { 0 } else { self.chunk_borders@[i - 1] as int },
                forall|k: int|
                    0 <= k < i ==> 0 <= #[trigger] self.start(k) <= self.chunk_borders@[k]
                        <= self.labels@.len(),
            decreases self.chunk_borders@.len() - i,
        {
            let b = self.chunk_borders[i];
            if b < last || b > self.labels.len() {
                assert(!(self.start(i as int) <= self.chunk_borders@[i as int] <= self.labels@.len()));
                return false;
            }
            last = b;
            i = i + 1;
        }
        true
    }

    /// The number of records.
    pub fn len(&self) -> (r: usize)
        ensures
            r == self.records().len(),
    {
        self.chunk_borders.len()
    }

    /// Where the chunk of record `i` starts and ends in `labels`.
    pub fn chunk(&self, i: usize) -> (r: (usize, usize))
        requires
            self.wf(),
            i < self.records().len(),
        ensures
            r.0 == self.start(i as int),
            r.1 == self.chunk_borders@[i as int],
            r.0 <= r.1 <= self.labels@.len(),
    {
        let s = if i == 0 { 0 } else { self.chunk_borders[i - 1] };
        assert(0 <= self.start(i as int) <= self.chunk_borders@[i as int]);
        (s, self.chunk_borders[i])
    }

    /// The labels of each record, copied out.
    pub fn iter(&self) -> (r: Vec<Vec<Label>>)
        requires
            self.wf(),
        ensures
            r@.len() == self.records().len(),
            forall|i: int| 0 <= i < r@.len() ==> (#[trigger] r@[i])@ == self.records()[i],
    {
        let mut out: Vec<Vec<Label>> = Vec::new();
        let mut i: usize = 0;
        while i < self.len()
            invariant
                self.wf(),
                i <= self.records().len(),
                out@.len() == i,
                forall|j: int| 0 <= j < i ==> (#[trigger] out@[j])@ == self.records()[j],
            decreases self.records().len() - i,
        {
            let (s, e) = self.chunk(i);
            let mut rec: Vec<Label> = Vec::new();
            let mut p: usize = s;
            while p < e
                invariant
                    s <= p <= e <= self.labels@.len(),
                    rec@ == self.labels@.subrange(s as int, p as int),
                decreases e - p,
            {
                rec.push(self.labels[p]);
                proof {
                    assert(rec@ =~= self.labels@.subrange(s as int, p + 1));
                }
                p = p + 1;
            }
            out.push(rec);
            i = i + 1;
        }
        out
    }
}

} // verus!
