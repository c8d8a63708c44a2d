//! Record counting: the streaming scan and how a count is written.

use vstd::prelude::*;

verus! {

/// The size of one record: the bytes of its fields, and how many fields it has.
#[derive(Clone, Copy, Debug, PartialEq, Eq, Structural)]
pub struct RecordShape {
    pub bytes: usize,
    pub fields: usize,
}

/// A record count, with the estimated width of the longest record where it was asked for.
#[derive(Clone, Copy, Debug, PartialEq, Eq, Structural)]
pub struct CountResult {
    pub count: u64,
    pub width: Option<usize>,
}

/// The delimiters of a record: one between each two neighbouring fields.
pub open spec fn delimiters_of(shape: RecordShape) -> nat {
    if shape.fields > 0 {
        (shape.fields - 1) as nat
    } else {
        0
    }
}

/// The largest byte length among the records; zero where there are none.
pub open spec fn max_bytes(records: Seq<RecordShape>) -> nat
    decreases records.len(),
{
    if records.len() == 0 {
        0
    } else {
        let earlier = max_bytes(records.drop_last());
        if records.last().bytes > earlier {
            records.last().bytes as nat
        } else {
            earlier
        }
    }
}

/// The delimiter count of the file: that of its first record.
pub open spec fn file_delimiters(records: Seq<RecordShape>) -> nat {
    if records.len() == 0 {
        0
    } else {
        delimiters_of(records[0])
    }
}

/// The estimated width of the longest record: the largest byte length
/// plus the delimiter count of the file.
pub open spec fn scan_width(records: Seq<RecordShape>) -> nat {
    (max_bytes(records) + file_delimiters(records)) as nat
}

/// The width of one record: its bytes plus its own delimiters.
pub open spec fn row_width(shape: RecordShape) -> nat {
    (shape.bytes + delimiters_of(shape)) as nat
}

/// The largest record width; zero where there are no records.
pub open spec fn max_row_width(records: Seq<RecordShape>) -> nat
    decreases records.len(),
{
    if records.len() == 0 {
        0
    } else {
        let earlier = max_row_width(records.drop_last());
        if row_width(records.last()) > earlier {
            row_width(records.last())
        } else {
            earlier
        }
    }
}

/// Where every record has as many fields as the first, the estimated
/// width is the largest record width.
pub proof fn lemma_width_of_uniform_records(records: Seq<RecordShape>)
    requires
        forall|i: int| 0 <= i < records.len() ==> (#[trigger] records[i]).fields == records[0].fields,
    ensures
        scan_width(records) == max_row_width(records),
    decreases records.len(),
{
    if records.len() > 1 {
        let earlier = records.drop_last();
        assert(earlier[0] == records[0]);
        assert forall|i: int| 0 <= i < earlier.len() implies (#[trigger] earlier[i]).fields == earlier[0].fields by {
            assert(earlier[i] == records[i]);
        }
        lemma_width_of_uniform_records(earlier);
        assert(records.last().fields == records[0].fields);
        assert(delimiters_of(records.last()) == delimiters_of(records[0]));
        assert(file_delimiters(earlier) == file_delimiters(records));
        assert(max_row_width(earlier) == max_bytes(earlier) + file_delimiters(records));
    } else if records.len() == 1 {
        assert(records.drop_last().len() == 0);
        assert(max_bytes(records.drop_last()) == 0);
        assert(max_row_width(records.drop_last()) == 0);
        assert(records.last() == records[0]);
    }
}

/// The progress of a streaming scan.
#[derive(Clone, Copy, Debug, PartialEq, Eq, Structural)]
pub struct ScanState {
    /// The records seen so far.
    pub count: u64,
    /// The largest byte length seen so far.
    pub max_width: usize,
    /// The delimiter count of the first record.
    pub delimiters: usize,
}

impl ScanState {
    /// Whether the state is that of a scan which has seen exactly these records.
    pub open spec fn tracks(&self, records: Seq<RecordShape>) -> bool {
        &&& self.count == records.len()
        &&& self.max_width == max_bytes(records)
        &&& self.delimiters == file_delimiters(records)
    }

    /// The state before any record.
    pub fn new() -> (r: ScanState)
        ensures
            r.tracks(Seq::<RecordShape>::empty()),
    {
        ScanState { count: 0, max_width: 0, delimiters: 0 }
    }

    /// The state after one more record.
    pub open spec fn after(self, shape: RecordShape) -> ScanState {
        ScanState {
            count: (self.count + 1) as u64,
            max_width: if shape.bytes > self.max_width { shape.bytes } else { self.max_width },
            delimiters: if self.count == 0 { delimiters_of(shape) as usize } else { self.delimiters },
        }
    }

    /// Takes in the next record.
    pub fn observe(&mut self, shape: RecordShape)
        requires
            old(self).count < u64::MAX,
        ensures
            *final(self) == old(self).after(shape),
    {
        if self.count == 0 {
            self.delimiters = if shape.fields > 0 { shape.fields - 1 } else { 0 };
        }
        if shape.bytes > self.max_width {
            self.max_width = shape.bytes;
        }
        self.count = self.count + 1;
    }

    /// Whether the width of the scan fits the machine word.
    pub open spec fn width_fits(&self) -> bool {
        self.max_width + self.delimiters <= usize::MAX
    }

    /// The result of the scan: the count, and the width where it was asked for.
    pub fn finish(&self, compute_width: bool) -> (r: CountResult)
        requires
            compute_width ==> self.width_fits(),
        ensures
            r.count == self.count,
            r.width == (if compute_width { Some((self.max_width + self.delimiters) as usize) } else { None }),
    {
        CountResult {
            count: self.count,
            width: if compute_width { Some(self.max_width + self.delimiters) } else { None },
        }
    }

    /// The result of the scan, or `None` where the width was asked for and
    /// does not fit the machine word.
    pub fn try_finish(&self, compute_width: bool) -> (r: Option<CountResult>)
        ensures
            r is Some <==> (compute_width ==> self.width_fits()),
            r matches Some(result) ==> result.count == self.count && result.width == (if compute_width {
                Some((self.max_width + self.delimiters) as usize)
            } else {
                None
            }),
    {
        if !compute_width || self.max_width <= usize::MAX - self.delimiters {
            Some(self.finish(compute_width))
        } else {
            None
        }
    }
}

/// A state that tracks the records seen so far tracks them with the next one too.
pub proof fn lemma_observe_tracks(state: ScanState, seen: Seq<RecordShape>, shape: RecordShape)
    requires
        state.tracks(seen),
        state.count < u64::MAX,
    ensures
        state.after(shape).tracks(seen.push(shape)),
{
    assert(seen.push(shape).drop_last() =~= seen);
    if seen.len() > 0 {
        assert(seen.push(shape)[0] == seen[0]);
    }
}

/// Counts the records of a file, given the shape of each, and estimates the
/// width of the longest where that is asked for.
pub fn count_input(records: &Vec<RecordShape>, compute_width: bool) -> (r: CountResult)
    requires
        compute_width ==> scan_width(records@) <= usize::MAX,
    ensures
        r.count == records@.len(),
        r.width == (if compute_width { Some(scan_width(records@) as usize) } else { None }),
{
    let mut state = ScanState::new();
    let mut i: usize = 0;
    while i < records.len()
        invariant
            i <= records.len(),
            state.tracks(records@.take(i as int)),
        decreases records.len() - i,
    {
        proof {
            lemma_observe_tracks(state, records@.take(i as int), records@[i as int]);
            assert(records@.take(i as int).push(records@[i as int]) =~= records@.take(i + 1));
        }
        state.observe(records[i]);
        i += 1;
    }
    assert(records@.take(records@.len() as int) =~= records@);
    state.finish(compute_width)
}

} // verus!
