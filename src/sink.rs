use vstd::prelude::*;

use crate::record::{
    header_line, header_row, pad, record_row, record_to_string, separator, table_row, bool_text,
    record_is_local, ResolvedRecord, FIELD_WIDTH, NAME_WIDTH,
};

verus! {

/// The rows of a sequence of records, in order.
pub open spec fn rows_of(records: Seq<ResolvedRecord>) -> Seq<Seq<char>> {
    records.map_values(|rec: ResolvedRecord| record_row(rec))
}

/// What a result sink has decided to show: the lines written so far, in
/// order, and a progress count against the number of candidates.
///
/// The lines themselves are handed back to the caller, which writes them to
/// the destination; this type keeps the rules of what is written and when.
pub struct Report {
    headers: bool,
    total: usize,
    progress: usize,
    any_written: bool,
    lines: Ghost<Seq<Seq<char>>>,
}

impl Report {
    /// Whether the header line was asked for.
    pub closed spec fn headers(&self) -> bool {
        self.headers
    }

    /// The number of candidates that progress is reported against.
    pub closed spec fn total(&self) -> nat {
        self.total as nat
    }

    /// The number of progress reports so far.
    pub closed spec fn progress(&self) -> nat {
        self.progress as nat
    }

    /// Every line handed out so far, in order, without line ends.
    pub closed spec fn lines(&self) -> Seq<Seq<char>> {
        self.lines@
    }

    pub closed spec fn wf(&self) -> bool {
        &&& self.any_written == (self.lines@.len() > 0)
        &&& self.headers && self.lines@.len() > 0 ==> self.lines@[0] == header_row()
        &&& forall|i: int|
            0 < i < self.lines@.len() ==> #[trigger] self.lines@[i] != header_row()
        &&& !self.headers ==> forall|i: int|
            0 <= i < self.lines@.len() ==> #[trigger] self.lines@[i] != header_row()
    }

    /// A sink that has written nothing, with the header line asked for or not.
    pub fn new(headers: bool, total: usize) -> (r: Report)
        ensures
            r.wf(),
            r.headers() == headers,
            r.total() == total,
            r.progress() == 0,
            r.lines() == Seq::<Seq<char>>::empty(),
    {
        Report { headers, total, progress: 0, any_written: false, lines: Ghost(Seq::empty()) }
    }

    /// Whether the header line is still owed: it was asked for and nothing
    /// has been written yet.
    pub open spec fn header_pending(&self) -> bool {
        self.headers() && self.lines().len() == 0
    }

    /// The header line, when it is still owed; nothing otherwise.
    pub fn print_headers(&mut self) -> (r: Option<String>)
        requires
            old(self).wf(),
        ensures
            final(self).wf(),
            final(self).headers() == old(self).headers(),
            final(self).total() == old(self).total(),
            final(self).progress() == old(self).progress(),
            old(self).header_pending() ==> r.is_some() && r.unwrap()@ == header_row()
                && final(self).lines() == old(self).lines().push(header_row()),
            !old(self).header_pending() ==> r.is_none() && final(self).lines() == old(
                self,
            ).lines(),
    {
        if self.headers && !self.any_written {
            let h = header_line();
            self.lines = Ghost(self.lines@.push(header_row()));
            self.any_written = true;
            Some(h)
        } else {
            None
        }
    }

    /// The result lines of a successful lookup, one per record in the order
    /// given. The header line comes first when it is still owed and there is
    /// at least one record.
    pub fn add_result(&mut self, records: &Vec<ResolvedRecord>) -> (r: Vec<String>)
        requires
            old(self).wf(),
        ensures
            final(self).wf(),
            final(self).headers() == old(self).headers(),
            final(self).total() == old(self).total(),
            final(self).progress() == old(self).progress(),
            final(self).lines() == old(self).lines() + r@.map_values(|s: String| s@),
            records@.len() > 0 && old(self).header_pending() ==> r@.map_values(|s: String| s@)
                == seq![header_row()] + rows_of(records@),
            !(records@.len() > 0 && old(self).header_pending()) ==> r@.map_values(
                |s: String| s@,
            ) == rows_of(records@),
    {
        let mut out: Vec<String> = Vec::new();
        if records.len() > 0 && self.headers && !self.any_written {
            out.push(header_line());
        }
        let ghost head = out@.map_values(|s: String| s@);
        let mut i: usize = 0;
        while i < records.len()
            invariant
                i <= records@.len(),
                out@.len() == head.len() + i,
                head.len() <= 1,
                out@.map_values(|s: String| s@) == head + rows_of(records@.subrange(0, i as int)),
            decreases records@.len() - i,
        {
            let line = record_to_string(&records[i], false);
            let ghost before = out@;
            out.push(line);
            proof {
                assert(out@.map_values(|s: String| s@) =~= before.map_values(|s: String| s@).push(
                    record_row(records@[i as int]),
                ));
                assert(records@.subrange(0, i + 1) =~= records@.subrange(0, i as int).push(
                    records@[i as int],
                ));
                assert(out@.map_values(|s: String| s@) =~= head + rows_of(
                    records@.subrange(0, i + 1),
                ));
            }
            i = i + 1;
        }
        proof {
            assert(records@.subrange(0, records@.len() as int) =~= records@);
            let new_lines = out@.map_values(|s: String| s@);
            assert forall|k: int| 0 <= k < rows_of(records@).len() implies #[trigger] rows_of(
                records@,
            )[k] != header_row() by {
                lemma_row_is_not_header(records@[k]);
            }
            assert(records@.len() > 0 && self.header_pending() ==> head =~= seq![header_row()]);
            assert(!(records@.len() > 0 && self.header_pending()) ==> head =~= Seq::<
                Seq<char>,
            >::empty());
            let all = self.lines@ + new_lines;
            assert forall|k: int| 0 < k < all.len() implies #[trigger] all[k] != header_row() by {
                if k >= self.lines@.len() {
                    let j = k - self.lines@.len();
                    if j >= head.len() {
                        assert(new_lines[j] == rows_of(records@)[j - head.len()]);
                    }
                }
            }
            assert forall|k: int| !self.headers && 0 <= k < all.len() implies #[trigger] all[k]
                != header_row() by {
                if k >= self.lines@.len() {
                    let j = k - self.lines@.len();
                    assert(new_lines[j] == rows_of(records@)[j - head.len()]);
                }
            }
            self.lines = Ghost(all);
        }
        if out.len() > 0 {
            self.any_written = true;
        }
        out
    }

    /// Counts one more candidate as dispatched and returns the new count.
    pub fn report_progress(&mut self) -> (r: usize)
        requires
            old(self).wf(),
            old(self).progress() < usize::MAX,
        ensures
            final(self).wf(),
            r == final(self).progress(),
            final(self).progress() == old(self).progress() + 1,
            final(self).headers() == old(self).headers(),
            final(self).total() == old(self).total(),
            final(self).lines() == old(self).lines(),
    {
        self.progress = self.progress + 1;
        self.progress
    }

    /// Whether the header line was asked for.
    pub fn has_headers(&self) -> (r: bool)
        ensures
            r == self.headers(),
    {
        self.headers
    }

    /// The number of candidates that progress is reported against.
    pub fn total_tries(&self) -> (r: usize)
        ensures
            r == self.total(),
    {
        self.total
    }

    /// The number of progress reports so far.
    pub fn position(&self) -> (r: usize)
        ensures
            r == self.progress(),
    {
        self.progress
    }

    /// The header line appears at most once and only where it was asked
    /// for; once anything has been written with headers on, the first line
    /// is the header, so it precedes every result line.
    pub proof fn lemma_header_first(self)
        requires
            self.wf(),
        ensures
            forall|i: int|
                0 <= i < self.lines().len() && #[trigger] self.lines()[i] == header_row() ==> i
                    == 0 && self.headers(),
            self.headers() && self.lines().len() > 0 ==> self.lines()[0] == header_row(),
    {
    }
}

/// The character ten places from the end of a row is the first of its last cell.
proof fn lemma_last_cell_start(a: Seq<char>, b: Seq<char>, c: Seq<char>)
    requires
        0 < c.len() <= FIELD_WIDTH,
    ensures
        table_row(a, b, c).len() >= FIELD_WIDTH,
        table_row(a, b, c)[table_row(a, b, c).len() - FIELD_WIDTH] == c[0],
{
    let x = pad(a, NAME_WIDTH as nat) + separator() + pad(b, FIELD_WIDTH as nat) + separator();
    let y = pad(c, FIELD_WIDTH as nat);
    assert(y.len() == FIELD_WIDTH);
    assert(y[0] == c[0]);
    assert(table_row(a, b, c) == x + y);
}

/// No result line reads as the header line.
pub proof fn lemma_row_is_not_header(rec: ResolvedRecord)
    ensures
        record_row(rec) != header_row(),
{
    let t = bool_text(record_is_local(rec));
    let l = seq!['L', 'o', 'c', 'a', 'l', ' ', 'i', 'p'];
    lemma_last_cell_start(rec.name@, rec.record_type@, t);
    lemma_last_cell_start(seq!['N', 'a', 'm', 'e'], seq!['R', 'e', 'c', 'o', 'r', 'd'], l);
    assert(t[0] != l[0]);
}

} // verus!
