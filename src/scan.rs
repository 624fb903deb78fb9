use vstd::prelude::*;
use vstd::string::StringExecFns;

use crate::engine::Dispatcher;
use crate::record::{header_row, ResolvedRecord};
use crate::sink::{rows_of, Report};

verus! {

/// The name looked up for a candidate: `word.domain`.
pub open spec fn query_of(word: Seq<char>, domain: Seq<char>) -> Seq<char> {
    word + seq!['.'] + domain
}

/// Builds the query name `word.domain`.
pub fn query_name(word: &str, domain: &str) -> (r: String)
    ensures
        r@ == query_of(word@, domain@),
{
    let mut r = String::from_str(word);
    r.append(".");
    r.append(domain);
    proof {
        reveal_strlit(".");
        assert(r@ =~= query_of(word@, domain@));
    }
    r
}

/// Why a run could not start, or an event could not be taken.
#[derive(Clone, Copy, Debug, PartialEq, Eq, Structural)]
pub enum ScanError {
    /// The concurrency budget was zero.
    ZeroBudget,
    /// A completion named a candidate whose lookup is not outstanding.
    NotInFlight,
}

/// What the caller is to do next.
#[derive(Debug)]
pub enum Step {
    /// Start the lookup of `query` for candidate `index`; progress now
    /// stands at `position`, probing `label`.
    Dispatch { index: usize, query: String, label: String, position: usize },
    /// Wait until an outstanding lookup completes.
    Wait,
    /// Every candidate was dispatched and every lookup has completed.
    Finished,
}

/// One enumeration run: the candidates, the domain they are joined to, the
/// admission control, and the result sink's state.
pub struct Scan {
    words: Vec<String>,
    domain: String,
    engine: Dispatcher,
    report: Report,
}

impl Scan {
    /// The candidates, in word-source order.
    pub closed spec fn words(&self) -> Seq<Seq<char>> {
        self.words@.map_values(|w: String| w@)
    }

    pub closed spec fn domain(&self) -> Seq<char> {
        self.domain@
    }

    pub closed spec fn engine(&self) -> Dispatcher {
        self.engine
    }

    pub closed spec fn report(&self) -> Report {
        self.report
    }

    pub closed spec fn wf(&self) -> bool {
        &&& self.engine.wf()
        &&& self.report.wf()
        &&& self.engine.size() == self.words@.len()
        &&& self.report.total() == self.words@.len()
        &&& self.report.progress() == self.engine.dispatched()
    }

    /// A run over `words` under `domain`, with at most `budget` lookups
    /// outstanding; fails exactly when the budget is zero.
    pub fn new(words: Vec<String>, domain: String, budget: usize, headers: bool) -> (r: Result<
        Scan,
        ScanError,
    >)
        ensures
            budget == 0 <==> r is Err,
            r is Err ==> r == Err::<Scan, ScanError>(ScanError::ZeroBudget),
            r matches Ok(s) ==> {
                &&& s.wf()
                &&& s.words() == words@.map_values(|w: String| w@)
                &&& s.domain() == domain@
                &&& s.engine().budget() == budget
                &&& s.engine().size() == words@.len()
                &&& s.engine().dispatched() == 0
                &&& s.engine().in_flight() == Set::<int>::empty()
                &&& s.engine().completions().len() == 0
                &&& s.report().headers() == headers
                &&& s.report().progress() == 0
                &&& s.report().lines().len() == 0
            },
    {
        if budget == 0 {
            return Err(ScanError::ZeroBudget);
        }
        let n = words.len();
        let engine = Dispatcher::new(n, budget);
        let report = Report::new(headers, n);
        Ok(Scan { words, domain, engine, report })
    }

    /// The header line, when it was asked for and nothing has been written.
    pub fn print_headers(&mut self) -> (r: Option<String>)
        requires
            old(self).wf(),
        ensures
            final(self).wf(),
            final(self).words() == old(self).words(),
            final(self).domain() == old(self).domain(),
            final(self).engine() == old(self).engine(),
            old(self).report().header_pending() ==> r.is_some() && r.unwrap()@ == header_row()
                && final(self).report().lines() == old(self).report().lines().push(header_row()),
            !old(self).report().header_pending() ==> r.is_none() && final(self).report().lines()
                == old(self).report().lines(),
            final(self).report().headers() == old(self).report().headers(),
            final(self).report().progress() == old(self).report().progress(),
    {
        self.report.print_headers()
    }

    /// The next thing to do: dispatch the next candidate when fewer than
    /// `budget` lookups are outstanding, report that the run is over once
    /// every candidate was dispatched and has completed, and wait otherwise.
    /// Each dispatch reports progress once.
    pub fn next_step(&mut self) -> (r: Step)
        requires
            old(self).wf(),
        ensures
            final(self).wf(),
            final(self).words() == old(self).words(),
            final(self).domain() == old(self).domain(),
            final(self).engine().budget() == old(self).engine().budget(),
            final(self).engine().completions() == old(self).engine().completions(),
            final(self).report().lines() == old(self).report().lines(),
            final(self).report().headers() == old(self).report().headers(),
            old(self).engine().spec_can_dispatch() ==> (r matches Step::Dispatch {
                index,
                query,
                label,
                position,
            } && {
                &&& index == old(self).engine().dispatched()
                &&& query@ == query_of(old(self).words()[index as int], old(self).domain())
                &&& label@ == old(self).words()[index as int]
                &&& position == index + 1
                &&& final(self).engine().dispatched() == index + 1
                &&& final(self).engine().in_flight() == old(self).engine().in_flight().insert(
                    index as int,
                )
                &&& final(self).report().progress() == old(self).report().progress() + 1
            }),
            !old(self).engine().spec_can_dispatch() ==> *final(self) == *old(self),
            !old(self).engine().spec_can_dispatch() && old(self).engine().spec_is_finished() ==> r
                is Finished,
            !old(self).engine().spec_can_dispatch() && !old(self).engine().spec_is_finished() ==> r
                is Wait,
    {
        if self.engine.can_dispatch() {
            proof {
                self.engine.lemma_size_fits();
            }
            let index = self.engine.dispatch();
            let position = self.report.report_progress();
            let word = &self.words[index];
            let query = query_name(word.as_str(), self.domain.as_str());
            let label = word.clone();
            Step::Dispatch { index, query, label, position }
        } else if self.engine.is_finished() {
            Step::Finished
        } else {
            Step::Wait
        }
    }

    /// Takes the outcome of the lookup of candidate `index`: the records it
    /// returned, or nothing where it failed. A failed lookup writes nothing
    /// and the run goes on; a successful one yields its result lines. Fails,
    /// changing nothing, exactly when that lookup is not outstanding.
    pub fn complete(&mut self, index: usize, outcome: Option<Vec<ResolvedRecord>>) -> (r: Result<
        Vec<String>,
        ScanError,
    >)
        requires
            old(self).wf(),
        ensures
            final(self).wf(),
            final(self).words() == old(self).words(),
            final(self).domain() == old(self).domain(),
            final(self).report().headers() == old(self).report().headers(),
            final(self).report().progress() == old(self).report().progress(),
            final(self).engine().dispatched() == old(self).engine().dispatched(),
            final(self).engine().budget() == old(self).engine().budget(),
            r is Ok <==> old(self).engine().in_flight().contains(index as int),
            r is Err ==> r == Err::<Vec<String>, ScanError>(ScanError::NotInFlight) && *final(self)
                == *old(self),
            r matches Ok(lines) ==> {
                &&& final(self).engine().in_flight() == old(self).engine().in_flight().remove(
                    index as int,
                )
                &&& final(self).engine().completions() == old(self).engine().completions().push(
                    index as int,
                )
                &&& final(self).report().lines() == old(self).report().lines() + lines@.map_values(
                    |s: String| s@,
                )
                &&& outcome is None ==> lines@.len() == 0
                &&& outcome matches Some(recs) ==> {
                    &&& recs@.len() > 0 && old(self).report().header_pending() ==> lines@.map_values(
                        |s: String| s@,
                    ) == seq![header_row()] + rows_of(recs@)
                    &&& !(recs@.len() > 0 && old(self).report().header_pending())
                        ==> lines@.map_values(|s: String| s@) == rows_of(recs@)
                }
            },
    {
        if !self.engine.complete(index) {
            return Err(ScanError::NotInFlight);
        }
        match outcome {
            Some(records) => Ok(self.report.add_result(&records)),
            None => {
                let lines: Vec<String> = Vec::new();
                proof {
                    assert(self.report.lines() =~= self.report.lines() + lines@.map_values(
                        |s: String| s@,
                    ));
                }
                Ok(lines)
            },
        }
    }

    /// The number of candidates.
    pub fn total(&self) -> (r: usize)
        ensures
            r == self.words().len(),
    {
        self.words.len()
    }

    /// The number of progress reports so far.
    pub fn progress(&self) -> (r: usize)
        requires
            self.wf(),
        ensures
            r == self.report().progress(),
    {
        self.report.position()
    }

    /// Whether the run is over.
    pub fn is_finished(&self) -> (r: bool)
        requires
            self.wf(),
        ensures
            r == self.engine().spec_is_finished(),
    {
        self.engine.is_finished()
    }

    /// Progress is reported exactly once per dispatched candidate, whatever
    /// the budget; when the run is over the count equals the number of
    /// candidates, each of which has completed exactly once.
    pub proof fn lemma_progress_once_per_candidate(self)
        requires
            self.wf(),
        ensures
            self.report().progress() == self.engine().dispatched(),
            self.engine().spec_is_finished() ==> self.report().progress() == self.words().len()
                && self.engine().completions().len() == self.words().len(),
    {
        self.engine.lemma_each_once();
    }
}

} // verus!
