//! Fan-out and fan-in of one cycle.
//!
//! A cycle serves every symbol of a list once. Fanning out makes one request
//! per symbol, all with the same bounds. Fanning in waits until every worker
//! has ended and then lists, symbol by symbol, the record or the failure
//! that its worker ended with. A failure takes up its own entry and nothing
//! else: the entries of the other symbols are what their workers ended with.
use crate::failure::FailureReason;
use crate::instant::Timestamp;
use crate::worker::{spec_is_terminal, spec_outcome, WorkerState};
use vstd::prelude::*;
use vstd::string::StringExecFns;

verus! {

/// What one worker is asked for: the observations of `symbol` from `from`
/// up to, and without, `to`.
#[derive(Clone, Debug, PartialEq, Eq)]
pub struct SymbolRequest {
    pub symbol: String,
    pub from: Timestamp,
    pub to: Timestamp,
}

/// What a cycle brought for one symbol.
#[derive(Debug, PartialEq)]
pub struct SymbolOutcome<R> {
    pub symbol: String,
    pub result: Result<R, FailureReason>,
}

/// What a cycle brought: one entry per request, in the order of the
/// requests.
#[derive(Debug, PartialEq)]
pub struct CycleOutcome<R> {
    pub entries: Vec<SymbolOutcome<R>>,
}

/// `requests` asks for each of `symbols` once, in their order, and all
/// requests have the bounds `from` and `to`.
pub open spec fn is_fan_out(
    requests: Seq<SymbolRequest>,
    symbols: Seq<String>,
    from: Timestamp,
    to: Timestamp,
) -> bool {
    &&& requests.len() == symbols.len()
    &&& forall|i: int|
        0 <= i < requests.len() ==> {
            &&& (#[trigger] requests[i]).symbol@ == symbols[i]@
            &&& requests[i].from == from
            &&& requests[i].to == to
        }
}

/// Every request has a worker, and every worker has ended.
pub open spec fn barrier_reached<R>(
    requests: Seq<SymbolRequest>,
    workers: Seq<WorkerState<R>>,
) -> bool {
    &&& workers.len() == requests.len()
    &&& forall|i: int| 0 <= i < workers.len() ==> spec_is_terminal(#[trigger] workers[i])
}

/// `entries` holds, for each request in turn, its symbol and what its worker
/// ended with.
pub open spec fn is_fan_in<R>(
    entries: Seq<SymbolOutcome<R>>,
    requests: Seq<SymbolRequest>,
    workers: Seq<WorkerState<R>>,
) -> bool {
    &&& entries.len() == requests.len()
    &&& entries.len() == workers.len()
    &&& forall|i: int|
        0 <= i < entries.len() ==> {
            &&& (#[trigger] entries[i]).symbol@ == requests[i].symbol@
            &&& Some(entries[i].result) == spec_outcome(workers[i])
        }
}

/// Number of entries that are failures.
pub open spec fn count_failures<R>(entries: Seq<SymbolOutcome<R>>) -> nat
    decreases entries.len(),
{
    if entries.len() == 0 {
        0
    } else {
        count_failures(entries.drop_last()) + if entries.last().result is Err {
            1nat
        } else {
            0nat
        }
    }
}

/// Number of entries that are records.
pub open spec fn count_records<R>(entries: Seq<SymbolOutcome<R>>) -> nat
    decreases entries.len(),
{
    if entries.len() == 0 {
        0
    } else {
        count_records(entries.drop_last()) + if entries.last().result is Ok {
            1nat
        } else {
            0nat
        }
    }
}

/// Number of workers that have failed.
pub open spec fn count_failed<R>(workers: Seq<WorkerState<R>>) -> nat
    decreases workers.len(),
{
    if workers.len() == 0 {
        0
    } else {
        count_failed(workers.drop_last()) + if workers.last() is Failed {
            1nat
        } else {
            0nat
        }
    }
}

/// Position of the first entry for `symbol`, if there is one.
pub open spec fn first_entry<R>(entries: Seq<SymbolOutcome<R>>, symbol: Seq<char>) -> Option<int> {
    if exists|i: int| 0 <= i < entries.len() && (#[trigger] entries[i]).symbol@ == symbol {
        Some(
            choose|i: int|
                0 <= i < entries.len() && (#[trigger] entries[i]).symbol@ == symbol
                    && forall|j: int| 0 <= j < i ==> (#[trigger] entries[j]).symbol@ != symbol,
        )
    } else {
        None
    }
}

/// Makes the requests of a cycle: one per symbol, in the order of the
/// symbols, all with the same `from` and the same `to`.
pub fn build_requests(symbols: &Vec<String>, from: Timestamp, to: Timestamp) -> (requests: Vec<
    SymbolRequest,
>)
    ensures
        is_fan_out(requests@, symbols@, from, to),
{
    let mut requests: Vec<SymbolRequest> = Vec::new();
    let mut i: usize = 0;
    while i < symbols.len()
        invariant
            i <= symbols.len(),
            is_fan_out(requests@, symbols@.take(i as int), from, to),
        decreases symbols.len() - i,
    {
        requests.push(SymbolRequest { symbol: symbols[i].clone(), from, to });
        assert(symbols@.take(i + 1)[i as int] == symbols@[i as int]);
        i += 1;
    }
    assert(symbols@.take(i as int) =~= symbols@);
    requests
}

/// Whether every request has a worker and every worker has ended.
pub fn all_ended<R>(requests: &Vec<SymbolRequest>, workers: &Vec<WorkerState<R>>) -> (ended: bool)
    ensures
        ended == barrier_reached(requests@, workers@),
{
    if workers.len() != requests.len() {
        return false;
    }
    let mut i: usize = 0;
    while i < workers.len()
        invariant
            i <= workers.len(),
            workers.len() == requests.len(),
            forall|k: int| 0 <= k < i ==> spec_is_terminal(#[trigger] workers@[k]),
        decreases workers.len() - i,
    {
        if !workers[i].is_terminal() {
            return false;
        }
        i += 1;
    }
    true
}

/// Joins the workers of a cycle. Once every worker has ended, the outcome
/// lists each request's symbol with the record or the failure of its worker.
/// Until then there is no outcome.
pub fn join_workers<R>(requests: &Vec<SymbolRequest>, workers: Vec<WorkerState<R>>) -> (outcome:
    Option<CycleOutcome<R>>)
    ensures
        outcome is Some <==> barrier_reached(requests@, workers@),
        outcome matches Some(joined) ==> is_fan_in(joined.entries@, requests@, workers@),
{
    if !all_ended(requests, &workers) {
        return None;
    }
    let ghost ended = workers@;
    let mut entries: Vec<SymbolOutcome<R>> = Vec::new();
    // A worker's record is moved, not copied, and a vector gives its items
    // up from the end: so the workers are turned round first.
    let mut rest = workers;
    let mut backwards: Vec<WorkerState<R>> = Vec::new();
    while rest.len() > 0
        invariant
            rest.len() + backwards.len() == ended.len(),
            forall|k: int| 0 <= k < rest.len() ==> rest@[k] == ended[k],
            forall|k: int|
                0 <= k < backwards.len() ==> #[trigger] backwards@[k] == ended[ended.len() - 1 - k],
        decreases rest.len(),
    {
        let worker = rest.pop().unwrap();
        backwards.push(worker);
    }
    while backwards.len() > 0
        invariant
            ended.len() == requests.len(),
            barrier_reached(requests@, ended),
            entries.len() + backwards.len() == ended.len(),
            forall|k: int|
                0 <= k < backwards.len() ==> #[trigger] backwards@[k] == ended[ended.len() - 1 - k],
            is_fan_in(
                entries@,
                requests@.take(entries.len() as int),
                ended.take(entries.len() as int),
            ),
        decreases backwards.len(),
    {
        let ghost done = entries.len() as int;
        let worker = backwards.pop().unwrap();
        assert(worker == ended[done]);
        assert(spec_is_terminal(ended[done]));
        let result = match worker.into_outcome() {
            Some(result) => result,
            None => vstd::pervasive::unreached(),
        };
        let symbol = requests[entries.len()].symbol.clone();
        entries.push(SymbolOutcome { symbol, result });
        assert(requests@.take(done + 1)[done] == requests@[done]);
        assert(ended.take(done + 1)[done] == ended[done]);
    }
    assert(requests@.take(entries.len() as int) =~= requests@);
    assert(ended.take(entries.len() as int) =~= ended);
    Some(CycleOutcome { entries })
}

impl<R> CycleOutcome<R> {
    /// Number of entries.
    pub fn len(&self) -> (n: usize)
        ensures
            n == self.entries@.len(),
    {
        self.entries.len()
    }

    /// Number of symbols whose worker failed.
    pub fn failure_count(&self) -> (n: usize)
        ensures
            n == count_failures(self.entries@),
    {
        let mut n: usize = 0;
        let mut i: usize = 0;
        while i < self.entries.len()
            invariant
                i <= self.entries.len(),
                n <= i,
                n == count_failures(self.entries@.take(i as int)),
            decreases self.entries.len() - i,
        {
            assert(self.entries@.take(i + 1).drop_last() =~= self.entries@.take(i as int));
            if self.entries[i].result.is_err() {
                n += 1;
            }
            i += 1;
        }
        assert(self.entries@.take(i as int) =~= self.entries@);
        n
    }

    /// Number of symbols that have a record.
    pub fn record_count(&self) -> (n: usize)
        ensures
            n == count_records(self.entries@),
    {
        let mut n: usize = 0;
        let mut i: usize = 0;
        while i < self.entries.len()
            invariant
                i <= self.entries.len(),
                n <= i,
                n == count_records(self.entries@.take(i as int)),
            decreases self.entries.len() - i,
        {
            assert(self.entries@.take(i + 1).drop_last() =~= self.entries@.take(i as int));
            if self.entries[i].result.is_ok() {
                n += 1;
            }
            i += 1;
        }
        assert(self.entries@.take(i as int) =~= self.entries@);
        n
    }

    /// What the cycle brought for `symbol`: the first entry with that
    /// symbol, or `None` where the cycle did not ask for it.
    pub fn get(&self, symbol: &str) -> (found: Option<&SymbolOutcome<R>>)
        ensures
            match first_entry(self.entries@, symbol@) {
                Some(i) => found == Some(&self.entries@[i]),
                None => found is None,
            },
            found matches Some(entry) ==> entry.symbol@ == symbol@,
    {
        let wanted = String::from_str(symbol);
        let mut i: usize = 0;
        while i < self.entries.len()
            invariant
                i <= self.entries.len(),
                wanted@ == symbol@,
                forall|j: int| 0 <= j < i ==> (#[trigger] self.entries@[j]).symbol@ != symbol@,
            decreases self.entries.len() - i,
        {
            if self.entries[i].symbol == wanted {
                proof {
                    let first = first_entry(self.entries@, symbol@);
                    assert(first is Some);
                    if first.unwrap() < i {
                        assert(self.entries@[first.unwrap()].symbol@ != symbol@);
                    }
                }
                return Some(&self.entries[i]);
            }
            i += 1;
        }
        None
    }
}

/// Every entry is a failure or a record, never both.
pub proof fn lemma_counts_add_up<R>(entries: Seq<SymbolOutcome<R>>)
    ensures
        count_failures(entries) + count_records(entries) == entries.len(),
    decreases entries.len(),
{
    if entries.len() > 0 {
        lemma_counts_add_up(entries.drop_last());
    }
}

/// What the workers ended with is what the outcome holds, entry by entry.
proof fn lemma_fan_in_counts<R>(
    entries: Seq<SymbolOutcome<R>>,
    requests: Seq<SymbolRequest>,
    workers: Seq<WorkerState<R>>,
)
    requires
        barrier_reached(requests, workers),
        is_fan_in(entries, requests, workers),
    ensures
        count_failures(entries) == count_failed(workers),
    decreases entries.len(),
{
    if entries.len() > 0 {
        let n = entries.len() - 1;
        assert(Some(entries[n].result) == spec_outcome(workers[n]));
        assert(spec_is_terminal(workers[n]));
        assert forall|i: int| 0 <= i < n implies spec_is_terminal(
            #[trigger] workers.drop_last()[i],
        ) by {
            assert(workers.drop_last()[i] == workers[i]);
        }
        assert forall|i: int| 0 <= i < n implies {
            &&& (#[trigger] entries.drop_last()[i]).symbol@ == requests.drop_last()[i].symbol@
            &&& Some(entries.drop_last()[i].result) == spec_outcome(workers.drop_last()[i])
        } by {
            assert(entries.drop_last()[i] == entries[i]);
        }
        lemma_fan_in_counts(entries.drop_last(), requests.drop_last(), workers.drop_last());
    }
}

/// A cycle accounts for every symbol. Of `N` symbols whose workers have all
/// ended, `K` of them failed, the outcome holds `N` entries, one per symbol
/// and in the symbols' order: `K` failures, each under the symbol whose
/// worker failed and with that worker's reason, and `N - K` records, each
/// under the symbol whose worker made it.
pub proof fn lemma_cycle_accounts_for_every_symbol<R>(
    symbols: Seq<String>,
    from: Timestamp,
    to: Timestamp,
    requests: Seq<SymbolRequest>,
    workers: Seq<WorkerState<R>>,
    entries: Seq<SymbolOutcome<R>>,
)
    requires
        is_fan_out(requests, symbols, from, to),
        barrier_reached(requests, workers),
        is_fan_in(entries, requests, workers),
    ensures
        entries.len() == symbols.len(),
        count_failures(entries) == count_failed(workers),
        count_records(entries) == symbols.len() - count_failed(workers),
        forall|i: int|
            0 <= i < entries.len() ==> {
                &&& (#[trigger] entries[i]).symbol@ == symbols[i]@
                &&& match workers[i] {
                    WorkerState::Failed(reason) => entries[i].result == Err::<R, FailureReason>(
                        reason,
                    ),
                    WorkerState::Done(record) => entries[i].result == Ok::<R, FailureReason>(
                        record,
                    ),
                    _ => false,
                }
            },
{
    lemma_counts_add_up(entries);
    lemma_fan_in_counts(entries, requests, workers);
    assert forall|i: int| 0 <= i < entries.len() implies {
        &&& (#[trigger] entries[i]).symbol@ == symbols[i]@
        &&& match workers[i] {
            WorkerState::Failed(reason) => entries[i].result == Err::<R, FailureReason>(reason),
            WorkerState::Done(record) => entries[i].result == Ok::<R, FailureReason>(record),
            _ => false,
        }
    } by {
        assert(requests[i].symbol@ == symbols[i]@);
        assert(spec_is_terminal(workers[i]));
        assert(Some(entries[i].result) == spec_outcome(workers[i]));
    }
}

/// A worker's end is its own entry and no other's. Where one worker of a
/// cycle had ended otherwise, with another failure or with a record, the
/// entries of all other symbols would be the same.
pub proof fn lemma_siblings_are_untouched<R>(
    requests: Seq<SymbolRequest>,
    workers: Seq<WorkerState<R>>,
    entries: Seq<SymbolOutcome<R>>,
    which: int,
    otherwise: WorkerState<R>,
    others: Seq<SymbolOutcome<R>>,
)
    requires
        0 <= which < workers.len(),
        is_fan_in(entries, requests, workers),
        is_fan_in(others, requests, workers.update(which, otherwise)),
    ensures
        others.len() == entries.len(),
        forall|i: int|
            0 <= i < entries.len() && i != which ==> (#[trigger] others[i]).result
                == entries[i].result && others[i].symbol@ == entries[i].symbol@,
        others[which].symbol@ == entries[which].symbol@,
        Some(others[which].result) == spec_outcome(otherwise),
{
    assert forall|i: int| 0 <= i < entries.len() && i != which implies (#[trigger] others[i]).result
        == entries[i].result && others[i].symbol@ == entries[i].symbol@ by {
        assert(workers.update(which, otherwise)[i] == workers[i]);
        assert(Some(entries[i].result) == spec_outcome(workers[i]));
        assert(Some(others[i].result) == spec_outcome(workers[i]));
    }
    assert(Some(others[which].result) == spec_outcome(workers.update(which, otherwise)[which]));
    assert(entries[which].symbol@ == requests[which].symbol@);
}

} // verus!
