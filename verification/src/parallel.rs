//! Running one configured agent on many tasks at once.
//!
//! The library plans the work and keeps the results in order; the caller
//! runs the jobs, all at once or in any order it likes, and records each
//! outcome under the index of its job.

use vstd::prelude::*;
use crate::agent::{forked, Agent};
use crate::error::Error;

verus! {

/// One task of a fan-out, with the agent that is to run it.
#[derive(Debug)]
pub struct Job {
    /// The place of the task in the list of tasks, and of its outcome in
    /// the list of results.
    pub index: usize,
    /// An agent of its own for the task.
    pub agent: Agent,
    /// The task.
    pub task: String,
}

/// The outcomes of a fan-out, each in the slot of its task.
#[derive(Debug)]
pub struct MapBoard<T> {
    slots: Vec<Option<Result<T, Error>>>,
}

/// The board after the outcome of task `index` is recorded: the slot of
/// that task holds the outcome, every other slot is as before. An index
/// outside the board, or one whose slot is taken, changes nothing.
pub open spec fn recorded<R>(slots: Seq<Option<R>>, index: int, outcome: R) -> Seq<Option<R>> {
    if 0 <= index < slots.len() && slots[index] is None {
        slots.update(index, Some(outcome))
    } else {
        slots
    }
}

/// The board after the first `n` of `order` have completed, in that order,
/// task `k` with the outcome `outcomes[k]`.
pub open spec fn completed<R>(
    slots: Seq<Option<R>>,
    outcomes: Seq<R>,
    order: Seq<int>,
    n: int,
) -> Seq<Option<R>>
    decreases n,
{
    if n <= 0 || n > order.len() {
        slots
    } else {
        recorded(completed(slots, outcomes, order, n - 1), order[n - 1], outcomes[order[n - 1]])
    }
}

/// `order` names each of the tasks `0..n` exactly once.
pub open spec fn is_completion_order(order: Seq<int>, n: int) -> bool {
    &&& order.len() == n
    &&& order.no_duplicates()
    &&& forall|i: int| 0 <= i < n ==> order.contains(i)
}

/// An empty board for `n` tasks.
pub open spec fn empty_board<R>(n: int) -> Seq<Option<R>> {
    Seq::new(n as nat, |i: int| None::<R>)
}

/// The results of a full board: what each slot holds.
pub open spec fn results_of<R>(slots: Seq<Option<R>>) -> Seq<R> {
    Seq::new(slots.len(), |i: int| slots[i]->0)
}

/// After the first `n` completions, the slots of the tasks that have
/// completed hold their own outcomes, and the other slots are empty.
pub proof fn lemma_completed<R>(outcomes: Seq<R>, order: Seq<int>, n: int)
    requires
        0 <= n <= order.len(),
        order.no_duplicates(),
        forall|k: int| 0 <= k < order.len() ==> 0 <= #[trigger] order[k] < outcomes.len(),
    ensures
        completed(empty_board(outcomes.len() as int), outcomes, order, n).len() == outcomes.len(),
        forall|i: int|
            0 <= i < outcomes.len() ==> #[trigger] completed(
                empty_board(outcomes.len() as int),
                outcomes,
                order,
                n,
            )[i] == (if order.subrange(0, n).contains(i) {
                Some(outcomes[i])
            } else {
                None
            }),
    decreases n,
{
    let board = completed(empty_board(outcomes.len() as int), outcomes, order, n);
    if n > 0 {
        lemma_completed(outcomes, order, n - 1);
        let prior = completed(empty_board(outcomes.len() as int), outcomes, order, n - 1);
        let k = order[n - 1];
        assert(!order.subrange(0, n - 1).contains(k)) by {
            if order.subrange(0, n - 1).contains(k) {
                let j = order.subrange(0, n - 1).index_of(k);
                assert(order.subrange(0, n - 1)[j] == k);
                assert(order[j] == order[n - 1]);
            }
        }
        assert(prior[k] is None);
        assert forall|i: int| 0 <= i < outcomes.len() implies #[trigger] board[i] == (if order.subrange(
            0,
            n,
        ).contains(i) {
            Some(outcomes[i])
        } else {
            None
        }) by {
            if i == k {
                assert(order.subrange(0, n)[n - 1] == i);
            } else if order.subrange(0, n - 1).contains(i) {
                let j = order.subrange(0, n - 1).index_of(i);
                assert(order.subrange(0, n - 1)[j] == i);
                assert(order.subrange(0, n)[j] == i);
            } else if order.subrange(0, n).contains(i) {
                let j = order.subrange(0, n).index_of(i);
                assert(order.subrange(0, n)[j] == i);
                assert(order.subrange(0, n - 1)[j] == i);
            }
        }
    } else {
        assert forall|i: int| 0 <= i < outcomes.len() implies !order.subrange(0, 0).contains(
            i,
        ) by {}
    }
}

/// The results come out in the order of the tasks, whatever the order in
/// which the tasks complete: the result at each place is the outcome of the
/// task at that place, and of no other.
pub proof fn law_results_keep_task_order<R>(outcomes: Seq<R>, order: Seq<int>)
    requires
        is_completion_order(order, outcomes.len() as int),
    ensures
        results_of(
            completed(
                empty_board(outcomes.len() as int),
                outcomes,
                order,
                outcomes.len() as int,
            ),
        ) == outcomes,
{
    let n = outcomes.len() as int;
    assert forall|k: int| 0 <= k < order.len() implies 0 <= #[trigger] order[k] < n by {
        lemma_order_in_range(order, n, k);
    }
    lemma_completed(outcomes, order, n);
    assert(order.subrange(0, n) =~= order);
    assert(results_of(completed(empty_board(n), outcomes, order, n)) =~= outcomes);
}

/// An order that names `n` distinct tasks with `n` entries names no other
/// task.
pub proof fn lemma_order_in_range(order: Seq<int>, n: int, k: int)
    requires
        is_completion_order(order, n),
        0 <= k < n,
    ensures
        0 <= order[k] < n,
{
    // The n tasks occupy n distinct places, so no place is left for
    // anything else.
    let places = Seq::new(n as nat, |i: int| order.index_of(i));
    assert forall|i: int, j: int| 0 <= i < n && 0 <= j < n && i != j implies places[i]
        != places[j] by {
        assert(order.contains(i));
        assert(order.contains(j));
        assert(order[order.index_of(i)] == i);
        assert(order[order.index_of(j)] == j);
    }
    assert(places.no_duplicates());
    assert forall|i: int| 0 <= i < n implies 0 <= #[trigger] places[i] < n by {
        assert(order.contains(i));
    }
    let taken = places.to_set();
    places.unique_seq_to_set();
    let all = Set::new(|p: int| 0 <= p < n);
    assert(all =~= vstd::set_lib::set_int_range(0, n));
    vstd::set_lib::lemma_int_range(0, n);
    assert(taken.subset_of(all)) by {
        assert forall|p: int| taken.contains(p) implies all.contains(p) by {
            let i = places.index_of(p);
            assert(places[i] == p);
            assert(0 <= places[i] < n);
        }
    }
    vstd::set_lib::lemma_subset_equality(taken, all);
    assert(all.contains(k));
    assert(taken.contains(k));
    let i = places.index_of(k);
    assert(places[i] == k);
    assert(order.contains(i));
    assert(order[order.index_of(i)] == i);
}

impl<T> MapBoard<T> {
    /// The slots of the board, in task order.
    pub closed spec fn slots(&self) -> Seq<Option<Result<T, Error>>> {
        self.slots@
    }

    /// An empty board for `n` tasks.
    pub fn new(n: usize) -> (board: MapBoard<T>)
        ensures
            board.slots() == empty_board::<Result<T, Error>>(n as int),
    {
        let mut slots: Vec<Option<Result<T, Error>>> = Vec::new();
        let mut i: usize = 0;
        while i < n
            invariant
                0 <= i <= n,
                slots.len() == i,
                forall|j: int| 0 <= j < i ==> slots[j] is None,
            decreases n - i,
        {
            slots.push(None);
            i += 1;
        }
        assert(slots@ =~= empty_board::<Result<T, Error>>(n as int));
        MapBoard { slots }
    }

    /// Records the outcome of task `index` in its slot, and says whether it
    /// did: an index outside the board, or one whose slot is taken, is
    /// refused.
    pub fn record(&mut self, index: usize, outcome: Result<T, Error>) -> (done: bool)
        ensures
            final(self).slots() == recorded(old(self).slots(), index as int, outcome),
            done == (index < old(self).slots().len() && old(self).slots()[index as int] is None),
    {
        if index < self.slots.len() {
            let free = self.slots[index].is_none();
            if free {
                self.slots.set(index, Some(outcome));
            }
            free
        } else {
            false
        }
    }

    /// Whether every task has its outcome.
    pub fn is_complete(&self) -> (b: bool)
        ensures
            b == (forall|i: int| 0 <= i < self.slots().len() ==> self.slots()[i] is Some),
    {
        let mut i: usize = 0;
        while i < self.slots.len()
            invariant
                0 <= i <= self.slots.len(),
                forall|j: int| 0 <= j < i ==> self.slots@[j] is Some,
            decreases self.slots.len() - i,
        {
            if self.slots[i].is_none() {
                return false;
            }
            i += 1;
        }
        true
    }

    /// The results in task order, once every task has its outcome; nothing
    /// before.
    pub fn results(self) -> (r: Option<Vec<Result<T, Error>>>)
        ensures
            match r {
                Some(list) => {
                    &&& forall|i: int| 0 <= i < self.slots().len() ==> self.slots()[i] is Some
                    &&& list@ == results_of(self.slots())
                },
                None => exists|i: int| 0 <= i < self.slots().len() && self.slots()[i] is None,
            },
    {
        if !self.is_complete() {
            return None;
        }
        let ghost all = self.slots@;
        let mut slots = self.slots;
        let mut backwards: Vec<Result<T, Error>> = Vec::new();
        while slots.len() > 0
            invariant
                slots.len() + backwards.len() == all.len(),
                forall|j: int| 0 <= j < all.len() ==> all[j] is Some,
                forall|j: int| 0 <= j < slots.len() ==> slots[j] == all[j],
                forall|j: int|
                    0 <= j < backwards.len() ==> Some(backwards[j]) == all[all.len() - 1 - j],
            decreases slots.len(),
        {
            assert(slots[slots.len() - 1] == all[slots.len() - 1]);
            assert(all[slots.len() - 1] is Some);
            match slots.pop() {
                Some(Some(outcome)) => {
                    backwards.push(outcome);
                },
                _ => unreached(),
            }
        }
        let mut list: Vec<Result<T, Error>> = Vec::new();
        while backwards.len() > 0
            invariant
                list.len() + backwards.len() == all.len(),
                forall|j: int|
                    0 <= j < backwards.len() ==> Some(backwards[j]) == all[all.len() - 1 - j],
                forall|j: int| 0 <= j < list.len() ==> Some(list[j]) == all[j],
            decreases backwards.len(),
        {
            match backwards.pop() {
                Some(outcome) => {
                    list.push(outcome);
                },
                None => unreached(),
            }
        }
        assert(list@ =~= results_of(all));
        Some(list)
    }
}

impl Agent {
    /// Plans the run of `tasks`: one job per task, in the order of the
    /// tasks, each with an agent of its own that is derived from this one.
    pub fn map(&self, tasks: Vec<String>) -> (jobs: Vec<Job>)
        ensures
            jobs.len() == tasks.len(),
            forall|i: int|
                0 <= i < jobs.len() ==> {
                    &&& (#[trigger] jobs[i]).index == i
                    &&& jobs[i].task@ == tasks[i]@
                    &&& jobs[i].agent@ == forked(self@)
                },
    {
        let mut jobs: Vec<Job> = Vec::new();
        let mut i: usize = 0;
        while i < tasks.len()
            invariant
                0 <= i <= tasks.len(),
                jobs.len() == i,
                forall|j: int|
                    0 <= j < i ==> {
                        &&& (#[trigger] jobs[j]).index == j
                        &&& jobs[j].task@ == tasks[j]@
                        &&& jobs[j].agent@ == forked(self@)
                    },
            decreases tasks.len() - i,
        {
            jobs.push(Job { index: i, agent: self.fork(), task: tasks[i].clone() });
            i += 1;
        }
        jobs
    }
}

} // verus!
