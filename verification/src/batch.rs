//! Download orchestrator's bookkeeping: one slot for each task, filled in
//! whatever order the tasks end, and read out in task order.

use crate::batch_plan::planned_batch;
use crate::fetch_run::run_of;
use crate::outcome::{DownloadOutcome, OutcomeView};
use crate::worker::FetchEventView;
use vstd::prelude::*;

verus! {

/// The outcomes of a batch, one for each task, in task order.
#[derive(Clone, Debug, PartialEq, Eq)]
pub struct BatchResult {
    pub outcomes: Vec<DownloadOutcome>,
}

impl View for BatchResult {
    type V = Seq<OutcomeView>;

    open spec fn view(&self) -> Seq<OutcomeView> {
        self.outcomes.deep_view()
    }
}

/// Whether every outcome stands at the position of its task.
pub open spec fn in_task_order(outcomes: Seq<OutcomeView>) -> bool {
    forall|i: int| 0 <= i < outcomes.len() ==> (#[trigger] outcomes[i]).task_index == i
}

/// Whether every slot is filled.
pub open spec fn all_filled(slots: Seq<Option<OutcomeView>>) -> bool {
    forall|i: int| 0 <= i < slots.len() ==> (#[trigger] slots[i]) is Some
}

/// Whether each filled slot holds the outcome of its own task.
pub open spec fn slots_match(slots: Seq<Option<OutcomeView>>) -> bool {
    forall|i: int|
        0 <= i < slots.len() ==> ((#[trigger] slots[i]) matches Some(outcome)
            ==> outcome.task_index == i)
}

/// What the filled slots hold, in slot order.
pub open spec fn contents(slots: Seq<Option<OutcomeView>>) -> Seq<OutcomeView> {
    Seq::new(slots.len(), |i: int| slots[i]->0)
}

/// Whether a collector with `slots` takes `outcome`: its task is one of the
/// batch and has not reported before.
pub open spec fn accepts(slots: Seq<Option<OutcomeView>>, outcome: OutcomeView) -> bool {
    outcome.task_index < slots.len() && slots[outcome.task_index as int] is None
}

/// The slots of a batch of `task_count` tasks before any task has reported.
pub open spec fn empty_slots(task_count: nat) -> Seq<Option<OutcomeView>> {
    Seq::new(task_count, |i: int| None::<OutcomeView>)
}

/// The slots after `outcome` is handed in: it fills the slot of its task
/// where the collector accepts it, and changes nothing where not.
pub open spec fn recorded(slots: Seq<Option<OutcomeView>>, outcome: OutcomeView) -> Seq<
    Option<OutcomeView>,
> {
    if accepts(slots, outcome) {
        slots.update(outcome.task_index as int, Some(outcome))
    } else {
        slots
    }
}

/// The slots after the outcomes `reported` are handed in, in that order.
pub open spec fn collected(slots: Seq<Option<OutcomeView>>, reported: Seq<OutcomeView>) -> Seq<
    Option<OutcomeView>,
>
    decreases reported.len(),
{
    if reported.len() == 0 {
        slots
    } else {
        recorded(collected(slots, reported.drop_last()), reported.last())
    }
}

/// Whether `reported` holds an outcome of the task at position `task_index`.
pub open spec fn reports_task(reported: Seq<OutcomeView>, task_index: int) -> bool {
    exists|k: int| 0 <= k < reported.len() && (#[trigger] reported[k]).task_index == task_index
}

/// Whether `reported` holds the outcome of each of `task_count` tasks exactly
/// once, in any order, and nothing else.
pub open spec fn reports_each_once(task_count: nat, reported: Seq<OutcomeView>) -> bool {
    &&& forall|k: int|
        0 <= k < reported.len() ==> (#[trigger] reported[k]).task_index < task_count
    &&& forall|k: int, m: int|
        0 <= k < m < reported.len() ==> (#[trigger] reported[k]).task_index != (
        #[trigger] reported[m]).task_index
    &&& forall|i: int| 0 <= i < task_count ==> #[trigger] reports_task(reported, i)
}

/// Collects the outcomes of a batch as its tasks end.
pub struct BatchCollector {
    slots: Vec<Option<DownloadOutcome>>,
}

impl View for BatchCollector {
    type V = Seq<Option<OutcomeView>>;

    closed spec fn view(&self) -> Seq<Option<OutcomeView>> {
        slot_views(self.slots@)
    }
}

/// The slots as plain values.
spec fn slot_views(slots: Seq<Option<DownloadOutcome>>) -> Seq<Option<OutcomeView>> {
    Seq::new(
        slots.len(),
        |i: int|
            match slots[i] {
                Some(outcome) => Some(outcome@),
                None => None,
            },
    )
}

impl BatchCollector {
    #[verifier::type_invariant]
    spec fn inv(&self) -> bool {
        slots_match(self@)
    }

    /// A collector for a batch of `task_count` tasks, every slot empty.
    pub fn new(task_count: usize) -> (collector: BatchCollector)
        ensures
            collector@ == empty_slots(task_count as nat),
    {
        let mut slots: Vec<Option<DownloadOutcome>> = Vec::new();
        let mut i: usize = 0;
        while i < task_count
            invariant
                i <= task_count,
                slots.len() == i,
                forall|j: int| 0 <= j < i ==> slots@[j] is None,
            decreases task_count - i,
        {
            slots.push(None);
            i += 1;
        }
        let collector = BatchCollector { slots };
        assert(collector@ =~= empty_slots(task_count as nat));
        collector
    }

    /// The number of tasks in the batch.
    pub fn task_count(&self) -> (count: usize)
        ensures
            count == self@.len(),
    {
        self.slots.len()
    }

    /// Puts `outcome` into the slot of its task, and says whether it was
    /// taken. An outcome for a task that is not of the batch, or that has
    /// reported before, is turned away and changes nothing. No other slot is
    /// touched either way.
    pub fn record(self, outcome: DownloadOutcome) -> (next: (BatchCollector, bool))
        ensures
            next.1 == accepts(self@, outcome@),
            next.0@ == recorded(self@, outcome@),
            slots_match(self@),
            slots_match(next.0@),
    {
        proof {
            use_type_invariant(&self);
        }
        let ghost before = self@;
        let index = outcome.task_index;
        let mut slots = self.slots;
        if index < slots.len() && slots[index].is_none() {
            assert(before[index as int] is None);
            slots.set(index, Some(outcome));
            proof {
                let after = slot_views(slots@);
                assert(after =~= before.update(index as int, Some(outcome@)));
                assert forall|i: int| 0 <= i < after.len() implies ((#[trigger] after[i])
                    matches Some(held) ==> held.task_index == i) by {
                    if i != index {
                        assert(after[i] == before[i]);
                    }
                }
            }
            (BatchCollector { slots }, true)
        } else {
            proof {
                if index < slots.len() {
                    assert(before[index as int] is Some);
                }
            }
            (BatchCollector { slots }, false)
        }
    }

    /// Whether every task has reported.
    pub fn is_complete(&self) -> (complete: bool)
        ensures
            complete == all_filled(self@),
    {
        let mut i: usize = 0;
        while i < self.slots.len()
            invariant
                i <= self.slots.len(),
                forall|j: int| 0 <= j < i ==> (#[trigger] self@[j]) is Some,
            decreases self.slots.len() - i,
        {
            if self.slots[i].is_none() {
                assert(self@[i as int] is None);
                return false;
            }
            i += 1;
        }
        true
    }

    /// The batch result, once every task has reported: the outcomes in task
    /// order, as many as there are tasks. Until then there is none.
    pub fn finish(self) -> (result: Option<BatchResult>)
        ensures
            match result {
                Some(batch) => {
                    &&& all_filled(self@)
                    &&& batch@ == contents(self@)
                    &&& batch@.len() == self@.len()
                    &&& in_task_order(batch@)
                },
                None => !all_filled(self@),
            },
    {
        proof {
            use_type_invariant(&self);
        }
        if !self.is_complete() {
            return None;
        }
        let ghost wanted = contents(self@);
        let mut slots = self.slots;
        let count = slots.len();
        let mut reversed: Vec<DownloadOutcome> = Vec::new();
        assert forall|j: int| 0 <= j < slots.len() implies ((#[trigger] slots@[j]) matches Some(
            outcome,
        ) && outcome@ == wanted[j]) by {
            assert(self@[j] is Some);
        }
        while slots.len() > 0
            invariant
                slots.len() + reversed.len() == count,
                count == wanted.len(),
                forall|j: int|
                    0 <= j < slots.len() ==> ((#[trigger] slots@[j]) matches Some(outcome)
                        && outcome@ == wanted[j]),
                forall|j: int|
                    0 <= j < reversed.len() ==> (#[trigger] reversed@[j])@ == wanted[count - 1 - j],
            decreases slots.len(),
        {
            let last = slots.pop();
            match last {
                Some(Some(outcome)) => {
                    reversed.push(outcome);
                },
                _ => {
                    return vstd::pervasive::unreached();
                },
            }
        }
        let mut outcomes: Vec<DownloadOutcome> = Vec::new();
        while reversed.len() > 0
            invariant
                outcomes.len() + reversed.len() == count,
                count == wanted.len(),
                forall|j: int|
                    0 <= j < reversed.len() ==> (#[trigger] reversed@[j])@ == wanted[count - 1 - j],
                forall|j: int| 0 <= j < outcomes.len() ==> (#[trigger] outcomes@[j])@ == wanted[j],
            decreases reversed.len(),
        {
            match reversed.pop() {
                Some(outcome) => {
                    outcomes.push(outcome);
                },
                None => {
                    return vstd::pervasive::unreached();
                },
            }
        }
        let batch = BatchResult { outcomes };
        assert(batch@ =~= wanted);
        Some(batch)
    }
}

/// Puts the outcomes of a batch of `task_count` tasks, handed in in the order
/// in which the tasks ended, into task order. There is a result where every
/// task has reported.
pub fn collect_outcomes(task_count: usize, reported: Vec<DownloadOutcome>) -> (result: Option<
    BatchResult,
>)
    ensures
        ({
            let slots = collected(empty_slots(task_count as nat), reported.deep_view());
            match result {
                Some(batch) => {
                    &&& all_filled(slots)
                    &&& batch@ == contents(slots)
                    &&& batch@.len() == task_count
                    &&& in_task_order(batch@)
                },
                None => !all_filled(slots),
            }
        }),
{
    let ghost all = reported.deep_view();
    let mut collector = BatchCollector::new(task_count);
    let mut rest = reported;
    let mut pending: Vec<DownloadOutcome> = Vec::new();
    while rest.len() > 0
        invariant
            rest.len() + pending.len() == all.len(),
            forall|j: int| 0 <= j < rest.len() ==> (#[trigger] rest@[j])@ == all[j],
            forall|j: int|
                0 <= j < pending.len() ==> (#[trigger] pending@[j])@ == all[all.len() - 1 - j],
        decreases rest.len(),
    {
        match rest.pop() {
            Some(outcome) => {
                pending.push(outcome);
            },
            None => {
                return vstd::pervasive::unreached();
            },
        }
    }
    let ghost mut done: int = 0;
    while pending.len() > 0
        invariant
            done + pending.len() == all.len(),
            0 <= done,
            forall|j: int|
                0 <= j < pending.len() ==> (#[trigger] pending@[j])@ == all[all.len() - 1 - j],
            collector@ == collected(empty_slots(task_count as nat), all.take(done)),
            collector@.len() == task_count,
        decreases pending.len(),
    {
        match pending.pop() {
            Some(outcome) => {
                proof {
                    assert(outcome@ == all[done]);
                    assert(all.take(done + 1).drop_last() =~= all.take(done));
                    assert(all.take(done + 1).last() == all[done]);
                }
                let next = collector.record(outcome);
                collector = next.0;
                proof {
                    done = done + 1;
                }
            },
            None => {
                return vstd::pervasive::unreached();
            },
        }
    }
    assert(all.take(done) =~= all);
    collector.finish()
}

/// Where each task is reported once, every reported outcome sits in the slot
/// of its task, and a slot is filled only by a reported outcome.
proof fn lemma_collected_slots(task_count: nat, reported: Seq<OutcomeView>, upto: int)
    requires
        reports_each_once(task_count, reported),
        0 <= upto <= reported.len(),
    ensures
        ({
            let slots = collected(empty_slots(task_count), reported.take(upto));
            &&& slots.len() == task_count
            &&& forall|k: int|
                0 <= k < upto ==> slots[(#[trigger] reported[k]).task_index as int] == Some(
                    reported[k],
                )
            &&& forall|i: int|
                0 <= i < task_count && (#[trigger] slots[i]) is Some ==> exists|k: int|
                    0 <= k < upto && (#[trigger] reported[k]).task_index == i
        }),
    decreases upto,
{
    let slots = collected(empty_slots(task_count), reported.take(upto));
    if upto > 0 {
        let before = collected(empty_slots(task_count), reported.take(upto - 1));
        let outcome = reported[upto - 1];
        lemma_collected_slots(task_count, reported, upto - 1);
        assert(reported.take(upto).drop_last() =~= reported.take(upto - 1));
        assert(reported.take(upto).last() == outcome);
        assert(slots == recorded(before, outcome));
        if before[outcome.task_index as int] is Some {
            let k = choose|k: int|
                0 <= k < upto - 1 && (#[trigger] reported[k]).task_index == outcome.task_index;
            assert(reported[k].task_index != reported[upto - 1].task_index);
        }
        assert(accepts(before, outcome));
        assert forall|k: int| 0 <= k < upto implies slots[(
        #[trigger] reported[k]).task_index as int] == Some(reported[k]) by {
            if k < upto - 1 {
                assert(reported[k].task_index != reported[upto - 1].task_index);
            }
        }
        assert forall|i: int| 0 <= i < task_count && (#[trigger] slots[i]) is Some implies exists|
            k: int,
        |
            0 <= k < upto && (#[trigger] reported[k]).task_index == i by {
            if i == outcome.task_index {
                assert(reported[upto - 1].task_index == i);
            } else {
                assert(before[i] is Some);
                let k = choose|k: int|
                    0 <= k < upto - 1 && (#[trigger] reported[k]).task_index == i;
                assert(0 <= k < upto && reported[k].task_index == i);
            }
        }
    } else {
        assert(reported.take(0) =~= Seq::<OutcomeView>::empty());
    }
}

/// Where each task is reported once, the slot of the task at `task_index`
/// holds an outcome, and it is one that was reported for that task.
proof fn lemma_slot_of_task(task_count: nat, reported: Seq<OutcomeView>, task_index: int)
    requires
        reports_each_once(task_count, reported),
        0 <= task_index < task_count,
    ensures
        ({
            let slots = collected(empty_slots(task_count), reported);
            &&& slots.len() == task_count
            &&& slots[task_index] matches Some(outcome)
            &&& outcome.task_index == task_index
            &&& reported.contains(outcome)
        }),
{
    lemma_collected_slots(task_count, reported, reported.len() as int);
    assert(reported.take(reported.len() as int) =~= reported);
    assert(reports_task(reported, task_index));
    let k = choose|k: int|
        0 <= k < reported.len() && (#[trigger] reported[k]).task_index == task_index;
    assert(reported[k].task_index as int == task_index);
}

/// The order in which the tasks end does not show in the result: where each
/// of the `task_count` tasks is reported exactly once, in whatever order,
/// every slot is filled and holds the outcome of its own task.
pub proof fn lemma_collected_in_task_order(task_count: nat, reported: Seq<OutcomeView>)
    requires
        reports_each_once(task_count, reported),
    ensures
        ({
            let slots = collected(empty_slots(task_count), reported);
            &&& slots.len() == task_count
            &&& all_filled(slots)
            &&& in_task_order(contents(slots))
            &&& forall|k: int|
                0 <= k < reported.len() ==> contents(slots)[(
                #[trigger] reported[k]).task_index as int] == reported[k]
        }),
{
    let slots = collected(empty_slots(task_count), reported);
    lemma_collected_slots(task_count, reported, reported.len() as int);
    assert(reported.take(reported.len() as int) =~= reported);
    assert forall|i: int| 0 <= i < slots.len() implies (#[trigger] slots[i]) is Some by {
        lemma_slot_of_task(task_count, reported, i);
    }
    assert forall|i: int| 0 <= i < contents(slots).len() implies (#[trigger] contents(
        slots,
    )[i]).task_index == i by {
        lemma_slot_of_task(task_count, reported, i);
    }
}

/// A batch that is planned from `urls` and whose tasks have all reported has
/// one outcome for each URL, and the outcome at each position belongs to the
/// task of the URL at that position.
pub proof fn lemma_one_outcome_per_url(
    dir: Seq<char>,
    entries: Seq<Seq<char>>,
    urls: Seq<Seq<char>>,
    slots: Seq<Option<OutcomeView>>,
)
    requires
        slots.len() == planned_batch(dir, entries, urls).len(),
        slots_match(slots),
        all_filled(slots),
    ensures
        contents(slots).len() == urls.len(),
        forall|i: int|
            0 <= i < urls.len() ==> {
                &&& (#[trigger] contents(slots)[i]).task_index == i
                &&& planned_batch(dir, entries, urls)[i].source_url == urls[i]
            },
{
    assert forall|i: int| 0 <= i < urls.len() implies (#[trigger] contents(slots)[i]).task_index
        == i by {
        assert(slots[i] is Some);
    }
}

/// A whole batch, from URLs to result. The batch is planned from `urls`; the
/// worker of each task runs over the events of its own transfer, `events[i]`
/// for the task at position `i`, to its end; and the outcomes are handed in
/// once each, in whatever order the tasks end. Then the result holds one
/// outcome for each URL, and the outcome at each position is the one that
/// the worker of the task for that URL ended with. It depends on the events
/// of that task alone: no other task's failure shows in it.
pub proof fn lemma_batch_of_finished_runs(
    dir: Seq<char>,
    entries: Seq<Seq<char>>,
    urls: Seq<Seq<char>>,
    events: Seq<Seq<FetchEventView>>,
    reported: Seq<OutcomeView>,
)
    requires
        urls.len() <= usize::MAX,
        events.len() == urls.len(),
        reports_each_once(urls.len(), reported),
        forall|i: int|
            0 <= i < urls.len() ==> (#[trigger] run_of(
                i as usize,
                planned_batch(dir, entries, urls)[i],
                events[i],
            )).fits,
        forall|k: int|
            0 <= k < reported.len() ==> run_of(
                (#[trigger] reported[k]).task_index,
                planned_batch(dir, entries, urls)[reported[k].task_index as int],
                events[reported[k].task_index as int],
            ).outcome() == Some(reported[k]),
    ensures
        ({
            let tasks = planned_batch(dir, entries, urls);
            let slots = collected(empty_slots(urls.len()), reported);
            &&& all_filled(slots)
            &&& contents(slots).len() == urls.len()
            &&& forall|i: int|
                0 <= i < urls.len() ==> {
                    &&& tasks[i].source_url == urls[i]
                    &&& (#[trigger] contents(slots)[i]).task_index == i
                    &&& run_of(i as usize, tasks[i], events[i]).outcome() == Some(
                        contents(slots)[i],
                    )
                }
        }),
{
    let tasks = planned_batch(dir, entries, urls);
    let slots = collected(empty_slots(urls.len()), reported);
    lemma_collected_in_task_order(urls.len(), reported);
    assert forall|i: int| 0 <= i < urls.len() implies {
        &&& tasks[i].source_url == urls[i]
        &&& (#[trigger] contents(slots)[i]).task_index == i
        &&& run_of(i as usize, tasks[i], events[i]).outcome() == Some(contents(slots)[i])
    } by {
        lemma_slot_of_task(urls.len(), reported, i);
        let outcome = slots[i]->0;
        let k = choose|k: int| 0 <= k < reported.len() && reported[k] == outcome;
        assert(reported[k].task_index as int == i);
    }
}

} // verus!
