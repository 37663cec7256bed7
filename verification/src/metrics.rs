//! Counters, durations and visit counts aggregated over the firings of a
//! machine.

use vstd::arithmetic::div_mod::lemma_fundamental_div_mod_converse;
use vstd::prelude::*;
use vstd::string::StringExecFns;

verus! {

/// How often a state, named by its label, was the destination of a
/// successful firing.
#[derive(Debug, Clone)]
pub struct VisitCount {
    pub label: String,
    pub count: u64,
}

/// The aggregate of all firings of one machine. Durations are kept in
/// nanoseconds, one entry per firing, oldest first.
#[derive(Debug, Clone)]
pub struct StateMachineMetrics {
    pub total_transitions: u64,
    pub successful_transitions: u64,
    pub failed_transitions: u64,
    pub transition_durations: Vec<u128>,
    pub state_visit_counts: Vec<VisitCount>,
}

/// What a metrics aggregate stands for.
pub ghost struct MetricsView {
    pub total: nat,
    pub succeeded: nat,
    pub failed: nat,
    pub durations: Seq<u128>,
    pub visits: Map<Seq<char>, nat>,
}

/// The visit counts as a map from label to count.
pub open spec fn tally(entries: Seq<VisitCount>) -> Map<Seq<char>, nat>
    decreases entries.len(),
{
    if entries.len() == 0 {
        Map::empty()
    } else {
        tally(entries.drop_last()).insert(entries.last().label@, entries.last().count as nat)
    }
}

/// No label has two entries.
pub open spec fn distinct_labels(entries: Seq<VisitCount>) -> bool {
    forall|i: int, j: int|
        0 <= i < j < entries.len() ==> entries[i].label@ != entries[j].label@
}

/// The sum of a series of durations.
pub open spec fn total_nanos(durations: Seq<u128>) -> nat
    decreases durations.len(),
{
    if durations.len() == 0 {
        0
    } else {
        total_nanos(durations.drop_last()) + durations.last() as nat
    }
}

/// The count recorded for a label, zero where it has none.
pub open spec fn visits_of(visits: Map<Seq<char>, nat>, label: Seq<char>) -> nat {
    if visits.contains_key(label) {
        visits[label]
    } else {
        0
    }
}

/// The aggregate after one more successful firing that took `elapsed`
/// nanoseconds and reached the state labelled `label`.
pub open spec fn counted_success(before: MetricsView, label: Seq<char>, elapsed: u128) -> MetricsView {
    MetricsView {
        total: before.total + 1,
        succeeded: before.succeeded + 1,
        failed: before.failed,
        durations: before.durations.push(elapsed),
        visits: before.visits.insert(label, visits_of(before.visits, label) + 1),
    }
}

/// The aggregate after one more failed firing that took `elapsed`
/// nanoseconds.
pub open spec fn counted_failure(before: MetricsView, elapsed: u128) -> MetricsView {
    MetricsView {
        total: before.total + 1,
        succeeded: before.succeeded,
        failed: before.failed + 1,
        durations: before.durations.push(elapsed),
        visits: before.visits,
    }
}

proof fn lemma_tally_entries(entries: Seq<VisitCount>)
    requires
        distinct_labels(entries),
    ensures
        forall|i: int|
            0 <= i < entries.len() ==> tally(entries).contains_key(#[trigger] entries[i].label@)
                && tally(entries)[entries[i].label@] == entries[i].count,
        forall|label: Seq<char>| #[trigger]
            tally(entries).contains_key(label) ==> exists|i: int|
                0 <= i < entries.len() && entries[i].label@ == label,
    decreases entries.len(),
{
    if entries.len() > 0 {
        let front = entries.drop_last();
        lemma_tally_entries(front);
        assert forall|i: int| 0 <= i < entries.len() implies tally(entries).contains_key(
            #[trigger] entries[i].label@,
        ) && tally(entries)[entries[i].label@] == entries[i].count by {
            if i < entries.len() - 1 {
                assert(front[i] == entries[i]);
            }
        }
        assert forall|label: Seq<char>| #[trigger]
            tally(entries).contains_key(label) implies exists|i: int|
            0 <= i < entries.len() && entries[i].label@ == label by {
            if label == entries.last().label@ {
                assert(entries[entries.len() - 1].label@ == label);
            } else {
                assert(tally(front).contains_key(label));
                let i = choose|i: int| 0 <= i < front.len() && front[i].label@ == label;
                assert(entries[i].label@ == label);
            }
        }
    }
}

proof fn lemma_tally_update(entries: Seq<VisitCount>, at: int, entry: VisitCount)
    requires
        distinct_labels(entries),
        0 <= at < entries.len(),
        entry.label@ == entries[at].label@,
    ensures
        distinct_labels(entries.update(at, entry)),
        tally(entries.update(at, entry)) == tally(entries).insert(entry.label@, entry.count as nat),
    decreases entries.len(),
{
    let updated = entries.update(at, entry);
    let front = entries.drop_last();
    if at == entries.len() - 1 {
        assert(updated.drop_last() =~= front);
        assert(tally(updated) =~= tally(entries).insert(entry.label@, entry.count as nat));
    } else {
        lemma_tally_update(front, at, entry);
        assert(updated.drop_last() =~= front.update(at, entry));
        assert(updated.last() == entries.last());
        assert(entries[at].label@ != entries[entries.len() - 1].label@);
        assert(tally(updated) =~= tally(entries).insert(entry.label@, entry.count as nat));
    }
}

proof fn lemma_total_nanos_bound(durations: Seq<u128>)
    ensures
        total_nanos(durations) <= durations.len() * u128::MAX,
    decreases durations.len(),
{
    if durations.len() > 0 {
        lemma_total_nanos_bound(durations.drop_last());
        assert((durations.len() - 1) * u128::MAX + u128::MAX == durations.len() * u128::MAX)
            by (nonlinear_arith);
    }
}

impl View for StateMachineMetrics {
    type V = MetricsView;

    open spec fn view(&self) -> MetricsView {
        MetricsView {
            total: self.total_transitions as nat,
            succeeded: self.successful_transitions as nat,
            failed: self.failed_transitions as nat,
            durations: self.transition_durations@,
            visits: tally(self.state_visit_counts@),
        }
    }
}

impl StateMachineMetrics {
    /// Every firing is counted once, as a success or as a failure, and has
    /// one duration; no label has two visit entries, and no state was
    /// visited more often than firings succeeded.
    pub open spec fn wf(&self) -> bool {
        &&& self.successful_transitions + self.failed_transitions == self.total_transitions
        &&& self.transition_durations@.len() == self.total_transitions
        &&& distinct_labels(self.state_visit_counts@)
        &&& forall|i: int|
            0 <= i < self.state_visit_counts@.len() ==> (
            #[trigger] self.state_visit_counts@[i]).count <= self.successful_transitions
    }

    /// What the aggregate of no firing at all stands for.
    pub open spec fn nothing() -> MetricsView {
        MetricsView {
            total: 0,
            succeeded: 0,
            failed: 0,
            durations: Seq::empty(),
            visits: Map::empty(),
        }
    }

    /// The aggregate of no firing at all.
    pub fn new() -> (metrics: Self)
        ensures
            metrics.wf(),
            metrics@ == Self::nothing(),
    {
        StateMachineMetrics {
            total_transitions: 0,
            successful_transitions: 0,
            failed_transitions: 0,
            transition_durations: Vec::new(),
            state_visit_counts: Vec::new(),
        }
    }

    /// The arithmetic mean of the recorded durations, rounded down to a whole
    /// nanosecond; absent when none is recorded.
    pub fn average_transition_time(&self) -> (mean: Option<u128>)
        ensures
            match mean {
                None => self@.durations.len() == 0,
                Some(nanos) => self@.durations.len() > 0 && nanos == total_nanos(self@.durations)
                    / self@.durations.len(),
            },
    {
        let count: usize = self.transition_durations.len();
        if count == 0 {
            return None;
        }
        let divisor: u128 = count as u128;
        let mut quotient: u128 = 0;
        let mut rest: u128 = 0;
        let mut i: usize = 0;
        while i < count
            invariant
                count == self.transition_durations@.len(),
                divisor == count,
                0 < count,
                0 <= i <= count,
                rest < divisor,
                quotient * divisor + rest == total_nanos(self.transition_durations@.take(i as int)),
            decreases count - i,
        {
            let duration: u128 = self.transition_durations[i];
            let ghost before = self.transition_durations@.take(i as int);
            let ghost after = self.transition_durations@.take(i + 1);
            proof {
                assert(after.drop_last() =~= before);
                assert(after.last() == duration);
                lemma_total_nanos_bound(after);
                assert(total_nanos(after) == total_nanos(before) + duration);
            }
            let whole: u128 = duration / divisor;
            let part: u128 = duration % divisor;
            let ghost target = total_nanos(after) as int;
            let ghost cap = u128::MAX as int;
            proof {
                assert(duration == whole * divisor + part && part < divisor) by (nonlinear_arith)
                    requires
                        whole == duration / divisor,
                        part == duration % divisor,
                        divisor > 0,
                ;
                assert((quotient + whole) * divisor + (rest + part) == target) by (nonlinear_arith)
                    requires
                        quotient * divisor + rest == target - duration,
                        duration == whole * divisor + part,
                ;
                assert(target <= divisor * cap) by (nonlinear_arith)
                    requires
                        target <= after.len() * cap,
                        after.len() <= divisor,
                        cap >= 0,
                ;
            }
            let carried: u128 = rest + part;
            if carried >= divisor {
                proof {
                    assert(quotient + whole + 1 <= cap) by (nonlinear_arith)
                        requires
                            (quotient + whole) * divisor + carried == target,
                            carried >= divisor,
                            target <= divisor * cap,
                            divisor > 0,
                    ;
                    assert((quotient + whole + 1) * divisor + (carried - divisor) == target)
                        by (nonlinear_arith)
                        requires
                            (quotient + whole) * divisor + carried == target,
                    ;
                }
                quotient = quotient + whole + 1;
                rest = carried - divisor;
            } else {
                proof {
                    assert(quotient + whole <= cap) by (nonlinear_arith)
                        requires
                            (quotient + whole) * divisor + carried == target,
                            carried >= 0,
                            target <= divisor * cap,
                            divisor > 0,
                    ;
                }
                quotient = quotient + whole;
                rest = carried;
            }
            i = i + 1;
        }
        proof {
            assert(self.transition_durations@.take(count as int) =~= self.transition_durations@);
            lemma_fundamental_div_mod_converse(
                total_nanos(self.transition_durations@) as int,
                divisor as int,
                quotient as int,
                rest as int,
            );
        }
        Some(quotient)
    }

    /// The share of firings that succeeded, as numerator and denominator:
    /// zero over one before the first firing, then successes over firings.
    pub fn success_rate(&self) -> (ratio: (u64, u64))
        ensures
            self@.total == 0 ==> ratio == (0u64, 1u64),
            self@.total != 0 ==> ratio == (self.successful_transitions, self.total_transitions),
    {
        if self.total_transitions == 0 {
            (0, 1)
        } else {
            (self.successful_transitions, self.total_transitions)
        }
    }

    /// Where the entry of a label stands.
    fn position_of(&self, label: &String) -> (at: Option<usize>)
        ensures
            match at {
                Some(i) => i < self.state_visit_counts@.len() && self.state_visit_counts@[i as int].label@
                    == label@,
                None => forall|i: int|
                    0 <= i < self.state_visit_counts@.len() ==> self.state_visit_counts@[i].label@
                        != label@,
            },
    {
        let mut i: usize = 0;
        while i < self.state_visit_counts.len()
            invariant
                0 <= i <= self.state_visit_counts@.len(),
                forall|k: int| 0 <= k < i ==> self.state_visit_counts@[k].label@ != label@,
            decreases self.state_visit_counts@.len() - i,
        {
            if self.state_visit_counts[i].label == *label {
                return Some(i);
            }
            i = i + 1;
        }
        None
    }

    /// How often the state with this label was reached.
    pub fn visit_count(&self, label: &str) -> (count: u64)
        requires
            self.wf(),
        ensures
            count == visits_of(self@.visits, label@),
    {
        let wanted = String::from_str(label);
        proof {
            lemma_tally_entries(self.state_visit_counts@);
        }
        match self.position_of(&wanted) {
            Some(i) => self.state_visit_counts[i].count,
            None => 0,
        }
    }

    /// Counts one successful firing that took `elapsed` nanoseconds and
    /// reached the state labelled `label`.
    pub fn record_success(&mut self, label: String, elapsed: u128)
        requires
            old(self).wf(),
        ensures
            final(self).wf(),
            final(self)@ == counted_success(old(self)@, label@, elapsed),
    {
        self.transition_durations.push(elapsed);
        let recorded: usize = self.transition_durations.len();
        assert(self.total_transitions + 1 == recorded);
        self.total_transitions = self.total_transitions + 1;
        self.successful_transitions = self.successful_transitions + 1;
        let ghost entries = self.state_visit_counts@;
        proof {
            lemma_tally_entries(entries);
        }
        match self.position_of(&label) {
            Some(i) => {
                let count: u64 = self.state_visit_counts[i].count;
                let entry = VisitCount { label, count: count + 1 };
                proof {
                    lemma_tally_update(entries, i as int, entry);
                }
                self.state_visit_counts.set(i, entry);
            },
            None => {
                let entry = VisitCount { label, count: 1 };
                self.state_visit_counts.push(entry);
                assert(self.state_visit_counts@.drop_last() =~= entries);
            },
        }
    }

    /// Counts one failed firing that took `elapsed` nanoseconds.
    pub fn record_failure(&mut self, elapsed: u128)
        requires
            old(self).wf(),
        ensures
            final(self).wf(),
            final(self)@ == counted_failure(old(self)@, elapsed),
    {
        self.transition_durations.push(elapsed);
        let recorded: usize = self.transition_durations.len();
        assert(self.total_transitions + 1 == recorded);
        self.total_transitions = self.total_transitions + 1;
        self.failed_transitions = self.failed_transitions + 1;
    }

    /// A copy of the aggregate as it stands.
    pub fn snapshot(&self) -> (copy: Self)
        ensures
            copy@ == self@,
            copy.wf() == self.wf(),
            copy.total_transitions == self.total_transitions,
            copy.successful_transitions == self.successful_transitions,
            copy.failed_transitions == self.failed_transitions,
            copy.transition_durations@ == self.transition_durations@,
            copy.state_visit_counts@ == self.state_visit_counts@,
    {
        let mut durations: Vec<u128> = Vec::new();
        let mut i: usize = 0;
        while i < self.transition_durations.len()
            invariant
                0 <= i <= self.transition_durations@.len(),
                durations@ == self.transition_durations@.take(i as int),
            decreases self.transition_durations@.len() - i,
        {
            durations.push(self.transition_durations[i]);
            assert(self.transition_durations@.take(i + 1) =~= self.transition_durations@.take(
                i as int,
            ).push(self.transition_durations@[i as int]));
            i = i + 1;
        }
        assert(self.transition_durations@.take(i as int) =~= self.transition_durations@);
        let mut visits: Vec<VisitCount> = Vec::new();
        let mut j: usize = 0;
        while j < self.state_visit_counts.len()
            invariant
                0 <= j <= self.state_visit_counts@.len(),
                visits@ == self.state_visit_counts@.take(j as int),
            decreases self.state_visit_counts@.len() - j,
        {
            let entry = VisitCount {
                label: self.state_visit_counts[j].label.clone(),
                count: self.state_visit_counts[j].count,
            };
            visits.push(entry);
            assert(self.state_visit_counts@.take(j + 1) =~= self.state_visit_counts@.take(
                j as int,
            ).push(self.state_visit_counts@[j as int]));
            j = j + 1;
        }
        assert(self.state_visit_counts@.take(j as int) =~= self.state_visit_counts@);
        StateMachineMetrics {
            total_transitions: self.total_transitions,
            successful_transitions: self.successful_transitions,
            failed_transitions: self.failed_transitions,
            transition_durations: durations,
            state_visit_counts: visits,
        }
    }
}

} // verus!
