use vstd::prelude::*;
use crate::naming::{file_name_of, lemma_file_name_injective, NamingCounter};
use crate::plan::{cap_of, concurrency_cap, group_end, group_start};

verus! {

/// What the driver of a batch must do next.
#[derive(Debug, Clone, Copy, PartialEq, Eq, Structural)]
pub enum Step {
    /// Start one worker that downloads task `task` into the file numbered `file_number`.
    Spawn { task: usize, file_number: u64 },
    /// Wait for every worker of the current group, then report with `group_joined`.
    JoinGroup,
    /// Every task was downloaded.
    Finished,
    /// A download failed: no further group is started.
    Failed,
}

/// The decisions of a batch download: which task starts next, under which file
/// number, and when the current group has to be drained before the next one.
///
/// Tasks are started in input order, in consecutive groups of at most `cap`
/// tasks; a group is joined completely before the next one starts. File numbers
/// come from a counter that starts at 0 for each batch.
pub struct BatchCoordinator {
    total: usize,
    cap: usize,
    dispatched: usize,
    in_flight: usize,
    failed: bool,
    counter: NamingCounter,
    numbers: Ghost<Seq<nat>>,
}

impl BatchCoordinator {
    /// Number of tasks in the batch.
    pub closed spec fn spec_total(&self) -> nat {
        self.total as nat
    }

    /// Largest number of tasks in flight at once.
    pub closed spec fn spec_cap(&self) -> nat {
        self.cap as nat
    }

    /// Number of tasks started so far; they are the tasks `0 .. dispatched`.
    pub closed spec fn spec_dispatched(&self) -> nat {
        self.dispatched as nat
    }

    /// Number of tasks of the current group started and not yet joined.
    pub closed spec fn spec_in_flight(&self) -> nat {
        self.in_flight as nat
    }

    /// Whether a joined group reported a failure.
    pub closed spec fn spec_failed(&self) -> bool {
        self.failed
    }

    /// The file numbers handed out so far, in the order of the tasks.
    pub closed spec fn spec_numbers(&self) -> Seq<nat> {
        self.numbers@
    }

    /// The destination file names handed out so far, in the order of the tasks.
    pub open spec fn spec_names(&self, ext: Seq<char>) -> Seq<Seq<char>> {
        self.spec_numbers().map_values(|n: nat| file_name_of(n, ext))
    }

    /// The coordinator's invariant.
    pub closed spec fn wf(&self) -> bool {
        &&& self.cap <= self.total
        &&& (self.cap == 0 <==> self.total == 0)
        &&& self.dispatched <= self.total
        &&& self.in_flight <= self.cap
        &&& self.in_flight <= self.dispatched
        &&& (self.cap > 0 ==> (self.dispatched - self.in_flight) as nat % self.cap as nat == 0 || (
        self.in_flight == 0 && self.dispatched == self.total))
        &&& self.counter.value() == self.dispatched as nat
        &&& self.numbers@.len() == self.dispatched as nat
        &&& forall|i: int| 0 <= i < self.numbers@.len() ==> #[trigger] self.numbers@[i] == i + 1
    }

    /// A coordinator for a batch of `total` tasks with at most `maximum` in flight.
    pub fn new(total: usize, maximum: usize) -> (r: BatchCoordinator)
        requires
            maximum > 0,
        ensures
            r.wf(),
            r.spec_total() == total as nat,
            r.spec_cap() == cap_of(maximum as nat, total as nat),
            r.spec_dispatched() == 0,
            r.spec_in_flight() == 0,
            !r.spec_failed(),
            r.spec_numbers() == Seq::<nat>::empty(),
    {
        let cap = concurrency_cap(maximum, total);
        let r = BatchCoordinator {
            total,
            cap,
            dispatched: 0,
            in_flight: 0,
            failed: false,
            counter: NamingCounter::new(),
            numbers: Ghost(Seq::empty()),
        };
        assert(r.cap > 0 ==> 0nat % (r.cap as nat) == 0);
        assert(r.numbers@.len() == 0);
        r
    }

    /// Number of tasks in the batch.
    pub fn total(&self) -> (r: usize)
        ensures
            r as nat == self.spec_total(),
    {
        self.total
    }

    /// Largest number of tasks in flight at once.
    pub fn cap(&self) -> (r: usize)
        ensures
            r as nat == self.spec_cap(),
    {
        self.cap
    }

    /// Number of tasks started so far.
    pub fn dispatched(&self) -> (r: usize)
        ensures
            r as nat == self.spec_dispatched(),
    {
        self.dispatched
    }

    /// Number of started tasks of the current group not yet joined.
    pub fn in_flight(&self) -> (r: usize)
        ensures
            r as nat == self.spec_in_flight(),
    {
        self.in_flight
    }

    /// Whether a joined group reported a failure.
    pub fn failed(&self) -> (r: bool)
        ensures
            r == self.spec_failed(),
    {
        self.failed
    }

    /// Decides the next step and, for `Spawn`, records the task as started.
    pub fn next_step(&mut self) -> (r: Step)
        requires
            old(self).wf(),
        ensures
            final(self).wf(),
            final(self).spec_total() == old(self).spec_total(),
            final(self).spec_cap() == old(self).spec_cap(),
            final(self).spec_failed() == old(self).spec_failed(),
            old(self).spec_failed() ==> r == Step::Failed && *final(self) == *old(self),
            !old(self).spec_failed() && old(self).spec_in_flight() > 0 && (
            old(self).spec_in_flight() == old(self).spec_cap() || old(self).spec_dispatched()
                == old(self).spec_total()) ==> r == Step::JoinGroup && *final(self) == *old(self),
            !old(self).spec_failed() && old(self).spec_in_flight() == 0
                && old(self).spec_dispatched() == old(self).spec_total() ==> r == Step::Finished
                && *final(self) == *old(self),
            !old(self).spec_failed() && old(self).spec_dispatched() < old(self).spec_total()
                && old(self).spec_in_flight() < old(self).spec_cap() ==> ({
                &&& r matches Step::Spawn { task, file_number }
                &&& task as nat == old(self).spec_dispatched()
                &&& file_number as nat == old(self).spec_dispatched() + 1
                &&& final(self).spec_dispatched() == old(self).spec_dispatched() + 1
                &&& final(self).spec_in_flight() == old(self).spec_in_flight() + 1
                &&& final(self).spec_numbers() == old(self).spec_numbers().push(
                    file_number as nat,
                )
            }),
    {
        if self.failed {
            Step::Failed
        } else if self.in_flight > 0 && (self.in_flight == self.cap || self.dispatched
            == self.total) {
            Step::JoinGroup
        } else if self.dispatched == self.total {
            Step::Finished
        } else {
            let task = self.dispatched;
            assert(usize::MAX <= u64::MAX);
            let file_number = self.counter.claim();
            self.dispatched = self.dispatched + 1;
            self.in_flight = self.in_flight + 1;
            proof {
                self.numbers@ = self.numbers@.push(file_number as nat);
            }
            Step::Spawn { task, file_number }
        }
    }

    /// Records that every worker of the current group has finished, and
    /// whether all of them succeeded.
    pub fn group_joined(&mut self, all_ok: bool)
        requires
            old(self).wf(),
            old(self).spec_in_flight() == old(self).spec_cap() || old(self).spec_dispatched()
                == old(self).spec_total(),
        ensures
            final(self).wf(),
            final(self).spec_in_flight() == 0,
            final(self).spec_failed() == (old(self).spec_failed() || !all_ok),
            final(self).spec_total() == old(self).spec_total(),
            final(self).spec_cap() == old(self).spec_cap(),
            final(self).spec_dispatched() == old(self).spec_dispatched(),
            final(self).spec_numbers() == old(self).spec_numbers(),
    {
        proof {
            if self.in_flight == self.cap && self.cap > 0 {
                let x = (self.dispatched - self.in_flight) as int;
                let c = self.cap as int;
                assert((x + c) % c == x % c) by (nonlinear_arith)
                    requires
                        c > 0,
                        x >= 0,
                ;
            }
        }
        self.in_flight = 0;
        if !all_ok {
            self.failed = true;
        }
    }
}

/// No more tasks than the cap are ever in flight at once.
pub proof fn lemma_cap_respected(c: &BatchCoordinator)
    requires
        c.wf(),
    ensures
        c.spec_in_flight() <= c.spec_cap(),
        c.spec_cap() <= c.spec_total(),
        c.spec_cap() == 0 ==> c.spec_total() == 0,
{
}

/// The file numbers handed out are `1, 2, ..., dispatched`.
pub proof fn lemma_numbers_are_a_range(c: &BatchCoordinator)
    requires
        c.wf(),
    ensures
        c.spec_numbers().len() == c.spec_dispatched(),
        forall|i: int| 0 <= i < c.spec_dispatched() ==> #[trigger] c.spec_numbers()[i] == i + 1,
{
}

/// Every started task has a destination file of its own: the names handed out
/// are as many as the tasks started, and no two are equal.
pub proof fn lemma_names_distinct(c: &BatchCoordinator, ext: Seq<char>)
    requires
        c.wf(),
    ensures
        c.spec_names(ext).len() == c.spec_dispatched(),
        c.spec_names(ext).no_duplicates(),
{
    let names = c.spec_names(ext);
    assert forall|i: int, j: int| 0 <= i < names.len() && 0 <= j < names.len() && i != j implies
        names[i] != names[j] by {
        assert(c.spec_numbers()[i] == i + 1);
        assert(c.spec_numbers()[j] == j + 1);
        if names[i] == names[j] {
            lemma_file_name_injective(c.spec_numbers()[i], c.spec_numbers()[j], ext);
        }
    }
}

/// The file numbers do not outlive a batch: two batches of the same size, each
/// run to its end from a fresh coordinator, write the same file names.
pub proof fn lemma_fresh_runs_agree(a: &BatchCoordinator, b: &BatchCoordinator, ext: Seq<char>)
    requires
        a.wf(),
        b.wf(),
        a.spec_total() == b.spec_total(),
        a.spec_dispatched() == a.spec_total(),
        b.spec_dispatched() == b.spec_total(),
    ensures
        a.spec_numbers() == b.spec_numbers(),
        a.spec_names(ext) == b.spec_names(ext),
{
    assert(a.spec_numbers() =~= b.spec_numbers());
}

/// The tasks in flight are the tasks `[group_start(g), dispatched)` of one
/// group `g` of the partition of the batch, in input order.
pub proof fn lemma_in_flight_is_one_group(c: &BatchCoordinator)
    requires
        c.wf(),
        c.spec_in_flight() > 0,
    ensures
        ({
            let g = ((c.spec_dispatched() - c.spec_in_flight()) as nat / c.spec_cap()) as nat;
            &&& group_start(c.spec_cap(), g) == c.spec_dispatched() - c.spec_in_flight()
            &&& c.spec_dispatched() <= group_end(c.spec_total(), c.spec_cap(), g)
        }),
{
    let x = (c.spec_dispatched() - c.spec_in_flight()) as nat;
    let k = c.spec_cap();
    let g = x / k;
    assert(g * k == x) by (nonlinear_arith)
        requires
            k > 0,
            x % k == 0,
            g == x / k,
    ;
    assert((g + 1) * k == g * k + k) by (nonlinear_arith);
}

} // verus!
