//! The schedule that runs a simulation for a fixed number of steps.
//!
//! The driver makes the decisions only: the caller performs each action it
//! is handed (advance the universe by one step, or emit the current state)
//! and asks for the next one, until the driver answers `Finish`.
use vstd::prelude::*;

verus! {

/// What the caller has to do next.
#[derive(Clone, Copy, Debug, PartialEq, Eq, Structural)]
pub enum Action {
    /// Emit a snapshot of the current state.
    Emit,
    /// Advance the universe by one time step.
    Step,
    /// The run is over; nothing more is to be done.
    Finish,
}

/// The driver as a mathematical value.
pub struct DriverView {
    /// Number of steps the run is made of.
    pub total: nat,
    /// Number of steps taken so far.
    pub done: nat,
    /// Whether the state after `done` steps has been emitted.
    pub shown: bool,
}

impl DriverView {
    /// The driver of a run of `total` steps before its first action.
    pub open spec fn start(total: nat) -> DriverView {
        DriverView { total, done: 0, shown: false }
    }

    /// No more steps have been taken than the run is made of.
    pub open spec fn wf(self) -> bool {
        self.done <= self.total
    }

    /// Snapshots emitted so far.
    pub open spec fn snapshots(self) -> nat {
        if self.shown { self.done + 1 } else { self.done }
    }

    /// Whether every step has been taken and every snapshot emitted.
    pub open spec fn finished(self) -> bool {
        self.done == self.total && self.shown
    }

    /// The action chosen in this state, and the state that follows it.
    pub open spec fn next(self) -> (DriverView, Action) {
        if !self.shown {
            (DriverView { shown: true, ..self }, Action::Emit)
        } else if self.done < self.total {
            (DriverView { done: self.done + 1, shown: false, ..self }, Action::Step)
        } else {
            (self, Action::Finish)
        }
    }

    /// The state after `k` actions.
    pub open spec fn after(self, k: nat) -> DriverView
        decreases k,
    {
        if k == 0 {
            self
        } else {
            self.after((k - 1) as nat).next().0
        }
    }

    /// The first `k` actions, in order.
    pub open spec fn actions(self, k: nat) -> Seq<Action>
        decreases k,
    {
        if k == 0 {
            Seq::empty()
        } else {
            self.actions((k - 1) as nat).push(self.after((k - 1) as nat).next().1)
        }
    }
}

/// The actions of a run of `n` steps up to its last snapshot: the initial
/// snapshot, then a step and a snapshot, `n` times.
pub open spec fn schedule(n: nat) -> Seq<Action>
    decreases n,
{
    if n == 0 {
        seq![Action::Emit]
    } else {
        schedule((n - 1) as nat).push(Action::Step).push(Action::Emit)
    }
}

/// How often `a` occurs in `s`.
pub open spec fn count(s: Seq<Action>, a: Action) -> nat
    decreases s.len(),
{
    if s.len() == 0 {
        0
    } else {
        count(s.drop_last(), a) + if s.last() == a { 1nat } else { 0nat }
    }
}

/// After `2m + 1` actions, `m` steps have been taken and the state they
/// led to has been emitted.
proof fn lemma_prefix(n: nat, m: nat)
    requires
        m <= n,
    ensures
        DriverView::start(n).after(2 * m + 1) == (DriverView { total: n, done: m, shown: true }),
        DriverView::start(n).actions(2 * m + 1) == schedule(m),
    decreases m,
{
    let s = DriverView::start(n);
    if m == 0 {
        assert(s.actions(0) == Seq::<Action>::empty());
        assert(s.after(0) == s);
        assert(s.actions(1) =~= seq![Action::Emit]);
    } else {
        lemma_prefix(n, (m - 1) as nat);
        let k = (2 * m - 1) as nat;
        assert(2 * ((m - 1) as nat) + 1 == k);
        assert(s.after(k).next().1 == Action::Step);
        assert(s.after(k + 1) == (DriverView { total: n, done: m, shown: false }));
        assert(s.after(k + 1).next().1 == Action::Emit);
        assert(s.actions(k + 1) == s.actions(k).push(Action::Step));
        assert(s.actions(k + 2) == s.actions(k + 1).push(Action::Emit));
        assert(2 * m + 1 == k + 2);
    }
}

proof fn lemma_count_push(s: Seq<Action>, x: Action, a: Action)
    ensures
        count(s.push(x), a) == count(s, a) + if x == a { 1nat } else { 0nat },
{
    assert(s.push(x).drop_last() =~= s);
}

proof fn lemma_schedule_counts(n: nat)
    ensures
        count(schedule(n), Action::Emit) == n + 1,
        count(schedule(n), Action::Step) == n,
        count(schedule(n), Action::Finish) == 0,
    decreases n,
{
    if n == 0 {
        let e = Seq::<Action>::empty();
        assert(seq![Action::Emit] =~= e.push(Action::Emit));
        assert(count(e, Action::Emit) == 0);
        assert(count(e, Action::Step) == 0);
        assert(count(e, Action::Finish) == 0);
        lemma_count_push(e, Action::Emit, Action::Emit);
        lemma_count_push(e, Action::Emit, Action::Step);
        lemma_count_push(e, Action::Emit, Action::Finish);
    } else {
        let p = schedule((n - 1) as nat);
        lemma_schedule_counts((n - 1) as nat);
        lemma_count_push(p, Action::Step, Action::Emit);
        lemma_count_push(p, Action::Step, Action::Step);
        lemma_count_push(p, Action::Step, Action::Finish);
        lemma_count_push(p.push(Action::Step), Action::Emit, Action::Emit);
        lemma_count_push(p.push(Action::Step), Action::Emit, Action::Step);
        lemma_count_push(p.push(Action::Step), Action::Emit, Action::Finish);
    }
}

/// A run of `n` steps begins with the initial snapshot and then takes one
/// step and emits one snapshot, `n` times: `n` steps and `n + 1` snapshots,
/// with no `Finish` among them. The driver is then finished and its next
/// action is `Finish`.
pub proof fn lemma_run(n: nat)
    ensures
        DriverView::start(n).actions(2 * n + 1) == schedule(n),
        count(schedule(n), Action::Step) == n,
        count(schedule(n), Action::Emit) == n + 1,
        count(schedule(n), Action::Finish) == 0,
        DriverView::start(n).after(2 * n + 1).finished(),
        DriverView::start(n).after(2 * n + 1).snapshots() == n + 1,
        DriverView::start(n).after(2 * n + 1).next().1 == Action::Finish,
{
    lemma_prefix(n, n);
    lemma_schedule_counts(n);
}

/// Once finished, a driver stays as it is and answers `Finish` to every call.
pub proof fn lemma_finished_stays(s: DriverView, k: nat)
    requires
        s.finished(),
    ensures
        s.after(k) == s,
        forall|i: int| 0 <= i < k ==> #[trigger] s.actions(k)[i] == Action::Finish,
        s.actions(k).len() == k,
    decreases k,
{
    if k > 0 {
        lemma_finished_stays(s, (k - 1) as nat);
    }
}

/// Decides, one action at a time, how a run of a fixed number of steps proceeds.
pub struct Driver {
    total: u64,
    done: u64,
    shown: bool,
}

impl View for Driver {
    type V = DriverView;

    closed spec fn view(&self) -> DriverView {
        DriverView { total: self.total as nat, done: self.done as nat, shown: self.shown }
    }
}

impl Driver {
    #[verifier::type_invariant]
    spec fn inv(self) -> bool {
        self.done <= self.total
    }

    /// A driver for a run of `total_steps` steps.
    pub fn new(total_steps: u64) -> (d: Driver)
        ensures
            d@ == DriverView::start(total_steps as nat),
            d@.wf(),
    {
        Driver { total: total_steps, done: 0, shown: false }
    }

    /// Decides the next action and records it as done.
    pub fn next(&mut self) -> (a: Action)
        ensures
            old(self)@.wf(),
            final(self)@.wf(),
            (final(self)@, a) == old(self)@.next(),
    {
        proof {
            use_type_invariant(&*self);
        }
        if !self.shown {
            self.shown = true;
            Action::Emit
        } else if self.done < self.total {
            self.done = self.done + 1;
            self.shown = false;
            Action::Step
        } else {
            Action::Finish
        }
    }

    /// Number of steps the run is made of.
    pub fn total_steps(&self) -> (r: u64)
        ensures
            r as nat == self@.total,
    {
        self.total
    }

    /// Number of steps taken so far.
    pub fn steps_done(&self) -> (r: u64)
        ensures
            r as nat == self@.done,
    {
        self.done
    }

    /// Whether every step has been taken and every snapshot emitted.
    pub fn is_finished(&self) -> (r: bool)
        ensures
            r == self@.finished(),
    {
        self.done == self.total && self.shown
    }
}

} // verus!
