//! The order in which the backward-induction solver visits periods.
//!
//! For a game of `n` periods the solver searches a fixed point at every
//! non-terminal period `p`, in rounds: forward-step `p` into `p + 1`, solve
//! the periods from `p + 1` on, refine the policy of `p` from the marginal
//! values of `p + 1`; once the refinement reports convergence, compute the
//! marginal values of `p` and return them one level up. The terminal period
//! takes its marginal values with no value beyond it. A period that has not
//! converged after the allowed number of rounds ends the solve with an error.
//!
//! The solver hands out one task at a time; the caller carries it out on the
//! game and asks for the next one.
use vstd::prelude::*;

verus! {

/// A task for the caller, on one period of the game.
#[derive(Debug, Clone, Copy, PartialEq, Eq, Structural)]
pub enum Task {
    /// Forward-step `period` into the next period's state.
    Forward { period: usize },
    /// Compute the marginal values of the terminal `period`, with no
    /// continuation value.
    Terminal { period: usize },
    /// Refine the policy of `period` from the next period's marginal values,
    /// and report whether it converged.
    Refine { period: usize },
    /// Compute the marginal values of `period` from the next period's.
    Value { period: usize },
    /// The marginal values of the initial period are computed.
    Done,
    /// The policy of `period` did not converge within the allowed rounds.
    NotConverged { period: usize },
}

/// The solver's state: the number of periods, the allowed rounds per period,
/// the task handed out last, and the rounds that have failed to converge so
/// far at each period of the current chain of nested solves, outermost first.
pub struct SolverView {
    pub periods: nat,
    pub max_rounds: nat,
    pub task: Task,
    pub rounds: Seq<usize>,
}

/// The state in which a solve of `periods` periods starts.
pub open spec fn initial(periods: nat, max_rounds: nat) -> SolverView {
    if periods == 1 {
        SolverView { periods, max_rounds, task: Task::Terminal { period: 0 }, rounds: Seq::empty() }
    } else {
        SolverView { periods, max_rounds, task: Task::Forward { period: 0 }, rounds: seq![0usize] }
    }
}

/// The state after the task of `s` was carried out; `converged` is what the
/// caller reports for a `Refine` task and is not read otherwise.
pub open spec fn after(s: SolverView, converged: bool) -> SolverView {
    match s.task {
        Task::Forward { period } => {
            if period + 2 == s.periods {
                SolverView { task: Task::Terminal { period: (period + 1) as usize }, ..s }
            } else {
                SolverView { task: Task::Forward { period: (period + 1) as usize }, rounds: s.rounds.push(0), ..s }
            }
        },
        Task::Terminal { period } => {
            if period == 0 {
                SolverView { task: Task::Done, ..s }
            } else {
                SolverView { task: Task::Refine { period: (period - 1) as usize }, ..s }
            }
        },
        Task::Refine { period } => {
            if converged {
                SolverView { task: Task::Value { period }, ..s }
            } else {
                let failed = (s.rounds.last() + 1) as usize;
                let rounds = s.rounds.update(s.rounds.len() - 1, failed);
                if failed >= s.max_rounds {
                    SolverView { task: Task::NotConverged { period }, rounds, ..s }
                } else {
                    SolverView { task: Task::Forward { period }, rounds, ..s }
                }
            }
        },
        Task::Value { period } => {
            if period == 0 {
                SolverView { task: Task::Done, rounds: s.rounds.drop_last(), ..s }
            } else {
                SolverView {
                    task: Task::Refine { period: (period - 1) as usize },
                    rounds: s.rounds.drop_last(),
                    ..s
                }
            }
        },
        Task::Done => s,
        Task::NotConverged { .. } => s,
    }
}

/// The task has ended the solve.
pub open spec fn is_final(t: Task) -> bool {
    t is Done || t is NotConverged
}

/// A reachable state: each task names a period of the game (only the last
/// one is ever terminal), one round counter stands for each non-terminal
/// period of the current chain, and no counter has reached the limit.
pub open spec fn reachable(s: SolverView) -> bool {
    &&& 1 <= s.periods <= usize::MAX
    &&& 1 <= s.max_rounds <= usize::MAX
    &&& !(s.task is NotConverged) ==> forall|k: int| 0 <= k < s.rounds.len()
        ==> (#[trigger] s.rounds[k] as nat) < s.max_rounds
    &&& match s.task {
        Task::Forward { period } => period + 1 < s.periods && s.rounds.len() == period + 1,
        Task::Terminal { period } => period + 1 == s.periods && s.rounds.len() == period,
        Task::Refine { period } => period + 1 < s.periods && s.rounds.len() == period + 1,
        Task::Value { period } => period + 1 < s.periods && s.rounds.len() == period + 1,
        Task::Done => s.rounds.len() == 0,
        Task::NotConverged { period } => period + 1 < s.periods,
    }
}

/// Carrying out a task from a reachable state leads to a reachable state,
/// whatever the refinement reports: every task names a period of the game,
/// and only the last period is ever handed out as terminal.
pub proof fn lemma_after_reachable(s: SolverView, converged: bool)
    requires
        reachable(s),
    ensures
        reachable(after(s, converged)),
{
    let t = after(s, converged);
    match s.task {
        Task::Forward { period } => {
            assert forall|k: int| 0 <= k < t.rounds.len() implies (#[trigger] t.rounds[k] as nat) < t.max_rounds by {
                if k < s.rounds.len() {
                    assert(t.rounds[k] == s.rounds[k]);
                }
            }
        },
        Task::Refine { period } => {
            if !(t.task is NotConverged) {
                assert forall|k: int| 0 <= k < t.rounds.len() implies (#[trigger] t.rounds[k] as nat) < t.max_rounds by {
                    if k < s.rounds.len() - 1 {
                        assert(t.rounds[k] == s.rounds[k]);
                    }
                }
            }
        },
        Task::Value { period } => {
            assert forall|k: int| 0 <= k < t.rounds.len() implies (#[trigger] t.rounds[k] as nat) < t.max_rounds by {
                assert(t.rounds[k] == s.rounds[k]);
            }
        },
        _ => {},
    }
}

/// An upper bound on the tasks a solve of periods `p..n` takes, from its
/// first task up to handing control back, with `m` rounds allowed per period.
pub open spec fn level_cost(n: nat, m: nat, p: nat) -> nat
    decreases n - p,
{
    if p + 1 >= n {
        1
    } else {
        m * (level_cost(n, m, p + 1) + 2) + 1
    }
}

/// An upper bound on the tasks left at period `p`, counted from its refinement
/// after `r` failed rounds up to handing control back.
pub open spec fn round_budget(n: nat, m: nat, p: nat, r: nat) -> nat {
    if r < m {
        ((m - 1 - r) as nat) * (level_cost(n, m, p + 1) + 2) + 2
    } else {
        2
    }
}

/// The sum of the budgets of the outermost `j` periods of the current chain.
pub open spec fn pending(s: SolverView, j: nat) -> nat
    decreases j,
{
    if j == 0 {
        0
    } else {
        pending(s, (j - 1) as nat) + round_budget(s.periods, s.max_rounds, (j - 1) as nat, s.rounds[j - 1] as nat)
    }
}

/// An upper bound on the tasks still to come in state `s`.
pub open spec fn remaining(s: SolverView) -> nat {
    match s.task {
        Task::Forward { period } => 1 + level_cost(s.periods, s.max_rounds, (period + 1) as nat) + pending(s, (period + 1) as nat),
        Task::Terminal { period } => 1 + pending(s, period as nat),
        Task::Refine { period } => pending(s, (period + 1) as nat),
        Task::Value { period } => 1 + pending(s, period as nat),
        Task::Done => 0,
        Task::NotConverged { .. } => 0,
    }
}

proof fn lemma_pending_prefix(s: SolverView, t: SolverView, j: nat)
    requires
        s.periods == t.periods,
        s.max_rounds == t.max_rounds,
        j <= s.rounds.len(),
        j <= t.rounds.len(),
        forall|k: int| 0 <= k < j ==> s.rounds[k] == t.rounds[k],
    ensures
        pending(s, j) == pending(t, j),
    decreases j,
{
    if j > 0 {
        lemma_pending_prefix(s, t, (j - 1) as nat);
    }
}

proof fn lemma_forward_ends(s: SolverView, converged: bool)
    requires
        reachable(s),
        s.task is Forward,
    ensures
        remaining(after(s, converged)) < remaining(s),
{
    let t = after(s, converged);
    let n = s.periods;
    let m = s.max_rounds;
    let period = s.task->Forward_period;
    let q = period as nat;
    if q + 2 == n {
        assert(level_cost(n, m, q + 1) == 1);
        lemma_pending_prefix(s, t, q + 1);
        assert(remaining(t) < remaining(s));
    } else {
        assert(t.rounds == s.rounds.push(0));
        assert(t.rounds[q + 1 as int] == 0);
        lemma_pending_prefix(s, t, q + 1);
        let c = level_cost(n, m, q + 2);
        assert(level_cost(n, m, q + 1) == m * (c + 2) + 1);
        assert(round_budget(n, m, q + 1, 0) == ((m - 1) as nat) * (c + 2) + 2);
        assert(((m - 1) as nat) * (c + 2) + (c + 2) == m * (c + 2)) by (nonlinear_arith)
            requires m >= 1;
        assert(pending(t, q + 2) == pending(t, q + 1) + round_budget(n, m, q + 1, 0));
        assert(remaining(t) < remaining(s));
    }
}

/// Every solve ends: each task carried out in a reachable state that has not
/// ended the solve strictly lowers the bound on the tasks still to come, so
/// a solve of `n` periods with `m` rounds allowed per period hands out at
/// most `remaining(initial(n, m))` tasks before `Done` or `NotConverged`.
pub proof fn lemma_solve_ends(s: SolverView, converged: bool)
    requires
        reachable(s),
    ensures
        is_final(s.task) ==> after(s, converged) == s,
        !is_final(s.task) ==> remaining(after(s, converged)) < remaining(s),
{
    let t = after(s, converged);
    let n = s.periods;
    let m = s.max_rounds;
    match s.task {
        Task::Forward { period } => {
            lemma_forward_ends(s, converged);
        },
        Task::Terminal { period } => {
            if period > 0 {
                lemma_pending_prefix(s, t, period as nat);
            }
            assert(remaining(t) < remaining(s));
        },
        Task::Refine { period } => {
            let q = period as nat;
            let r = s.rounds[q as int] as nat;
            if !converged {
                lemma_pending_prefix(s, t, q);
                if t.task is Forward {
                    let c = level_cost(n, m, q + 1);
                    assert(t.rounds[q as int] as nat == r + 1);
                    assert(round_budget(n, m, q, r) == ((m - 1 - r) as nat) * (c + 2) + 2);
                    assert(round_budget(n, m, q, r + 1) == ((m - 1 - (r + 1)) as nat) * (c + 2) + 2);
                    assert(((m - 1 - (r + 1)) as nat) * (c + 2) + (c + 2) == ((m - 1 - r) as nat) * (c + 2))
                        by (nonlinear_arith)
                        requires r + 1 < m;
                }
            } else {
                lemma_pending_prefix(s, t, q + 1);
                assert(remaining(t) < remaining(s));
            }
        },
        Task::Value { period } => {
            if period > 0 {
                lemma_pending_prefix(s, t, period as nat);
            }
            assert(remaining(t) < remaining(s));
        },
        _ => {},
    }
}

/// Hands out the tasks of one backward-induction solve.
pub struct Solver {
    periods: usize,
    max_rounds: usize,
    task: Task,
    rounds: Vec<usize>,
}

impl View for Solver {
    type V = SolverView;

    closed spec fn view(&self) -> SolverView {
        SolverView {
            periods: self.periods as nat,
            max_rounds: self.max_rounds as nat,
            task: self.task,
            rounds: self.rounds@,
        }
    }
}

impl Solver {
    /// Starts a solve of a game of `periods` periods, allowing each period
    /// `max_rounds` refinement rounds. Its first task is the forward step of
    /// the initial period, or, for a single period, the terminal values.
    pub fn new(periods: usize, max_rounds: usize) -> (r: Solver)
        requires
            periods >= 1,
            max_rounds >= 1,
        ensures
            r@ == initial(periods as nat, max_rounds as nat),
            reachable(r@),
    {
        let mut rounds: Vec<usize> = Vec::new();
        let task = if periods == 1 {
            Task::Terminal { period: 0 }
        } else {
            rounds.push(0);
            Task::Forward { period: 0 }
        };
        let r = Solver { periods, max_rounds, task, rounds };
        proof {
            assert(r@.rounds =~= initial(periods as nat, max_rounds as nat).rounds);
        }
        r
    }

    /// The task handed out last.
    pub fn task(&self) -> (r: Task)
        ensures
            r == self@.task,
    {
        self.task
    }

    /// Moves on once the current task is carried out, and returns the next
    /// task. `converged` reports the outcome of a `Refine` task.
    pub fn next(&mut self, converged: bool) -> (r: Task)
        requires
            reachable(old(self)@),
        ensures
            final(self)@ == after(old(self)@, converged),
            reachable(final(self)@),
            r == final(self)@.task,
            is_final(old(self)@.task) ==> final(self)@ == old(self)@,
            !is_final(old(self)@.task) ==> remaining(final(self)@) < remaining(old(self)@),
    {
        let ghost s = self@;
        match self.task {
            Task::Forward { period } => {
                if period + 2 == self.periods {
                    self.task = Task::Terminal { period: period + 1 };
                } else {
                    self.rounds.push(0);
                    self.task = Task::Forward { period: period + 1 };
                }
            },
            Task::Terminal { period } => {
                if period == 0 {
                    self.task = Task::Done;
                } else {
                    self.task = Task::Refine { period: period - 1 };
                }
            },
            Task::Refine { period } => {
                if converged {
                    self.task = Task::Value { period };
                } else {
                    let last = self.rounds.len() - 1;
                    let failed = self.rounds[last] + 1;
                    self.rounds.set(last, failed);
                    if failed >= self.max_rounds {
                        self.task = Task::NotConverged { period };
                    } else {
                        self.task = Task::Forward { period };
                    }
                }
            },
            Task::Value { period } => {
                self.rounds.pop();
                if period == 0 {
                    self.task = Task::Done;
                } else {
                    self.task = Task::Refine { period: period - 1 };
                }
            },
            Task::Done => {},
            Task::NotConverged { .. } => {},
        }
        proof {
            assert(self@.rounds =~= after(s, converged).rounds);
            lemma_after_reachable(s, converged);
            lemma_solve_ends(s, converged);
        }
        self.task
    }
}

} // verus!
