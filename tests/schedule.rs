use econsim::schedule::{Solver, Task};

#[test]
fn single_period_takes_terminal_values_only() {
    let mut s = Solver::new(1, 10);
    assert_eq!(s.task(), Task::Terminal { period: 0 });
    assert_eq!(s.next(false), Task::Done);
    assert_eq!(s.next(true), Task::Done);
}

#[test]
fn two_periods_converging_at_once() {
    let mut s = Solver::new(2, 10);
    assert_eq!(s.task(), Task::Forward { period: 0 });
    assert_eq!(s.next(false), Task::Terminal { period: 1 });
    assert_eq!(s.next(false), Task::Refine { period: 0 });
    assert_eq!(s.next(true), Task::Value { period: 0 });
    assert_eq!(s.next(false), Task::Done);
}

#[test]
fn three_periods_with_a_second_round() {
    let mut s = Solver::new(3, 10);
    let expected = [
        (false, Task::Forward { period: 1 }),
        (false, Task::Terminal { period: 2 }),
        (false, Task::Refine { period: 1 }),
        (true, Task::Value { period: 1 }),
        (false, Task::Refine { period: 0 }),
        (false, Task::Forward { period: 0 }),
        (false, Task::Forward { period: 1 }),
        (false, Task::Terminal { period: 2 }),
        (false, Task::Refine { period: 1 }),
        (true, Task::Value { period: 1 }),
        (false, Task::Refine { period: 0 }),
        (true, Task::Value { period: 0 }),
        (false, Task::Done),
    ];
    assert_eq!(s.task(), Task::Forward { period: 0 });
    for (converged, task) in expected {
        assert_eq!(s.next(converged), task);
    }
}

#[test]
fn period_out_of_rounds_fails() {
    let mut s = Solver::new(2, 2);
    assert_eq!(s.next(false), Task::Terminal { period: 1 });
    assert_eq!(s.next(false), Task::Refine { period: 0 });
    assert_eq!(s.next(false), Task::Forward { period: 0 });
    assert_eq!(s.next(false), Task::Terminal { period: 1 });
    assert_eq!(s.next(false), Task::Refine { period: 0 });
    assert_eq!(s.next(false), Task::NotConverged { period: 0 });
    assert_eq!(s.next(true), Task::NotConverged { period: 0 });
}

#[test]
fn inner_rounds_restart_for_each_outer_round() {
    let mut s = Solver::new(3, 2);
    assert_eq!(s.next(false), Task::Forward { period: 1 });
    assert_eq!(s.next(false), Task::Terminal { period: 2 });
    assert_eq!(s.next(false), Task::Refine { period: 1 });
    assert_eq!(s.next(false), Task::Forward { period: 1 });
    assert_eq!(s.next(false), Task::Terminal { period: 2 });
    assert_eq!(s.next(false), Task::Refine { period: 1 });
    assert_eq!(s.next(true), Task::Value { period: 1 });
    assert_eq!(s.next(false), Task::Refine { period: 0 });
    assert_eq!(s.next(false), Task::Forward { period: 0 });
    assert_eq!(s.next(false), Task::Forward { period: 1 });
    assert_eq!(s.next(false), Task::Terminal { period: 2 });
    assert_eq!(s.next(false), Task::Refine { period: 1 });
    assert_eq!(s.next(false), Task::Forward { period: 1 });
}

#[test]
fn never_converging_solve_ends() {
    let mut s = Solver::new(4, 3);
    let mut steps: usize = 0;
    let mut task = s.task();
    while !matches!(task, Task::Done | Task::NotConverged { .. }) {
        task = s.next(false);
        steps += 1;
        assert!(steps < 10_000);
    }
    assert_eq!(task, Task::NotConverged { period: 2 });
}

#[test]
fn always_converging_solve_visits_each_period_once() {
    let mut s = Solver::new(4, 3);
    let mut forwards = Vec::new();
    let mut task = s.task();
    while task != Task::Done {
        if let Task::Forward { period } = task {
            forwards.push(period);
        }
        task = s.next(true);
    }
    assert_eq!(forwards, vec![0, 1, 2]);
}
