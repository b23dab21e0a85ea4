use econsim::config::ConfigError;
use econsim::horizon::{Action, Game, StepOutcome};

fn seed() -> Game<f32> {
    match Game::new(vec![2.0, 2.0, 1.0], vec![vec![0], vec![1]], 0.0f32) {
        Ok(g) => g,
        Err(e) => panic!("seed rejected: {:?}", e),
    }
}

#[test]
fn seed_has_one_period() {
    let g = seed();
    assert_eq!(g.len(), 1);
    assert_eq!(g.agent_count(), 2);
    assert_eq!(g.map().lands, vec![2.0, 2.0, 1.0]);
    let p = g.period(0);
    assert_eq!(p.agents[0].state.lands, vec![0]);
    assert_eq!(p.agents[1].state.lands, vec![1]);
    for a in &p.agents {
        assert_eq!(a.state.capital, 0.0);
        assert_eq!(a.action.c, 0.0);
        assert_eq!(a.action.t, 0.0);
        assert_eq!(a.capital_plus, 0.0);
        assert_eq!(a.utility_yielded, 0.0);
    }
}

#[test]
fn seed_without_land_fails() {
    let r = Game::new(vec![2.0f32, 1.0], vec![vec![0], vec![]], 0.0);
    assert!(matches!(r, Err(ConfigError::NoLand { agent: 1 })));
}

#[test]
fn seed_with_unknown_land_fails() {
    let r = Game::new(vec![2.0f32], vec![vec![0, 1]], 0.0);
    assert!(matches!(r, Err(ConfigError::UnknownLand { agent: 0, land: 1 })));
}

#[test]
fn growth_from_one_to_two_periods() {
    let mut g = seed();
    g.grow(0.0);
    assert_eq!(g.len(), 2);
    assert_eq!(g.periods().len(), 2);
    assert_eq!(g.map().lands, vec![2.0, 2.0, 1.0]);
    assert_eq!(g.period(0).agents.len(), 2);
    assert_eq!(g.period(1).agents.len(), 2);
    assert_eq!(g.period(0).agents[0].state.lands, vec![0]);
    for a in &g.period(1).agents {
        assert!(a.state.lands.is_empty());
        assert_eq!(a.state.capital, 0.0);
    }
}

#[test]
fn growth_keeps_agent_count_over_many_periods() {
    let mut g = seed();
    for _ in 0..4 {
        g.grow(0.0);
    }
    assert_eq!(g.len(), 5);
    for p in g.periods() {
        assert_eq!(p.agents.len(), 2);
    }
}

#[test]
fn advance_carries_lands_and_capital() {
    let mut g = seed();
    g.grow(0.0);
    g.set_action(1, 0, Action { c: 0.25, t: 0.75 });
    let outcomes = vec![
        StepOutcome { capital_plus: 3.0, utility_yielded: 1.5, next_capital: 1.35 },
        StepOutcome { capital_plus: 4.0, utility_yielded: 2.5, next_capital: 0.0 },
    ];
    g.advance(0, &outcomes);
    let p0 = g.period(0);
    assert_eq!(p0.agents[0].capital_plus, 3.0);
    assert_eq!(p0.agents[0].utility_yielded, 1.5);
    assert_eq!(p0.agents[1].capital_plus, 4.0);
    assert_eq!(p0.agents[1].utility_yielded, 2.5);
    assert_eq!(p0.agents[0].state.capital, 0.0);
    let p1 = g.period(1);
    assert_eq!(p1.agents[0].state.lands, vec![0]);
    assert_eq!(p1.agents[1].state.lands, vec![1]);
    assert_eq!(p1.agents[0].state.capital, 1.35);
    assert_eq!(p1.agents[1].state.capital, 0.0);
    assert_eq!(p1.agents[0].action.c, 0.25);
    assert_eq!(p1.agents[0].action.t, 0.75);
}

#[test]
fn set_action_changes_one_agent() {
    let mut g = seed();
    g.set_action(0, 1, Action { c: 0.5, t: 1.0 });
    assert_eq!(g.period(0).agents[1].action.c, 0.5);
    assert_eq!(g.period(0).agents[1].action.t, 1.0);
    assert_eq!(g.period(0).agents[0].action.c, 0.0);
    assert_eq!(g.period(0).agents[0].action.t, 0.0);
}
