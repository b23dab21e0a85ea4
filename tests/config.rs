use econsim::config::{check_holdings, ConfigError};

#[test]
fn holdings_on_the_map_are_accepted() {
    let holdings = vec![vec![0], vec![1, 2]];
    assert_eq!(check_holdings(3, &holdings), Ok(()));
}

#[test]
fn no_agents_is_accepted() {
    let holdings: Vec<Vec<usize>> = vec![];
    assert_eq!(check_holdings(0, &holdings), Ok(()));
}

#[test]
fn agent_without_land_is_reported() {
    let holdings = vec![vec![0], vec![]];
    assert_eq!(check_holdings(3, &holdings), Err(ConfigError::NoLand { agent: 1 }));
}

#[test]
fn first_failing_agent_is_reported() {
    let holdings = vec![vec![0, 5], vec![]];
    assert_eq!(
        check_holdings(3, &holdings),
        Err(ConfigError::UnknownLand { agent: 0, land: 5 })
    );
}

#[test]
fn first_land_off_the_map_is_reported() {
    let holdings = vec![vec![1], vec![2, 7, 3, 9]];
    assert_eq!(
        check_holdings(3, &holdings),
        Err(ConfigError::UnknownLand { agent: 1, land: 7 })
    );
}

#[test]
fn empty_map_rejects_any_land() {
    let holdings = vec![vec![0]];
    assert_eq!(
        check_holdings(0, &holdings),
        Err(ConfigError::UnknownLand { agent: 0, land: 0 })
    );
}
