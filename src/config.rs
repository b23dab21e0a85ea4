//! Land holdings of agents, and their validation against a map of lands.
use vstd::prelude::*;

verus! {

/// Why a land assignment cannot be used.
#[derive(Debug, Clone, Copy, PartialEq, Eq, Structural)]
pub enum ConfigError {
    /// The agent holds no land, so it has no land to produce on.
    NoLand { agent: usize },
    /// The agent holds a land index that the map does not have.
    UnknownLand { agent: usize, land: usize },
}

/// One agent's holdings are usable: at least one land, each on the map.
pub open spec fn holding_ok(n_lands: nat, h: Seq<usize>) -> bool {
    &&& h.len() > 0
    &&& forall|j: int| 0 <= j < h.len() ==> (#[trigger] h[j] as nat) < n_lands
}

/// Every agent's holdings are usable.
pub open spec fn holdings_ok(n_lands: nat, hs: Seq<Seq<usize>>) -> bool {
    forall|a: int| 0 <= a < hs.len() ==> holding_ok(n_lands, #[trigger] hs[a])
}

/// The holdings of each agent as mathematical sequences.
pub open spec fn holdings_view(hs: Seq<Vec<usize>>) -> Seq<Seq<usize>> {
    hs.map_values(|v: Vec<usize>| v@)
}

/// `e` is the error that reports the first agent, in index order, whose
/// holdings are not usable: `NoLand` when it holds nothing, else
/// `UnknownLand` with the first entry of its holdings that is off the map.
pub open spec fn is_first_error(n_lands: nat, hs: Seq<Seq<usize>>, e: ConfigError) -> bool {
    match e {
        ConfigError::NoLand { agent } => {
            &&& agent < hs.len()
            &&& hs[agent as int].len() == 0
            &&& forall|a: int| 0 <= a < agent ==> holding_ok(n_lands, #[trigger] hs[a])
        },
        ConfigError::UnknownLand { agent, land } => {
            &&& agent < hs.len()
            &&& hs[agent as int].len() > 0
            &&& land >= n_lands
            &&& exists|k: int| {
                &&& 0 <= k < hs[agent as int].len()
                &&& #[trigger] hs[agent as int][k] == land
                &&& forall|j: int| 0 <= j < k ==> hs[agent as int][j] < n_lands
            }
            &&& forall|a: int| 0 <= a < agent ==> holding_ok(n_lands, #[trigger] hs[a])
        },
    }
}

/// Checks that every agent holds at least one land and only lands of a map
/// with `n_lands` lands. The error names the first agent, in index order,
/// whose holdings are not usable: `NoLand` when it holds nothing, else
/// `UnknownLand` with the first index of its holdings that is off the map.
pub fn check_holdings(n_lands: usize, holdings: &Vec<Vec<usize>>) -> (r: Result<(), ConfigError>)
    ensures
        r is Ok <==> holdings_ok(n_lands as nat, holdings_view(holdings@)),
        r matches Err(e) ==> is_first_error(n_lands as nat, holdings_view(holdings@), e),
{
    let mut a: usize = 0;
    while a < holdings.len()
        invariant
            a <= holdings@.len(),
            forall|b: int| 0 <= b < a ==> holding_ok(n_lands as nat, #[trigger] holdings@[b]@),
        decreases holdings@.len() - a,
    {
        let h = &holdings[a];
        if h.len() == 0 {
            proof {
                let v = holdings_view(holdings@);
                assert(v[a as int] == holdings@[a as int]@);
                assert forall|b: int| 0 <= b < a implies holding_ok(n_lands as nat, #[trigger] v[b]) by {
                    assert(v[b] == holdings@[b]@);
                }
            }
            return Err(ConfigError::NoLand { agent: a });
        }
        let mut j: usize = 0;
        while j < h.len()
            invariant
                j <= h@.len(),
                a < holdings@.len(),
                forall|b: int| 0 <= b < a ==> holding_ok(n_lands as nat, #[trigger] holdings@[b]@),
                h@ == holdings@[a as int]@,
                forall|i: int| 0 <= i < j ==> h@[i] < n_lands,
            decreases h@.len() - j,
        {
            if h[j] >= n_lands {
                proof {
                    assert(holdings_view(holdings@)[a as int] == holdings@[a as int]@);
                    let k = j as int;
                    let v = holdings_view(holdings@);
                    assert(v[a as int][k] == h@[k]);
                    assert(forall|i: int| 0 <= i < k ==> v[a as int][i] < n_lands);
                    assert forall|b: int| 0 <= b < a implies holding_ok(n_lands as nat, #[trigger] v[b]) by {
                        assert(v[b] == holdings@[b]@);
                    }
                }
                return Err(ConfigError::UnknownLand { agent: a, land: h[j] });
            }
            j = j + 1;
        }
        a = a + 1;
    }
    proof {
        let v = holdings_view(holdings@);
        assert forall|b: int| 0 <= b < v.len() implies holding_ok(n_lands as nat, #[trigger] v[b]) by {
            assert(v[b] == holdings@[b]@);
        }
    }
    Ok(())
}

} // verus!
