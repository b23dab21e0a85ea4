//! The sequence of periods of a game: seeding, growth of the horizon, and
//! the bookkeeping of a forward step and of a policy change.
//!
//! Scalars (productivity, capital, action ratios and derived quantities) are
//! of a type `R` chosen by the caller, who also supplies its zero.
use vstd::prelude::*;
use crate::config::{ConfigError, check_holdings, holdings_ok, holdings_view, is_first_error};

verus! {

/// The parcels of land of a game, by index, each with its productivity.
#[derive(Debug, Clone)]
pub struct LandMap<R> {
    pub lands: Vec<R>,
}

/// What an agent has at the start of a period.
#[derive(Debug, Clone)]
pub struct AgentState<R> {
    /// Indices into the land map of the lands the agent holds.
    pub lands: Vec<usize>,
    pub capital: R,
}

/// An agent's choice for a period.
#[derive(Debug, Clone, Copy)]
pub struct Action<R> {
    /// Fraction of capital put into production and saved.
    pub c: R,
    /// Fraction of time spent producing rather than in leisure.
    pub t: R,
}

/// One agent in one period: its state, its action, and the two quantities
/// that the last forward step derived from them.
#[derive(Debug, Clone)]
pub struct AgentNode<R> {
    pub state: AgentState<R>,
    pub action: Action<R>,
    /// Capital after this period's production.
    pub capital_plus: R,
    /// Utility realised in this period.
    pub utility_yielded: R,
}

/// One period: every agent, in agent order.
#[derive(Debug, Clone)]
pub struct GameNode<R> {
    pub agents: Vec<AgentNode<R>>,
}

/// What a forward step derived for one agent of a period.
#[derive(Debug, Clone, Copy)]
pub struct StepOutcome<R> {
    pub capital_plus: R,
    pub utility_yielded: R,
    /// The agent's capital at the start of the next period.
    pub next_capital: R,
}

/// The game: one land map shared by every period, and the periods in order,
/// the first being the initial period and the last the terminal one.
#[derive(Debug, Clone)]
pub struct Game<R> {
    map: LandMap<R>,
    periods: Vec<GameNode<R>>,
}

/// The holdings of every agent of a period.
pub open spec fn node_holdings<R>(node: GameNode<R>) -> Seq<Seq<usize>> {
    node.agents@.map_values(|a: AgentNode<R>| a.state.lands@)
}

/// An agent as a freshly added period holds it: no land, and every scalar zero.
pub open spec fn is_fresh<R>(a: AgentNode<R>, zero: R) -> bool {
    &&& a.state.lands@.len() == 0
    &&& a.state.capital == zero
    &&& a.action == Action { c: zero, t: zero }
    &&& a.capital_plus == zero
    &&& a.utility_yielded == zero
}

impl<R: Copy> Game<R> {
    /// The land map.
    pub closed spec fn map_spec(&self) -> Seq<R> {
        self.map.lands@
    }

    /// The periods, first to last.
    pub closed spec fn periods_spec(&self) -> Seq<GameNode<R>> {
        self.periods@
    }

    /// Number of agents of the game.
    pub open spec fn agents_spec(&self) -> nat {
        self.periods_spec()[0].agents@.len()
    }

    /// There is at least one period, every period has the same agents, and
    /// the agents of the initial period hold usable lands.
    pub open spec fn wf(&self) -> bool {
        &&& self.periods_spec().len() >= 1
        &&& forall|p: int| 0 <= p < self.periods_spec().len()
            ==> (#[trigger] self.periods_spec()[p]).agents@.len() == self.agents_spec()
        &&& holdings_ok(self.map_spec().len(), node_holdings(self.periods_spec()[0]))
    }

    /// Seeds a game of one period from the land map and the lands each agent
    /// holds; every capital, action ratio and derived quantity starts at `zero`.
    /// Fails when some agent's holdings are not usable.
    pub fn new(lands: Vec<R>, holdings: Vec<Vec<usize>>, zero: R) -> (r: Result<Game<R>, ConfigError>)
        ensures
            r is Ok <==> holdings_ok(lands@.len(), holdings_view(holdings@)),
            r matches Err(e) ==> is_first_error(lands@.len(), holdings_view(holdings@), e),
            r matches Ok(g) ==> {
                &&& g.wf()
                &&& g.map_spec() == lands@
                &&& g.periods_spec().len() == 1
                &&& g.agents_spec() == holdings@.len()
                &&& forall|a: int| 0 <= a < holdings@.len() ==> {
                    let n = #[trigger] g.periods_spec()[0].agents@[a];
                    &&& n.state.lands@ == holdings@[a]@
                    &&& n.state.capital == zero
                    &&& n.action == Action { c: zero, t: zero }
                    &&& n.capital_plus == zero
                    &&& n.utility_yielded == zero
                }
            },
    {
        match check_holdings(lands.len(), &holdings) {
            Err(e) => { return Err(e); },
            Ok(()) => {},
        }
        let mut agents: Vec<AgentNode<R>> = Vec::new();
        let mut a: usize = 0;
        while a < holdings.len()
            invariant
                a <= holdings@.len(),
                agents@.len() == a,
                forall|b: int| 0 <= b < a ==> {
                    let n = #[trigger] agents@[b];
                    &&& n.state.lands@ == holdings@[b]@
                    &&& n.state.capital == zero
                    &&& n.action == Action { c: zero, t: zero }
                    &&& n.capital_plus == zero
                    &&& n.utility_yielded == zero
                },
            decreases holdings@.len() - a,
        {
            let held = holdings[a].clone();
            agents.push(AgentNode {
                state: AgentState { lands: held, capital: zero },
                action: Action { c: zero, t: zero },
                capital_plus: zero,
                utility_yielded: zero,
            });
            a = a + 1;
        }
        let mut periods: Vec<GameNode<R>> = Vec::new();
        periods.push(GameNode { agents });
        let g = Game { map: LandMap { lands }, periods };
        proof {
            let hv = node_holdings(g.periods@[0]);
            assert(hv =~= holdings_view(holdings@));
        }
        Ok(g)
    }

    /// Extends the horizon by one period: appends a new terminal period with
    /// the agents of the last one, holding no land and with every scalar at
    /// `zero`, to be filled by the forward step from the period before it.
    /// The land map and the existing periods are kept.
    pub fn grow(&mut self, zero: R)
        requires
            old(self).wf(),
        ensures
            final(self).wf(),
            final(self).map_spec() == old(self).map_spec(),
            final(self).periods_spec().len() == old(self).periods_spec().len() + 1,
            final(self).agents_spec() == old(self).agents_spec(),
            forall|p: int| 0 <= p < old(self).periods_spec().len()
                ==> #[trigger] final(self).periods_spec()[p] == old(self).periods_spec()[p],
            forall|p: int| 0 <= p < final(self).periods_spec().len()
                ==> (#[trigger] final(self).periods_spec()[p]).agents@.len() == old(self).agents_spec(),
            forall|a: int| 0 <= a < old(self).agents_spec() ==> is_fresh(
                #[trigger] final(self).periods_spec().last().agents@[a],
                zero,
            ),
    {
        let n = self.periods[self.periods.len() - 1].agents.len();
        let mut agents: Vec<AgentNode<R>> = Vec::new();
        let mut a: usize = 0;
        while a < n
            invariant
                a <= n,
                agents@.len() == a,
                forall|b: int| 0 <= b < a ==> is_fresh(#[trigger] agents@[b], zero),
            decreases n - a,
        {
            agents.push(AgentNode {
                state: AgentState { lands: Vec::new(), capital: zero },
                action: Action { c: zero, t: zero },
                capital_plus: zero,
                utility_yielded: zero,
            });
            a = a + 1;
        }
        self.periods.push(GameNode { agents });
        proof {
            assert(self.periods@[0] == old(self).periods@[0]);
        }
    }

    /// Records the forward step of period `i`: each agent of period `i` keeps
    /// its state and action and takes the derived quantities of its outcome;
    /// each agent of period `i + 1` takes over the lands of its counterpart in
    /// period `i` and starts with the outcome's next capital, keeping its
    /// action. Outcomes are aligned with agents by index.
    pub fn advance(&mut self, i: usize, outcomes: &Vec<StepOutcome<R>>)
        requires
            old(self).wf(),
            i + 1 < old(self).periods_spec().len(),
            outcomes@.len() == old(self).agents_spec(),
        ensures
            final(self).wf(),
            final(self).map_spec() == old(self).map_spec(),
            final(self).periods_spec().len() == old(self).periods_spec().len(),
            forall|p: int| 0 <= p < old(self).periods_spec().len() && p != i && p != i + 1
                ==> #[trigger] final(self).periods_spec()[p] == old(self).periods_spec()[p],
            forall|a: int| 0 <= a < outcomes@.len() ==> {
                let before = old(self).periods_spec()[i as int].agents@[a];
                let after = #[trigger] final(self).periods_spec()[i as int].agents@[a];
                &&& after.state == before.state
                &&& after.action == before.action
                &&& after.capital_plus == outcomes@[a].capital_plus
                &&& after.utility_yielded == outcomes@[a].utility_yielded
            },
            forall|a: int| 0 <= a < outcomes@.len() ==> {
                let from = old(self).periods_spec()[i as int].agents@[a];
                let before = old(self).periods_spec()[i + 1].agents@[a];
                let after = #[trigger] final(self).periods_spec()[i + 1].agents@[a];
                &&& after.state.lands@ == from.state.lands@
                &&& after.state.capital == outcomes@[a].next_capital
                &&& after.action == before.action
                &&& after.capital_plus == before.capital_plus
                &&& after.utility_yielded == before.utility_yielded
            },
            node_holdings(final(self).periods_spec()[i + 1]) == node_holdings(old(self).periods_spec()[i as int]),
    {
        let n = outcomes.len();
        let len = self.periods.len();
        let j = i + 1;
        let mut a: usize = 0;
        while a < n
            invariant
                a <= n,
                n == outcomes@.len(),
                i + 1 < self.periods@.len(),
                self.map == old(self).map,
                self.periods@.len() == old(self).periods@.len(),
                old(self).wf(),
                forall|p: int| 0 <= p < self.periods@.len() && p != i && p != i + 1
                    ==> #[trigger] self.periods@[p] == old(self).periods@[p],
                self.periods@[i as int].agents@.len() == n,
                self.periods@[i + 1].agents@.len() == n,
                j == i + 1,
                old(self).periods@[i as int].agents@.len() == n,
                old(self).periods@[i + 1].agents@.len() == n,
                forall|b: int| a <= b < n
                    ==> #[trigger] self.periods@[i as int].agents@[b] == old(self).periods@[i as int].agents@[b],
                forall|b: int| a <= b < n
                    ==> #[trigger] self.periods@[i + 1].agents@[b] == old(self).periods@[i + 1].agents@[b],
                forall|b: int| 0 <= b < a ==> {
                    let before = old(self).periods@[i as int].agents@[b];
                    let after = #[trigger] self.periods@[i as int].agents@[b];
                    &&& after.state == before.state
                    &&& after.action == before.action
                    &&& after.capital_plus == outcomes@[b].capital_plus
                    &&& after.utility_yielded == outcomes@[b].utility_yielded
                },
                forall|b: int| 0 <= b < a ==> {
                    let from = old(self).periods@[i as int].agents@[b];
                    let before = old(self).periods@[i + 1].agents@[b];
                    let after = #[trigger] self.periods@[i + 1].agents@[b];
                    &&& after.state.lands@ == from.state.lands@
                    &&& after.state.capital == outcomes@[b].next_capital
                    &&& after.action == before.action
                    &&& after.capital_plus == before.capital_plus
                    &&& after.utility_yielded == before.utility_yielded
                },
            decreases n - a,
        {
            let o = outcomes[a];
            let lands = self.periods[i].agents[a].state.lands.clone();
            self.periods[i].agents[a].capital_plus = o.capital_plus;
            self.periods[i].agents[a].utility_yielded = o.utility_yielded;
            self.periods[j].agents[a].state.lands = lands;
            self.periods[j].agents[a].state.capital = o.next_capital;
            a = a + 1;
        }
        proof {
            assert(node_holdings(self.periods@[i + 1]) =~= node_holdings(old(self).periods@[i as int]));
            if i == 0 {
                assert(node_holdings(self.periods@[0]) =~= node_holdings(old(self).periods@[0]));
            }
            assert forall|p: int| 0 <= p < self.periods@.len()
                implies (#[trigger] self.periods@[p]).agents@.len() == self.agents_spec() by {
                if p != i && p != i + 1 {
                    assert(self.periods@[p] == old(self).periods@[p]);
                }
            }
        }
    }

    /// Replaces the action of one agent in one period; nothing else changes.
    pub fn set_action(&mut self, i: usize, agent: usize, action: Action<R>)
        requires
            old(self).wf(),
            i < old(self).periods_spec().len(),
            agent < old(self).agents_spec(),
        ensures
            final(self).wf(),
            final(self).map_spec() == old(self).map_spec(),
            final(self).periods_spec().len() == old(self).periods_spec().len(),
            forall|p: int| 0 <= p < old(self).periods_spec().len() && p != i
                ==> #[trigger] final(self).periods_spec()[p] == old(self).periods_spec()[p],
            forall|a: int| 0 <= a < old(self).agents_spec() && a != agent
                ==> #[trigger] final(self).periods_spec()[i as int].agents@[a]
                    == old(self).periods_spec()[i as int].agents@[a],
            ({
                let before = old(self).periods_spec()[i as int].agents@[agent as int];
                let after = final(self).periods_spec()[i as int].agents@[agent as int];
                &&& after.action == action
                &&& after.state == before.state
                &&& after.capital_plus == before.capital_plus
                &&& after.utility_yielded == before.utility_yielded
            }),
    {
        proof {
            assert(self.periods@[i as int].agents@.len() == self.agents_spec());
        }
        self.periods[i].agents[agent].action = action;
        proof {
            if i == 0 {
                assert(node_holdings(self.periods@[0]) =~= node_holdings(old(self).periods@[0]));
            }
            assert forall|p: int| 0 <= p < self.periods@.len()
                implies (#[trigger] self.periods@[p]).agents@.len() == self.agents_spec() by {
                if p != i {
                    assert(self.periods@[p] == old(self).periods@[p]);
                }
            }
        }
    }

    /// The number of periods.
    pub fn len(&self) -> (r: usize)
        ensures
            r == self.periods_spec().len(),
    {
        self.periods.len()
    }

    /// The number of agents.
    pub fn agent_count(&self) -> (r: usize)
        requires
            self.wf(),
        ensures
            r == self.agents_spec(),
    {
        self.periods[0].agents.len()
    }

    /// The land map that every period shares.
    pub fn map(&self) -> (r: &LandMap<R>)
        ensures
            r.lands@ == self.map_spec(),
    {
        &self.map
    }

    /// Period `i`.
    pub fn period(&self, i: usize) -> (r: &GameNode<R>)
        requires
            i < self.periods_spec().len(),
        ensures
            *r == self.periods_spec()[i as int],
    {
        &self.periods[i]
    }

    /// Every period, first to last.
    pub fn periods(&self) -> (r: &Vec<GameNode<R>>)
        ensures
            r@ == self.periods_spec(),
    {
        &self.periods
    }
}

} // verus!
