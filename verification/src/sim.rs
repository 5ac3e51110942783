//! The simulation: one grid shared by an ordered sequence of agents. Each
//! tick runs every agent's rule once, in insertion order; the order is
//! observable, since agents read and write overlapping cells.

use vstd::prelude::*;
use crate::agent::{delta_x, delta_y, step_agent, Agent, AgentModel};
use crate::color::is_unmarked;
use crate::grid::{Grid, GridModel};

verus! {

/// The mathematical state of a simulation: the agents in insertion order
/// and the grid they share.
pub ghost struct SimModel {
    pub agents: Seq<AgentModel>,
    pub grid: GridModel,
}

impl SimModel {
    /// Well-formed simulation state: a well-formed grid and well-formed
    /// agents.
    pub open spec fn wf(self) -> bool {
        &&& self.grid.wf()
        &&& forall|i: int| 0 <= i < self.agents.len() ==> self.agents[i].wf()
    }
}

/// The agents and grid after running the rule once for each agent from
/// position `i` on, in order, each seeing the writes of those before it.
pub open spec fn run_from(agents: Seq<AgentModel>, g: GridModel, i: int) -> (Seq<AgentModel>, GridModel)
    decreases agents.len() - i,
{
    if i < 0 || i >= agents.len() {
        (agents, g)
    } else {
        let sg = step_agent(agents[i], g);
        run_from(agents.update(i, sg.0), sg.1, i + 1)
    }
}

/// The simulation state after one full tick: every agent stepped once, in
/// insertion order.
pub open spec fn tick_spec(s: SimModel) -> SimModel {
    let r = run_from(s.agents, s.grid, 0);
    SimModel { agents: r.0, grid: r.1 }
}

/// The simulation state after `k` full ticks.
pub open spec fn run_ticks_spec(s: SimModel, k: nat) -> SimModel
    decreases k,
{
    if k == 0 {
        s
    } else {
        run_ticks_spec(tick_spec(s), (k - 1) as nat)
    }
}

/// The linear indices of the cells written while running the rule once for
/// each agent from position `i` on: one index per agent, in update order.
pub open spec fn write_indices(agents: Seq<AgentModel>, g: GridModel, i: int) -> Seq<int>
    decreases agents.len() - i,
{
    if i < 0 || i >= agents.len() {
        Seq::empty()
    } else {
        let sg = step_agent(agents[i], g);
        seq![g.index_of(agents[i].x, agents[i].y)] + write_indices(agents.update(i, sg.0), sg.1, i + 1)
    }
}

/// One mutation per agent per tick: a run over the agents from position `i`
/// on writes exactly one cell per agent — so at most that many distinct
/// cells change — and every cell outside those write indices keeps its
/// color. The grid's extents never change.
pub proof fn lemma_single_write_per_agent(agents: Seq<AgentModel>, g: GridModel, i: int)
    requires
        g.wf(),
        0 <= i <= agents.len(),
    ensures
        write_indices(agents, g, i).len() == agents.len() - i,
        run_from(agents, g, i).1.wf(),
        run_from(agents, g, i).1.width == g.width,
        run_from(agents, g, i).1.height == g.height,
        run_from(agents, g, i).1.cells.len() == g.cells.len(),
        forall|j: int|
            0 <= j < g.cells.len() && !write_indices(agents, g, i).contains(j)
                ==> run_from(agents, g, i).1.cells[j] == g.cells[j],
    decreases agents.len() - i,
{
    if i < agents.len() {
        let sg = step_agent(agents[i], g);
        let idx = g.index_of(agents[i].x, agents[i].y);
        crate::grid::lemma_index_in_range(g, agents[i].x, agents[i].y);
        let agents2 = agents.update(i, sg.0);
        lemma_single_write_per_agent(agents2, sg.1, i + 1);
        let rest = write_indices(agents2, sg.1, i + 1);
        let all = write_indices(agents, g, i);
        assert forall|j: int|
            0 <= j < g.cells.len() && !all.contains(j)
                implies run_from(agents, g, i).1.cells[j] == g.cells[j] by {
            assert(all[0] == idx);
            assert(j != idx);
            assert(!rest.contains(j)) by {
                if rest.contains(j) {
                    let k = choose|k: int| 0 <= k < rest.len() && rest[k] == j;
                    assert(all[k + 1] == j);
                }
            }
            assert(sg.1.cells.len() == g.cells.len());
            assert(run_from(agents, g, i).1 == run_from(agents2, sg.1, i + 1).1);
            assert(run_from(agents2, sg.1, i + 1).1.cells[j] == sg.1.cells[j]);
            assert(sg.1.cells[j] == g.cells.update(idx, sg.1.cells[idx])[j]);
            assert(sg.1.cells[j] == g.cells[j]);
        }
    }
}

/// Agents persist: running the rule for the agents from position `i` on
/// neither adds nor removes agents, every agent keeps the color it was
/// created with, and the agents before position `i` are untouched.
pub proof fn lemma_agents_persist(agents: Seq<AgentModel>, g: GridModel, i: int)
    requires
        0 <= i <= agents.len(),
    ensures
        run_from(agents, g, i).0.len() == agents.len(),
        forall|j: int|
            0 <= j < agents.len() ==> run_from(agents, g, i).0[j].color == agents[j].color,
        forall|j: int| 0 <= j < i ==> run_from(agents, g, i).0[j] == agents[j],
    decreases agents.len() - i,
{
    if i < agents.len() {
        let sg = step_agent(agents[i], g);
        lemma_agents_persist(agents.update(i, sg.0), sg.1, i + 1);
        assert(sg.0.color == agents[i].color);
        assert forall|j: int| 0 <= j < agents.len() implies agents.update(i, sg.0)[j].color
            == agents[j].color by {
            if j != i {
                assert(agents.update(i, sg.0)[j] == agents[j]);
            }
        }
    }
}

/// The two-tick trace of two agents that start a run on the same cell of an
/// all-background grid, first-listed first. On the first tick the first
/// agent marks the shared cell and the second erases that mark; on the
/// second tick each marks the fresh cell it moved to, on opposite sides of
/// the start. So the cell one step from the start in the first agent's
/// turned facing ends up holding the first agent's color.
proof fn lemma_two_tick_trace(g: GridModel, p: AgentModel, q: AgentModel)
    requires
        g.wf(),
        g.all_background(),
        3 <= g.width,
        3 <= g.height,
        p.wf(),
        q.wf(),
        q.x == p.x,
        q.y == p.y,
        q.dir == p.dir,
        0 <= p.x < g.width,
        0 <= p.y < g.height,
        !is_unmarked(p.color),
    ensures
        ({
            let s2 = run_ticks_spec(SimModel { agents: seq![p, q], grid: g }, 2);
            let d1 = (p.dir + 1) % 4;
            let fwd = g.index_of(p.x + delta_x(d1), p.y + delta_y(d1));
            &&& s2.grid.cells.len() == g.cells.len()
            &&& 0 <= fwd < g.cells.len()
            &&& s2.grid.cells[fwd] == p.color
        }),
{
    reveal_with_fuel(run_from, 4);
    reveal_with_fuel(run_ticks_spec, 3);
    let x = p.x;
    let y = p.y;
    let d = p.dir;
    let w = g.width;
    let h = g.height;
    crate::grid::lemma_wrap_totality(x, w);
    crate::grid::lemma_wrap_totality(x + 1, w);
    crate::grid::lemma_wrap_totality(x - 1, w);
    crate::grid::lemma_wrap_totality(y, h);
    crate::grid::lemma_wrap_totality(y + 1, h);
    crate::grid::lemma_wrap_totality(y - 1, h);
    crate::grid::lemma_index_in_range(g, x, y);
    let i0 = g.index_of(x, y);
    let d1 = (d + 1) % 4;
    let d3 = (d + 3) % 4;
    assert(delta_x(d3) == -delta_x(d1) && delta_y(d3) == -delta_y(d1));
    // Tick one. The first agent finds the shared cell unmarked, turns
    // right, marks it, and steps forward.
    assert(is_unmarked(g.cell(x, y)));
    let p1 = step_agent(p, g).0;
    let g1 = step_agent(p, g).1;
    assert(g1.cells[i0] == p.color);
    assert(p1.x == x + delta_x(d1) && p1.y == y + delta_y(d1) && p1.dir == d1);
    // The second agent finds that mark, turns left, erases it, and steps
    // the opposite way.
    assert(!is_unmarked(g1.cell(x, y)));
    let q1 = step_agent(q, g1).0;
    let g2 = step_agent(q, g1).1;
    assert(g2.cells =~= g.cells.update(i0, crate::color::background()));
    assert(q1.x == x - delta_x(d1) && q1.y == y - delta_y(d1) && q1.dir == d3);
    let s1 = tick_spec(SimModel { agents: seq![p, q], grid: g });
    assert(s1.agents[0] == p1 && s1.agents[1] == q1 && s1.agents.len() == 2 && s1.grid == g2);
    // The wrapped landing cells of the two agents: in range, distinct from
    // the start, and distinct from each other, since each extent is at
    // least three.
    let fx = crate::grid::wrap_spec(x + delta_x(d1), w);
    let fy = crate::grid::wrap_spec(y + delta_y(d1), h);
    let bx = crate::grid::wrap_spec(x - delta_x(d1), w);
    let by = crate::grid::wrap_spec(y - delta_y(d1), h);
    assert(0 <= fx < w && 0 <= fy < h && 0 <= bx < w && 0 <= by < h);
    assert(fx != x || fy != y);
    assert(bx != x || by != y);
    assert(fx != bx || fy != by);
    let fwd = g.index_of(p1.x, p1.y);
    let bwd = g.index_of(q1.x, q1.y);
    assert(fwd == fy * w + fx && bwd == by * w + bx && i0 == y * w + x);
    crate::grid::lemma_index_injective(g, fx, fy, x, y);
    crate::grid::lemma_index_injective(g, bx, by, x, y);
    crate::grid::lemma_index_injective(g, fx, fy, bx, by);
    crate::grid::lemma_index_in_range(g, p1.x, p1.y);
    crate::grid::lemma_index_in_range(g, q1.x, q1.y);
    // Tick two. Both agents stand on untouched background cells: the first
    // marks its landing cell with its own color, the second likewise, and
    // neither write lands on the other's cell.
    assert(g2.cells[fwd] == g.cells[fwd]);
    assert(is_unmarked(g2.cell(p1.x, p1.y)));
    let g3 = step_agent(p1, g2).1;
    assert(g3.cells[fwd] == p.color);
    assert(g3.cells[bwd] == g.cells[bwd]);
    assert(is_unmarked(g3.cell(q1.x, q1.y)));
    let g4 = step_agent(q1, g3).1;
    assert(g4.cells[fwd] == p.color);
    let s2 = run_ticks_spec(SimModel { agents: seq![p, q], grid: g }, 2);
    assert(s2 == tick_spec(s1));
    assert(s2.grid == g4);
    assert(g.index_of(x + delta_x(d1), y + delta_y(d1)) == fwd);
}

/// Order sensitivity: within one tick, ties on a shared cell are broken by
/// insertion order, not merged. Two agents of distinct colors that start on
/// the same cell of an all-background grid trade roles when their insertion
/// order is swapped — whichever is listed first marks first — and after two
/// ticks the two runs' grids differ: the cell ahead of the shared start
/// holds the first-listed agent's color. Equal colors are left out, since
/// two agents alike in every field leave identical traces in either order.
pub proof fn lemma_order_sensitivity(g: GridModel, a: AgentModel, b: AgentModel)
    requires
        g.wf(),
        g.all_background(),
        3 <= g.width,
        3 <= g.height,
        a.wf(),
        b.wf(),
        b.x == a.x,
        b.y == a.y,
        b.dir == a.dir,
        0 <= a.x < g.width,
        0 <= a.y < g.height,
        !is_unmarked(a.color),
        !is_unmarked(b.color),
        a.color != b.color,
    ensures
        run_ticks_spec(SimModel { agents: seq![a, b], grid: g }, 2).grid
            != run_ticks_spec(SimModel { agents: seq![b, a], grid: g }, 2).grid,
{
    lemma_two_tick_trace(g, a, b);
    lemma_two_tick_trace(g, b, a);
    let d1 = (a.dir + 1) % 4;
    let fwd = g.index_of(a.x + delta_x(d1), a.y + delta_y(d1));
    let g_ab = run_ticks_spec(SimModel { agents: seq![a, b], grid: g }, 2).grid;
    let g_ba = run_ticks_spec(SimModel { agents: seq![b, a], grid: g }, 2).grid;
    assert(g_ab.cells[fwd] == a.color && g_ba.cells[fwd] == b.color);
}

/// Determinism: the simulation consumes randomness only when agents are
/// constructed, so once the agents' colors, positions, facings and order are
/// fixed, the state after any number of ticks is a function of the starting
/// state alone — two equal simulations stay equal, tick for tick.
pub proof fn lemma_determinism(s1: SimModel, s2: SimModel, k: nat)
    requires
        s1 == s2,
    ensures
        run_ticks_spec(s1, k) == run_ticks_spec(s2, k),
{
}

/// The simulation: a grid and the agents that walk it, updated in insertion
/// order.
pub struct Simulation {
    grid: Grid,
    agents: Vec<Agent>,
}

impl View for Simulation {
    type V = SimModel;

    closed spec fn view(&self) -> SimModel {
        SimModel { agents: self.agents@.map_values(|a: Agent| a@), grid: self.grid@ }
    }
}

impl Simulation {
    /// A simulation over a fresh all-background grid of the given extents,
    /// with no agents yet.
    pub fn new(width: usize, height: usize) -> (s: Simulation)
        requires
            crate::grid::valid_extents(width as int, height as int),
        ensures
            s@.wf(),
            s@.agents.len() == 0,
            s@.grid.width == width,
            s@.grid.height == height,
            s@.grid.all_background(),
    {
        Simulation { grid: Grid::new(width, height), agents: Vec::new() }
    }

    /// A simulation if the grid extents are usable, and `None` exactly when
    /// they are not.
    pub fn try_new(width: usize, height: usize) -> (r: Option<Simulation>)
        ensures
            match r {
                Some(s) => {
                    &&& s@.wf()
                    &&& s@.agents.len() == 0
                    &&& s@.grid.width == width
                    &&& s@.grid.height == height
                    &&& s@.grid.all_background()
                },
                None => !crate::grid::valid_extents(width as int, height as int),
            },
    {
        match Grid::try_new(width, height) {
            Some(grid) => Some(Simulation { grid, agents: Vec::new() }),
            None => None,
        }
    }

    /// Append one agent; it will update after every agent already present.
    pub fn add_agent(&mut self, agent: Agent)
        requires
            old(self)@.wf(),
            agent@.wf(),
        ensures
            final(self)@.wf(),
            final(self)@.agents == old(self)@.agents.push(agent@),
            final(self)@.grid == old(self)@.grid,
    {
        self.agents.push(agent);
        proof {
            assert(self@.agents =~= old(self)@.agents.push(agent@));
        }
    }

    /// Append `n` fresh agents: each gets a random opaque color and a
    /// uniformly random position inside the grid, and faces left, as every
    /// fresh agent does by convention.
    pub fn add_random_agents(&mut self, n: usize)
        requires
            old(self)@.wf(),
            old(self)@.agents.len() + n <= usize::MAX,
        ensures
            final(self)@.wf(),
            final(self)@.agents.len() == old(self)@.agents.len() + n,
            forall|i: int|
                0 <= i < old(self)@.agents.len() ==> final(self)@.agents[i] == old(self)@.agents[i],
            forall|i: int|
                old(self)@.agents.len() <= i < final(self)@.agents.len() ==> {
                    &&& final(self)@.agents[i].dir == 3
                    &&& 0 <= final(self)@.agents[i].x < old(self)@.grid.width
                    &&& 0 <= final(self)@.agents[i].y < old(self)@.grid.height
                    &&& final(self)@.agents[i].color.a == 255
                },
            final(self)@.grid == old(self)@.grid,
    {
        let mut k: usize = 0;
        while k < n
            invariant
                k <= n,
                self@.wf(),
                self@.agents.len() == old(self)@.agents.len() + k,
                forall|i: int|
                    0 <= i < old(self)@.agents.len() ==> self@.agents[i] == old(self)@.agents[i],
                forall|i: int|
                    old(self)@.agents.len() <= i < self@.agents.len() ==> {
                        &&& self@.agents[i].dir == 3
                        &&& 0 <= self@.agents[i].x < old(self)@.grid.width
                        &&& 0 <= self@.agents[i].y < old(self)@.grid.height
                        &&& self@.agents[i].color.a == 255
                    },
                self@.grid == old(self)@.grid,
            decreases n - k,
        {
            let agent = Agent::new(self.grid.width(), self.grid.height());
            self.add_agent(agent);
            k = k + 1;
        }
    }

    /// The shared grid, for rendering or export.
    pub fn grid(&self) -> (g: &Grid)
        ensures
            g@ == self@.grid,
    {
        &self.grid
    }

    /// The agents, in insertion order.
    pub fn agents(&self) -> (v: &Vec<Agent>)
        ensures
            v@.len() == self@.agents.len(),
            forall|i: int| 0 <= i < v@.len() ==> v@[i]@ == self@.agents[i],
    {
        &self.agents
    }

    /// One tick: run every agent's rule once, in insertion order, against
    /// the shared grid.
    pub fn tick(&mut self)
        requires
            old(self)@.wf(),
        ensures
            final(self)@ == tick_spec(old(self)@),
            final(self)@.wf(),
    {
        let ghost orig = self@;
        let mut i: usize = 0;
        while i < self.agents.len()
            invariant
                i <= self.agents@.len(),
                self@.wf(),
                self@.agents.len() == orig.agents.len(),
                run_from(orig.agents, orig.grid, 0) == run_from(self@.agents, self@.grid, i as int),
            decreases self.agents@.len() - i,
        {
            let ghost pre = self@;
            let mut agent = self.agents[i];
            agent.update(&mut self.grid);
            self.agents[i] = agent;
            proof {
                assert(self@.agents =~= pre.agents.update(i as int, agent@));
            }
            i = i + 1;
        }
    }

    /// Advance the simulation by `n` ticks.
    pub fn tick_many(&mut self, n: usize)
        requires
            old(self)@.wf(),
        ensures
            final(self)@ == run_ticks_spec(old(self)@, n as nat),
            final(self)@.wf(),
    {
        let ghost orig = self@;
        let mut k: usize = 0;
        while k < n
            invariant
                k <= n,
                self@.wf(),
                run_ticks_spec(orig, n as nat) == run_ticks_spec(self@, (n - k) as nat),
            decreases n - k,
        {
            self.tick();
            k = k + 1;
        }
    }
}

} // verus!
