//! The agent ("ant"): a mobile cursor with a color, a signed position and a
//! 4-way facing, executing the mark-and-turn rule on a grid.

use vstd::prelude::*;
use crate::color::{background, is_unmarked, Color};
use crate::grid::{Grid, GridModel};
use crate::rng::random_below;

verus! {

/// The x component of the unit step for a facing: the direction table is
/// `{0: up, 1: right, 2: down, 3: left}`.
pub open spec fn delta_x(dir: int) -> int {
    if dir == 1 {
        1
    } else if dir == 3 {
        -1
    } else {
        0
    }
}

/// The y component of the unit step for a facing, with y growing downward.
pub open spec fn delta_y(dir: int) -> int {
    if dir == 0 {
        -1
    } else if dir == 2 {
        1
    } else {
        0
    }
}

/// The mathematical state of an agent: its fixed color, signed position and
/// facing.
pub ghost struct AgentModel {
    pub color: Color,
    pub x: int,
    pub y: int,
    pub dir: int,
}

impl AgentModel {
    /// Well-formed agent state: the facing is one of the four directions.
    pub open spec fn wf(self) -> bool {
        0 <= self.dir < 4
    }
}

/// One application of the rule: the agent reads the cell under it; on the
/// unmarked background it turns right and marks the cell with its own color,
/// on a marked cell it turns left and erases the mark; it then moves one
/// cell in the new facing. The new position is the wrapped old position plus
/// the unit step, so it lies at most one cell outside the grid.
pub open spec fn step_agent(a: AgentModel, g: GridModel) -> (AgentModel, GridModel) {
    let wx = crate::grid::wrap_spec(a.x, g.width);
    let wy = crate::grid::wrap_spec(a.y, g.height);
    if is_unmarked(g.cell(a.x, a.y)) {
        let dir = (a.dir + 1) % 4;
        (
            AgentModel { x: wx + delta_x(dir), y: wy + delta_y(dir), dir, ..a },
            g.write(a.x, a.y, a.color),
        )
    } else {
        let dir = (a.dir + 3) % 4;
        (
            AgentModel { x: wx + delta_x(dir), y: wy + delta_y(dir), dir, ..a },
            g.write(a.x, a.y, background()),
        )
    }
}

/// An agent: color fixed at creation, a signed position that may sit one
/// step outside the grid until the next access wraps it, and a facing given
/// as an index into the direction table `{up, right, down, left}`.
#[derive(Clone, Copy)]
pub struct Agent {
    color: Color,
    x: isize,
    y: isize,
    dir: usize,
}

impl View for Agent {
    type V = AgentModel;

    closed spec fn view(&self) -> AgentModel {
        AgentModel { color: self.color, x: self.x as int, y: self.y as int, dir: self.dir as int }
    }
}

impl Agent {
    /// An agent at a chosen cell with a chosen color and facing.
    pub fn at(x: isize, y: isize, dir: usize, color: Color) -> (a: Agent)
        requires
            dir < 4,
        ensures
            a@ == (AgentModel { color, x: x as int, y: y as int, dir: dir as int }),
            a@.wf(),
    {
        Agent { color, x, y, dir }
    }

    /// An agent with a random opaque color and a uniformly random position
    /// inside a grid of the given extents, facing left, as a fresh agent
    /// does by convention.
    pub fn new(width: usize, height: usize) -> (a: Agent)
        requires
            0 < width <= isize::MAX,
            0 < height <= isize::MAX,
        ensures
            a@.wf(),
            a@.dir == 3,
            0 <= a@.x < width,
            0 <= a@.y < height,
            a@.color.a == 255,
    {
        let color = Color {
            r: random_below(256) as u8,
            g: random_below(256) as u8,
            b: random_below(256) as u8,
            a: 255,
        };
        let x = random_below(width) as isize;
        let y = random_below(height) as isize;
        Agent { color, x, y, dir: 3 }
    }

    /// The agent's fixed color.
    pub fn color(&self) -> (c: Color)
        ensures
            c == self@.color,
    {
        self.color
    }

    /// The agent's current position, possibly one step outside the grid.
    pub fn position(&self) -> (p: (isize, isize))
        ensures
            p.0 == self@.x,
            p.1 == self@.y,
    {
        (self.x, self.y)
    }

    /// The agent's current facing, an index into `{up, right, down, left}`.
    pub fn facing(&self) -> (d: usize)
        ensures
            d == self@.dir,
    {
        self.dir
    }

    /// Apply the mark-and-turn rule once: exactly the transition that
    /// `step_agent` describes, on this agent and the shared grid.
    pub fn update(&mut self, grid: &mut Grid)
        requires
            old(self)@.wf(),
            old(grid)@.wf(),
        ensures
            (final(self)@, final(grid)@) == step_agent(old(self)@, old(grid)@),
            final(self)@.wf(),
            final(grid)@.wf(),
            final(self)@.color == old(self)@.color,
    {
        let wx = crate::grid::wrap(self.x, grid.width());
        let wy = crate::grid::wrap(self.y, grid.height());
        let under = grid.get(self.x, self.y);
        if under.is_unmarked() {
            let color = self.color;
            grid.set(self.x, self.y, color);
            self.dir = (self.dir + 1) % 4;
        } else {
            grid.set(self.x, self.y, Color::background());
            self.dir = (self.dir + 3) % 4;
        }
        let (dx, dy) = Self::delta(self.dir);
        self.x = wx as isize + dx;
        self.y = wy as isize + dy;
    }

    /// The unit step for a facing, as executable values.
    fn delta(dir: usize) -> (d: (isize, isize))
        requires
            dir < 4,
        ensures
            d.0 == delta_x(dir as int),
            d.1 == delta_y(dir as int),
    {
        if dir == 0 {
            (0, -1)
        } else if dir == 1 {
            (1, 0)
        } else if dir == 2 {
            (0, 1)
        } else {
            (-1, 0)
        }
    }
}

} // verus!
