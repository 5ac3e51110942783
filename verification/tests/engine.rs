use langton::agent::Agent;
use langton::color::Color;
use langton::grid::{wrap, Grid};
use langton::sim::Simulation;

fn bg() -> Color {
    Color { r: 255, g: 255, b: 255, a: 255 }
}

fn red() -> Color {
    Color { r: 200, g: 10, b: 30, a: 255 }
}

fn blue() -> Color {
    Color { r: 15, g: 40, b: 220, a: 255 }
}

#[test]
fn wrap_in_range_is_identity() {
    for x in 0..5 {
        assert_eq!(wrap(x, 5), x as usize);
    }
}

#[test]
fn wrap_single_step_corrections() {
    assert_eq!(wrap(-1, 5), 4);
    assert_eq!(wrap(5, 5), 0);
    assert_eq!(wrap(-1, 1), 0);
    assert_eq!(wrap(1, 1), 0);
}

#[test]
fn wrap_matches_normalized_remainder() {
    let extents: [usize; 4] = [1, 2, 5, 97];
    for &w in extents.iter() {
        for x in -300isize..300 {
            let expected = x.rem_euclid(w as isize) as usize;
            assert_eq!(wrap(x, w), expected);
        }
    }
}

#[test]
fn wrap_is_total_far_out_of_range() {
    assert_eq!(wrap(-12, 5), 3);
    assert_eq!(wrap(17, 5), 2);
    assert_eq!(wrap(isize::MIN, 3), isize::MIN.rem_euclid(3) as usize);
    assert_eq!(wrap(isize::MAX, 7), isize::MAX.rem_euclid(7) as usize);
}

#[test]
fn new_grid_is_all_background() {
    let g = Grid::new(4, 3);
    assert_eq!(g.width(), 4);
    assert_eq!(g.height(), 3);
    assert_eq!(g.cells().len(), 12);
    for c in g.cells().iter() {
        assert_eq!(*c, bg());
    }
}

#[test]
fn construction_refuses_empty_or_oversized_extents() {
    assert!(Grid::try_new(0, 5).is_none());
    assert!(Grid::try_new(5, 0).is_none());
    assert!(Grid::try_new(usize::MAX, 2).is_none());
    assert!(Simulation::try_new(0, 0).is_none());
}

#[test]
fn construction_accepts_ordinary_extents() {
    let g = Grid::try_new(4, 3).expect("extents are usable");
    assert_eq!(g.width(), 4);
    assert_eq!(g.height(), 3);
    assert_eq!(g.cells().len(), 12);
    let s = Simulation::try_new(4, 3).expect("extents are usable");
    assert_eq!(s.agents().len(), 0);
}

#[test]
fn grid_set_then_get_round_trip() {
    let mut g = Grid::new(4, 3);
    g.set(2, 1, red());
    assert_eq!(g.get(2, 1), red());
    assert_eq!(g.get(1, 2), bg());
    // Row-major storage: (x, y) lives at y * width + x.
    assert_eq!(g.cells()[1 * 4 + 2], red());
}

#[test]
fn grid_access_wraps_on_both_axes() {
    let mut g = Grid::new(4, 3);
    g.set(-1, -1, red());
    assert_eq!(g.get(3, 2), red());
    let mut g2 = Grid::new(4, 3);
    g2.set(4, 3, blue());
    assert_eq!(g2.get(0, 0), blue());
}

#[test]
fn turn_right_and_mark_on_unmarked_cell() {
    // A 3x3 all-background grid, one agent at (1, 1) facing up.
    let mut g = Grid::new(3, 3);
    let mut a = Agent::at(1, 1, 0, red());
    a.update(&mut g);
    // The cell was unmarked: the agent turns right, marks it, and moves.
    assert_eq!(g.get(1, 1), red());
    assert_eq!(a.position(), (2, 1));
    assert_eq!(a.facing(), 1);
}

#[test]
fn marking_walk_continues_clockwise() {
    let mut g = Grid::new(3, 3);
    let mut a = Agent::at(1, 1, 0, red());
    a.update(&mut g);
    a.update(&mut g);
    assert_eq!(g.get(2, 1), red());
    assert_eq!(a.position(), (2, 2));
    assert_eq!(a.facing(), 2);
    a.update(&mut g);
    assert_eq!(g.get(2, 2), red());
    assert_eq!(a.position(), (1, 2));
    assert_eq!(a.facing(), 3);
}

#[test]
fn erase_and_turn_left_on_marked_cell() {
    // A fresh scenario with the agent standing on an already marked cell.
    let mut g = Grid::new(3, 3);
    g.set(1, 1, blue());
    let mut a = Agent::at(1, 1, 1, red());
    a.update(&mut g);
    // The cell was marked: the agent turns left, erases it, and moves.
    assert_eq!(g.get(1, 1), bg());
    assert_eq!(a.facing(), 0);
    assert_eq!(a.position(), (1, 0));
}

#[test]
fn erase_branch_ignores_which_color_marked_the_cell() {
    let mut g = Grid::new(3, 3);
    g.set(1, 1, red());
    let mut a = Agent::at(1, 1, 0, red());
    a.update(&mut g);
    assert_eq!(g.get(1, 1), bg());
    assert_eq!(a.facing(), 3);
    assert_eq!(a.position(), (0, 1));
}

#[test]
fn agent_reappears_across_right_edge() {
    let mut g = Grid::new(3, 3);
    let mut a = Agent::at(2, 1, 0, red());
    a.update(&mut g);
    // Turned right and stepped off the right edge.
    assert_eq!(a.position(), (3, 1));
    // The next access addresses the cell at x = 0, y unchanged.
    a.update(&mut g);
    assert_eq!(g.get(0, 1), red());
    assert_eq!(g.get(3, 1), red());
}

#[test]
fn agent_reappears_across_left_edge() {
    let mut g = Grid::new(3, 3);
    let mut a = Agent::at(0, 1, 2, red());
    a.update(&mut g);
    // Turned right (to facing left) and stepped off the left edge.
    assert_eq!(a.position(), (-1, 1));
    a.update(&mut g);
    // The step landed on x = width - 1, y unchanged.
    assert_eq!(g.get(2, 1), red());
}

#[test]
fn one_tick_writes_one_cell_per_agent() {
    // Two agents on distinct cells: exactly two cells change.
    let mut s = Simulation::new(5, 5);
    s.add_agent(Agent::at(1, 1, 0, red()));
    s.add_agent(Agent::at(3, 3, 0, blue()));
    s.tick();
    let mut changed = 0;
    for c in s.grid().cells().iter() {
        if *c != bg() {
            changed += 1;
        }
    }
    assert_eq!(changed, 2);
}

#[test]
fn overlapping_writes_touch_at_most_one_cell_per_agent() {
    // Two agents on the same cell: the second erases the first's mark, so
    // at most two, here zero, distinct cells end up changed.
    let mut s = Simulation::new(5, 5);
    s.add_agent(Agent::at(2, 2, 0, red()));
    s.add_agent(Agent::at(2, 2, 0, blue()));
    s.tick();
    let mut changed = 0;
    for c in s.grid().cells().iter() {
        if *c != bg() {
            changed += 1;
        }
    }
    assert_eq!(changed, 0);
}

#[test]
fn fixed_agents_make_runs_bit_identical() {
    let mut s1 = Simulation::new(7, 5);
    let mut s2 = Simulation::new(7, 5);
    for s in [&mut s1, &mut s2] {
        s.add_agent(Agent::at(3, 2, 3, red()));
        s.add_agent(Agent::at(5, 4, 3, blue()));
    }
    s1.tick_many(50);
    s2.tick_many(50);
    assert_eq!(s1.grid().cells(), s2.grid().cells());
    assert_eq!(s1.grid().rgba_bytes(1), s2.grid().rgba_bytes(1));
    for (a, b) in s1.agents().iter().zip(s2.agents().iter()) {
        assert_eq!(a.position(), b.position());
        assert_eq!(a.facing(), b.facing());
        assert_eq!(a.color(), b.color());
    }
}

#[test]
fn tick_many_matches_repeated_ticks() {
    let mut s1 = Simulation::new(6, 6);
    let mut s2 = Simulation::new(6, 6);
    for s in [&mut s1, &mut s2] {
        s.add_agent(Agent::at(2, 3, 0, red()));
    }
    s1.tick_many(12);
    for _ in 0..12 {
        s2.tick();
    }
    assert_eq!(s1.grid().cells(), s2.grid().cells());
}

#[test]
fn swapping_agent_order_changes_the_trace() {
    // Two agents whose paths intersect on the first tick: insertion order
    // decides who marks and who erases, and the grids diverge.
    let mut ab = Simulation::new(3, 3);
    ab.add_agent(Agent::at(1, 1, 0, red()));
    ab.add_agent(Agent::at(1, 1, 0, blue()));
    let mut ba = Simulation::new(3, 3);
    ba.add_agent(Agent::at(1, 1, 0, blue()));
    ba.add_agent(Agent::at(1, 1, 0, red()));
    ab.tick_many(2);
    ba.tick_many(2);
    assert_eq!(ab.grid().get(2, 1), red());
    assert_eq!(ba.grid().get(2, 1), blue());
    assert_eq!(ab.grid().get(0, 1), blue());
    assert_eq!(ba.grid().get(0, 1), red());
    assert_ne!(ab.grid().cells(), ba.grid().cells());
}

#[test]
fn random_agents_start_inside_the_grid() {
    for _ in 0..100 {
        let a = Agent::new(3, 2);
        let (x, y) = a.position();
        assert!(0 <= x && x < 3);
        assert!(0 <= y && y < 2);
        assert_eq!(a.facing(), 3);
        assert_eq!(a.color().a, 255);
    }
}

#[test]
fn one_by_one_grid_pins_random_position() {
    // On a single-cell grid the uniform sample has only one value to take.
    let a = Agent::new(1, 1);
    assert_eq!(a.position(), (0, 0));
}

#[test]
fn add_random_agents_appends_that_many() {
    let mut s = Simulation::new(10, 10);
    s.add_agent(Agent::at(0, 0, 0, red()));
    s.add_random_agents(5);
    assert_eq!(s.agents().len(), 6);
    assert_eq!(s.agents()[0].color(), red());
    for a in s.agents().iter().skip(1) {
        let (x, y) = a.position();
        assert!(0 <= x && x < 10);
        assert!(0 <= y && y < 10);
        assert_eq!(a.facing(), 3);
        assert_eq!(a.color().a, 255);
    }
}

#[test]
fn rgba_bytes_scales_each_cell_to_a_zoom_block() {
    let mut g = Grid::new(2, 1);
    g.set(1, 0, red());
    let buf = g.rgba_bytes(2);
    // A 4x2 canvas: the left 2x2 block background, the right one red.
    assert_eq!(buf.len(), 4 * 2 * 4);
    let expect_row = [
        255, 255, 255, 255, 255, 255, 255, 255, 200, 10, 30, 255, 200, 10, 30, 255,
    ];
    assert_eq!(&buf[0..16], &expect_row[..]);
    assert_eq!(&buf[16..32], &expect_row[..]);
}

#[test]
fn rgba_bytes_at_zoom_one_is_the_raw_snapshot() {
    let mut g = Grid::new(2, 2);
    g.set(0, 1, blue());
    let buf = g.rgba_bytes(1);
    assert_eq!(
        buf,
        vec![255, 255, 255, 255, 255, 255, 255, 255, 15, 40, 220, 255, 255, 255, 255, 255]
    );
}
