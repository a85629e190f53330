use langton::{Ant, Direction, Grid};

fn cells(g: &Grid) -> Vec<bool> {
    g.enumerate().iter().map(|c| c.2).collect()
}

#[test]
fn new_grid_is_all_white() {
    let g = Grid::new(4, 3);
    assert_eq!(g.width(), 4);
    assert_eq!(g.height(), 3);
    for y in 0..3 {
        for x in 0..4 {
            assert!(!g.get(x, y));
        }
    }
}

#[test]
fn set_then_get() {
    let mut g = Grid::new(3, 2);
    g.set(2, 1, true);
    assert!(g.get(2, 1));
    assert!(!g.get(1, 1));
    assert!(!g.get(2, 0));
    g.set(2, 1, false);
    assert!(!g.get(2, 1));
}

#[test]
fn flip_returns_previous_color() {
    let mut g = Grid::new(2, 2);
    assert!(!g.flip(1, 0));
    assert!(g.get(1, 0));
    assert!(g.flip(1, 0));
    assert!(!g.get(1, 0));
}

#[test]
fn flip_twice_restores_grid() {
    let mut g = Grid::new(3, 3);
    g.set(0, 0, true);
    g.set(2, 1, true);
    let before = cells(&g);
    g.flip(1, 2);
    assert_ne!(cells(&g), before);
    g.flip(1, 2);
    assert_eq!(cells(&g), before);
    g.flip(2, 1);
    g.flip(2, 1);
    assert_eq!(cells(&g), before);
}

#[test]
fn enumerate_is_row_major() {
    let mut g = Grid::new(3, 2);
    g.set(1, 0, true);
    g.set(2, 1, true);
    let e = g.enumerate();
    assert_eq!(
        e,
        vec![
            (0, 0, false),
            (1, 0, true),
            (2, 0, false),
            (0, 1, false),
            (1, 1, false),
            (2, 1, true),
        ]
    );
    assert_eq!(g.enumerate(), e);
}

#[test]
fn centered_ant_faces_north() {
    let g = Grid::new(41, 41);
    let a = Ant::centered(&g);
    assert_eq!(a.position(), (20, 20));
    assert_eq!(a.facing(), Direction::North);
    let g = Grid::new(4, 7);
    let a = Ant::centered(&g);
    assert_eq!(a.position(), (2, 3));
}

#[test]
fn five_step_trace() {
    let mut g = Grid::new(5, 5);
    let mut a = Ant::new(2, 2, Direction::North);

    a.step(&mut g);
    assert_eq!((a.position(), a.facing()), ((3, 2), Direction::East));
    assert!(g.get(2, 2));

    a.step(&mut g);
    assert_eq!((a.position(), a.facing()), ((3, 1), Direction::South));
    assert!(g.get(3, 2));

    a.step(&mut g);
    assert_eq!((a.position(), a.facing()), ((2, 1), Direction::West));
    assert!(g.get(3, 1));

    a.step(&mut g);
    assert_eq!((a.position(), a.facing()), ((2, 2), Direction::North));
    assert!(g.get(2, 1));

    a.step(&mut g);
    assert_eq!((a.position(), a.facing()), ((1, 2), Direction::West));
    assert!(!g.get(2, 2));

    let black: Vec<(usize, usize)> =
        g.enumerate().iter().filter(|c| c.2).map(|c| (c.0, c.1)).collect();
    assert_eq!(black, vec![(2, 1), (3, 1), (3, 2)]);
}

#[test]
fn one_by_one_grid_wraps_in_place() {
    let mut g = Grid::new(1, 1);
    let mut a = Ant::new(0, 0, Direction::North);
    a.step(&mut g);
    assert_eq!(a.position(), (0, 0));
    assert_eq!(a.facing(), Direction::East);
    assert!(g.get(0, 0));
    a.step(&mut g);
    assert_eq!(a.position(), (0, 0));
    assert_eq!(a.facing(), Direction::North);
    assert!(!g.get(0, 0));
}

#[test]
fn edges_wrap_around() {
    // white cell, facing North: turn right to East and leave by the right edge
    let mut g = Grid::new(3, 4);
    let mut a = Ant::new(2, 1, Direction::North);
    a.step(&mut g);
    assert_eq!((a.position(), a.facing()), ((0, 1), Direction::East));

    // white cell, facing South: turn right to West and leave by the left edge
    let mut g = Grid::new(3, 4);
    let mut a = Ant::new(0, 1, Direction::South);
    a.step(&mut g);
    assert_eq!((a.position(), a.facing()), ((2, 1), Direction::West));

    // white cell, facing West: turn right to North and leave by the top row
    let mut g = Grid::new(3, 4);
    let mut a = Ant::new(1, 3, Direction::West);
    a.step(&mut g);
    assert_eq!((a.position(), a.facing()), ((1, 0), Direction::North));

    // white cell, facing East: turn right to South and leave by row zero
    let mut g = Grid::new(3, 4);
    let mut a = Ant::new(1, 0, Direction::East);
    a.step(&mut g);
    assert_eq!((a.position(), a.facing()), ((1, 3), Direction::South));
}

#[test]
fn turn_table_on_black_cells() {
    let cases = [
        (Direction::North, (1, 2), Direction::West),
        (Direction::South, (3, 2), Direction::East),
        (Direction::East, (2, 3), Direction::North),
        (Direction::West, (2, 1), Direction::South),
    ];
    for (facing, pos, new_facing) in cases {
        let mut g = Grid::new(5, 5);
        g.set(2, 2, true);
        let mut a = Ant::new(2, 2, facing);
        a.step(&mut g);
        assert_eq!(a.position(), pos);
        assert_eq!(a.facing(), new_facing);
        assert!(!g.get(2, 2));
    }
}

#[test]
fn turn_table_on_white_cells() {
    let cases = [
        (Direction::North, (3, 2), Direction::East),
        (Direction::South, (1, 2), Direction::West),
        (Direction::East, (2, 1), Direction::South),
        (Direction::West, (2, 3), Direction::North),
    ];
    for (facing, pos, new_facing) in cases {
        let mut g = Grid::new(5, 5);
        let mut a = Ant::new(2, 2, facing);
        a.step(&mut g);
        assert_eq!(a.position(), pos);
        assert_eq!(a.facing(), new_facing);
        assert!(g.get(2, 2));
    }
}

#[test]
fn step_changes_exactly_the_occupied_cell() {
    let mut g = Grid::new(6, 5);
    let mut a = Ant::new(3, 2, Direction::West);
    for _ in 0..40 {
        let before = cells(&g);
        let (x, y) = a.position();
        a.step(&mut g);
        let after = cells(&g);
        let changed: Vec<usize> = (0..before.len()).filter(|&i| before[i] != after[i]).collect();
        assert_eq!(changed, vec![y * 6 + x]);
        let (nx, ny) = a.position();
        assert!(nx < 6 && ny < 5);
    }
}

#[test]
fn equal_starts_give_equal_runs() {
    let mut g1 = Grid::new(7, 7);
    let mut g2 = Grid::new(7, 7);
    g1.set(1, 4, true);
    g2.set(1, 4, true);
    let mut a1 = Ant::new(3, 3, Direction::South);
    let mut a2 = Ant::new(3, 3, Direction::South);
    for _ in 0..200 {
        a1.step(&mut g1);
        a2.step(&mut g2);
        assert_eq!(a1, a2);
        assert_eq!(g1.enumerate(), g2.enumerate());
    }
}
