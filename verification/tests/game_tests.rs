use meta_cross::game::{Board, Cell, Coord, Grid, Sign};

fn put(g: &mut Grid, x: usize, y: usize, s: Sign) {
    g.set_at(Coord::new(x, y), Cell::Taken(s));
}

fn sorted_cells(v: &[Coord]) -> Vec<(usize, usize)> {
    let mut out: Vec<(usize, usize)> = v.iter().map(|c| (c.x, c.y)).collect();
    out.sort();
    out
}

#[test]
fn opponent_flips() {
    assert_eq!(Sign::Cross.opponent(), Sign::Circle);
    assert_eq!(Sign::Circle.opponent(), Sign::Cross);
}

#[test]
fn from_raw_reads_two_bytes() {
    assert_eq!(Coord::from_raw(&[1, 2]), Some(Coord::new(1, 2)));
    assert_eq!(Coord::from_raw(&[0, 0, 7]), Some(Coord::new(0, 0)));
    assert_eq!(Coord::from_raw(&[3, 0]), None);
    assert_eq!(Coord::from_raw(&[0, 255]), None);
    assert_eq!(Coord::from_raw(&[1]), None);
    assert_eq!(Coord::from_raw(&[]), None);
}

#[test]
fn empty_grid_has_no_win() {
    let g = Grid::new();
    assert!(g.is_win(Sign::Cross).is_none());
    assert!(g.is_win(Sign::Circle).is_none());
}

#[test]
fn single_row_win_is_exactly_that_line() {
    let mut g = Grid::new();
    put(&mut g, 0, 1, Sign::Cross);
    put(&mut g, 1, 1, Sign::Cross);
    put(&mut g, 2, 1, Sign::Cross);
    let cells = g.is_win(Sign::Cross).expect("a complete row wins");
    assert_eq!(sorted_cells(&cells), vec![(0, 1), (1, 1), (2, 1)]);
    assert!(g.is_win(Sign::Circle).is_none());
}

#[test]
fn single_column_win_is_exactly_that_line() {
    let mut g = Grid::new();
    put(&mut g, 2, 0, Sign::Circle);
    put(&mut g, 2, 1, Sign::Circle);
    put(&mut g, 2, 2, Sign::Circle);
    let cells = g.is_win(Sign::Circle).expect("a complete column wins");
    assert_eq!(sorted_cells(&cells), vec![(2, 0), (2, 1), (2, 2)]);
}

#[test]
fn diagonal_win_is_exactly_that_line() {
    let mut g = Grid::new();
    put(&mut g, 0, 0, Sign::Cross);
    put(&mut g, 1, 1, Sign::Cross);
    put(&mut g, 2, 2, Sign::Cross);
    let cells = g.is_win(Sign::Cross).expect("the main diagonal wins");
    assert_eq!(sorted_cells(&cells), vec![(0, 0), (1, 1), (2, 2)]);
}

#[test]
fn anti_diagonal_win_is_exactly_that_line() {
    let mut g = Grid::new();
    put(&mut g, 2, 0, Sign::Cross);
    put(&mut g, 1, 1, Sign::Cross);
    put(&mut g, 0, 2, Sign::Cross);
    let cells = g.is_win(Sign::Cross).expect("the anti-diagonal wins");
    assert_eq!(sorted_cells(&cells), vec![(0, 2), (1, 1), (2, 0)]);
}

#[test]
fn corner_move_finishing_row_and_diagonal_yields_five_cells() {
    // Row y = 0 and the main diagonal share the corner (0, 0): completing
    // both at once must return the 5-coordinate union.
    let mut g = Grid::new();
    put(&mut g, 1, 0, Sign::Cross);
    put(&mut g, 2, 0, Sign::Cross);
    put(&mut g, 1, 1, Sign::Cross);
    put(&mut g, 2, 2, Sign::Cross);
    assert!(g.is_win(Sign::Cross).is_none());
    put(&mut g, 0, 0, Sign::Cross);
    let cells = g.is_win(Sign::Cross).expect("corner completes two lines");
    assert_eq!(
        sorted_cells(&cells),
        vec![(0, 0), (1, 0), (1, 1), (2, 0), (2, 2)]
    );
}

#[test]
fn incomplete_line_is_no_win() {
    let mut g = Grid::new();
    put(&mut g, 0, 0, Sign::Cross);
    put(&mut g, 1, 0, Sign::Cross);
    put(&mut g, 2, 0, Sign::Circle);
    assert!(g.is_win(Sign::Cross).is_none());
    assert!(g.is_win(Sign::Circle).is_none());
}

#[test]
fn is_tie_only_when_every_cell_set() {
    let mut g = Grid::new();
    assert!(!g.is_tie());
    for y in 0..3 {
        for x in 0..3 {
            let s = if (x + y) % 2 == 0 { Sign::Cross } else { Sign::Circle };
            put(&mut g, x, y, s);
        }
    }
    assert!(g.is_tie());
    let mut h = Grid::new();
    for y in 0..3 {
        for x in 0..3 {
            if !(x == 1 && y == 2) {
                put(&mut h, x, y, Sign::Cross);
            }
        }
    }
    assert!(!h.is_tie());
}

#[test]
fn board_cells_start_unset_and_update_independently() {
    let mut b = Board::new();
    let outer = Coord::new(1, 2);
    let inner = Coord::new(0, 1);
    assert_eq!(b.get_cell(outer, inner), Cell::Unset);
    b.set_cell(outer, inner, Cell::Taken(Sign::Circle));
    assert_eq!(b.get_cell(outer, inner), Cell::Taken(Sign::Circle));
    assert_eq!(b.get_cell(inner, outer), Cell::Unset);
    assert_eq!(b.get_cell(outer, Coord::new(1, 1)), Cell::Unset);
}
