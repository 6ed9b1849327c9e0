use tmv::grid::Collision;
use tmv::walls::{extract_walls, Wall};

fn grid(cells: &[(i32, i32)]) -> Collision {
    Collision::from_cells(&cells.to_vec()).expect("window fits")
}

fn block(x0: i32, y0: i32, x1: i32, y1: i32) -> Vec<(i32, i32)> {
    let mut v = Vec::new();
    for y in y0..y1 {
        for x in x0..x1 {
            v.push((x, y));
        }
    }
    v
}

fn sorted(mut w: Vec<Wall>) -> Vec<Wall> {
    w.sort();
    w
}

#[test]
fn from_cells_marks_listed_tiles() {
    let g = grid(&[(2, 3), (4, 5)]);
    assert_eq!(g.offset, (2, 3));
    assert_eq!(g.size, (3, 3));
    assert!(g.check_collision(2, 3));
    assert!(g.check_collision(4, 5));
    assert!(!g.check_collision(3, 4));
    assert!(!g.check_collision(100, 100));
    assert!(!g.check_collision(-5, 3));
}

#[test]
fn from_cells_rejects_empty_list() {
    assert!(Collision::from_cells(&Vec::new()).is_none());
}

#[test]
fn from_cells_rejects_window_at_the_edge_of_i32() {
    assert!(Collision::from_cells(&vec![(i32::MIN, 0)]).is_none());
    assert!(Collision::from_cells(&vec![(0, i32::MAX - 1)]).is_none());
}

#[test]
fn rect_collision_finds_solid_tile_in_block() {
    let g = grid(&[(5, 5)]);
    assert!(g.check_rect_collision((4, 4), (6, 6)));
    assert!(!g.check_rect_collision((6, 5), (8, 8)));
    assert!(!g.check_rect_collision((5, 5), (5, 6)));
}

#[test]
fn single_tile_outline_is_four_unit_walls() {
    let walls = extract_walls(&grid(&[(0, 0)]));
    assert_eq!(
        walls,
        vec![((0, 0), (1, 0)), ((0, 1), (1, 1)), ((0, 0), (0, 1)), ((1, 0), (1, 1))]
    );
}

#[test]
fn rectangle_outline_has_no_interior_segments() {
    let walls = extract_walls(&grid(&block(-2, 1, 3, 4)));
    assert_eq!(walls.len(), 4);
    assert_eq!(
        sorted(walls),
        sorted(vec![((-2, 1), (3, 1)), ((-2, 4), (3, 4)), ((-2, 1), (-2, 4)), ((3, 1), (3, 4))])
    );
}

#[test]
fn two_disjoint_blocks_give_two_outlines() {
    let mut cells = block(0, 0, 2, 2);
    cells.extend(block(4, 1, 7, 3));
    let walls = extract_walls(&grid(&cells));
    assert_eq!(walls.len(), 8);
    assert_eq!(
        sorted(walls),
        sorted(vec![
            ((0, 0), (2, 0)),
            ((0, 2), (2, 2)),
            ((0, 0), (0, 2)),
            ((2, 0), (2, 2)),
            ((4, 1), (7, 1)),
            ((4, 3), (7, 3)),
            ((4, 1), (4, 3)),
            ((7, 1), (7, 3)),
        ])
    );
}

#[test]
fn hole_gives_an_inner_outline() {
    let mut cells = block(0, 0, 3, 3);
    cells.retain(|c| *c != (1, 1));
    let walls = extract_walls(&grid(&cells));
    assert_eq!(walls.len(), 8);
    assert!(walls.contains(&((1, 1), (2, 1))));
    assert!(walls.contains(&((1, 2), (2, 2))));
    assert!(walls.contains(&((1, 1), (1, 2))));
    assert!(walls.contains(&((2, 1), (2, 2))));
}

#[test]
fn l_shape_merges_collinear_edges() {
    let cells = vec![(0, 0), (0, 1), (1, 1)];
    let walls = extract_walls(&grid(&cells));
    assert_eq!(
        sorted(walls),
        sorted(vec![
            ((0, 0), (1, 0)),
            ((1, 1), (2, 1)),
            ((0, 2), (2, 2)),
            ((0, 0), (0, 2)),
            ((1, 0), (1, 1)),
            ((2, 1), (2, 2)),
        ])
    );
}
