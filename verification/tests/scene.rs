use diorama::cellular::{CellValue, Grid};

fn lines_of(text: &str) -> Vec<Vec<char>> {
    text.lines().map(|l| l.chars().collect()).collect()
}

#[test]
fn scene_load_two_by_two() {
    // The text "AB\nCD" lands character by character on the top-left cells.
    let mut g = Grid::new(2, 2);
    g.apply_scene(&lines_of("AB\nCD"));
    assert_eq!(g.cell_at(0, 0).value, CellValue::Scene('A'));
    assert_eq!(g.cell_at(0, 1).value, CellValue::Scene('B'));
    assert_eq!(g.cell_at(1, 0).value, CellValue::Scene('C'));
    assert_eq!(g.cell_at(1, 1).value, CellValue::Scene('D'));
}

#[test]
fn short_lines_leave_cells_at_their_default() {
    let mut g = Grid::new(3, 3);
    g.apply_scene(&lines_of("A\nBC"));
    assert_eq!(g.cell_at(0, 0).value, CellValue::Scene('A'));
    assert_eq!(g.cell_at(0, 1).value, CellValue::Empty);
    assert_eq!(g.cell_at(0, 2).value, CellValue::Empty);
    assert_eq!(g.cell_at(1, 0).value, CellValue::Scene('B'));
    assert_eq!(g.cell_at(1, 1).value, CellValue::Scene('C'));
    assert_eq!(g.cell_at(2, 0).value, CellValue::Empty);
}

#[test]
fn oversized_scene_is_clipped_to_the_grid() {
    let mut g = Grid::new(2, 2);
    g.apply_scene(&lines_of("WXY\nZW\nVVV"));
    assert_eq!(g.cell_at(0, 0).value, CellValue::Scene('W'));
    assert_eq!(g.cell_at(0, 1).value, CellValue::Scene('X'));
    assert_eq!(g.cell_at(1, 0).value, CellValue::Scene('Z'));
    assert_eq!(g.cell_at(1, 1).value, CellValue::Scene('W'));
}

#[test]
fn scene_keeps_values_it_does_not_cover() {
    let mut g = Grid::new(3, 3);
    g.set_value(2, 2, CellValue::Steam(4));
    g.apply_scene(&lines_of("ab"));
    assert_eq!(g.cell_at(0, 0).value, CellValue::Scene('a'));
    assert_eq!(g.cell_at(0, 1).value, CellValue::Scene('b'));
    assert_eq!(g.cell_at(2, 2).value, CellValue::Steam(4));
}

#[test]
fn scene_keeps_coordinates() {
    let mut g = Grid::new(2, 2);
    g.apply_scene(&lines_of("AB\nCD"));
    for row in 0..2 {
        for col in 0..2 {
            let c = g.cell_at(row, col);
            assert_eq!(c.x, col as i32);
            assert_eq!(c.y, row as i32);
        }
    }
}
