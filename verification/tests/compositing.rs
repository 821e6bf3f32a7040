use diorama::cellular::{CellValue, Grid};
use diorama::compositor::{cell_display_char, render};

#[test]
fn every_cell_value_maps_to_its_glyph() {
    assert_eq!(cell_display_char(CellValue::Empty), ' ');
    assert_eq!(cell_display_char(CellValue::Steam(4)), '\u{2588}');
    assert_eq!(cell_display_char(CellValue::Steam(3)), '\u{2593}');
    assert_eq!(cell_display_char(CellValue::Steam(2)), '\u{2592}');
    assert_eq!(cell_display_char(CellValue::Steam(1)), '\u{2591}');
    assert_eq!(cell_display_char(CellValue::Scene('z')), 'z');
    // An out-of-range level displays as a blank, never as an error.
    assert_eq!(cell_display_char(CellValue::Steam(0)), ' ');
    assert_eq!(cell_display_char(CellValue::Steam(9)), ' ');
}

#[test]
fn render_lays_the_grid_out_row_major() {
    let mut g = Grid::new(3, 2);
    g.set_value(0, 0, CellValue::Scene('a'));
    g.set_value(0, 2, CellValue::Steam(4));
    g.set_value(1, 1, CellValue::Steam(1));
    let buf = render(&g);
    assert_eq!(buf, vec!['a', ' ', '\u{2588}', ' ', '\u{2591}', ' ']);
}

#[test]
fn render_is_pure() {
    let mut g = Grid::new(2, 2);
    g.set_value(0, 1, CellValue::Steam(3));
    g.set_value(1, 0, CellValue::Scene('c'));
    let first = render(&g);
    let second = render(&g);
    // The same grid composites to the same frame both times...
    assert_eq!(first, second);
    // ...and rendering has not touched the grid.
    assert_eq!(g.width, 2);
    assert_eq!(g.height, 2);
    assert_eq!(g.cell_at(0, 1).value, CellValue::Steam(3));
    assert_eq!(g.cell_at(1, 0).value, CellValue::Scene('c'));
    assert_eq!(g.cell_at(0, 0).value, CellValue::Empty);
}

#[test]
fn render_has_the_grid_shape() {
    let g = Grid::new(7, 5);
    let buf = render(&g);
    assert_eq!(buf.len(), 35);
    assert!(buf.iter().all(|&c| c == ' '));
}
