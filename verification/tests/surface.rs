use diorama::cellular::{CellValue, Grid};
use diorama::compositor::render;
use diorama::window::{ArrowKeys, Color, ColorPair, RenderError, Window, draw, help_text};

const HELP: &str = "q: Quit, a: increase timeout, s: decrease timeout";

#[test]
fn a_fresh_window_is_blank() {
    let w = Window::new(2, 3, 0, 0);
    for y in 0..2 {
        for x in 0..3 {
            assert_eq!(w.char_at(x, y), ' ');
            assert_eq!(w.color_at(x, y), None);
        }
    }
}

#[test]
fn print_writes_a_run_of_characters() {
    let mut w = Window::new(3, 5, 0, 0);
    let r = w.print(2, 1, &vec!['h', 'i'], None);
    assert!(r.is_ok());
    assert_eq!(w.char_at(2, 1), 'h');
    assert_eq!(w.char_at(3, 1), 'i');
    assert_eq!(w.char_at(1, 1), ' ');
    assert_eq!(w.char_at(4, 1), ' ');
    assert_eq!(w.char_at(2, 0), ' ');
    assert_eq!(w.color_at(2, 1), None);
}

#[test]
fn print_applies_the_color_pair_to_its_run_only() {
    let mut w = Window::new(2, 4, 0, 0);
    let pair = ColorPair::new(Color::Red, Color::Black);
    let r = w.print(1, 0, &vec!['x'], Some(&pair));
    assert!(r.is_ok());
    assert_eq!(w.color_at(1, 0), Some(pair));
    assert_eq!(w.color_at(0, 0), None);
    assert_eq!(w.color_at(2, 0), None);
}

#[test]
fn print_outside_the_surface_fails_and_writes_nothing() {
    let mut w = Window::new(2, 4, 0, 0);
    assert_eq!(w.print(-1, 0, &vec!['x'], None), Err(RenderError::OutOfBounds));
    assert_eq!(w.print(0, -1, &vec!['x'], None), Err(RenderError::OutOfBounds));
    assert_eq!(w.print(0, 2, &vec!['x'], None), Err(RenderError::OutOfBounds));
    assert_eq!(w.print(3, 0, &vec!['x', 'y'], None), Err(RenderError::OutOfBounds));
    for y in 0..2 {
        for x in 0..4 {
            assert_eq!(w.char_at(x, y), ' ');
        }
    }
}

#[test]
fn erase_blanks_the_whole_buffer() {
    let mut w = Window::new(2, 4, 0, 0);
    w.print(0, 0, &vec!['a', 'b', 'c'], None).unwrap();
    w.erase();
    for y in 0..2 {
        for x in 0..4 {
            assert_eq!(w.char_at(x, y), ' ');
            assert_eq!(w.color_at(x, y), None);
        }
    }
}

#[test]
fn the_border_runs_down_the_right_edge() {
    let mut w = Window::new(3, 4, 0, 0);
    assert!(w.draw_border().is_ok());
    for y in 0..3 {
        assert_eq!(w.char_at(3, y), '|');
        assert_eq!(w.char_at(2, y), ' ');
    }
}

#[test]
fn draw_paints_the_frame_and_the_help_line() {
    let mut g = Grid::new(2, 2);
    g.set_value(0, 0, CellValue::Scene('A'));
    g.set_value(0, 1, CellValue::Steam(4));
    g.set_value(1, 1, CellValue::Steam(1));
    let buf = render(&g);
    let mut w = Window::new(3, 60, 0, 0);
    let r = draw(&mut w, &buf, 2, 2);
    assert!(r.is_ok());
    assert_eq!(w.char_at(0, 0), 'A');
    assert_eq!(w.char_at(1, 0), '\u{2588}');
    assert_eq!(w.char_at(0, 1), ' ');
    assert_eq!(w.char_at(1, 1), '\u{2591}');
    // Right of the frame the surface stays blank.
    assert_eq!(w.char_at(2, 0), ' ');
    // The help line sits on the row under the frame.
    for (i, c) in HELP.chars().enumerate() {
        assert_eq!(w.char_at(i, 2), c);
    }
    assert_eq!(w.char_at(HELP.chars().count(), 2), ' ');
}

#[test]
fn draw_needs_room_for_the_help_line() {
    let buf = vec![' '; 4];
    // Two rows hold the frame but leave no row for the help line.
    let mut w = Window::new(2, 60, 0, 0);
    assert_eq!(draw(&mut w, &buf, 2, 2), Err(RenderError::OutOfBounds));
    // A surface narrower than the help line fails too.
    let mut narrow = Window::new(5, 10, 0, 0);
    assert_eq!(draw(&mut narrow, &buf, 2, 2), Err(RenderError::OutOfBounds));
    for y in 0..5 {
        for x in 0..10 {
            assert_eq!(narrow.char_at(x, y), ' ');
        }
    }
}

#[test]
fn the_help_text_is_the_fixed_line() {
    let t = help_text();
    assert_eq!(t.iter().collect::<String>(), HELP);
}

#[test]
fn geometry_accessors_work() {
    let mut w = Window::new(7, 9, 2, 3);
    assert_eq!(w.get_rows(), 7);
    assert_eq!(w.get_cols(), 9);
    assert_eq!(w.get_x(), 2);
    assert_eq!(w.get_y(), 3);
    let mut y: i32 = 0;
    let mut x: i32 = 0;
    w.getmaxyx(&mut y, &mut x);
    assert_eq!((y, x), (7, 9));
    w.set_x(5);
    w.set_y(6);
    assert_eq!((w.get_x(), w.get_y()), (5, 6));
    w.inc_x(-2);
    w.inc_y(4);
    assert_eq!((w.get_x(), w.get_y()), (3, 10));
}

#[test]
fn key_codes_and_palette_indexes() {
    assert_eq!(ArrowKeys::Up.code(), 65);
    assert_eq!(ArrowKeys::Down.code(), 66);
    assert_eq!(ArrowKeys::Right.code(), 67);
    assert_eq!(ArrowKeys::Left.code(), 68);
    assert_eq!(Color::Black.index(), 0);
    assert_eq!(Color::Red.index(), 1);
    assert_eq!(Color::Green.index(), 2);
    assert_eq!(Color::Yellow.index(), 3);
    assert_eq!(Color::Blue.index(), 4);
    assert_eq!(Color::Magenta.index(), 5);
    assert_eq!(Color::Cyan.index(), 6);
    assert_eq!(Color::White.index(), 7);
    let p = ColorPair::new(Color::Cyan, Color::Blue);
    assert_eq!(p.foreground, Color::Cyan);
    assert_eq!(p.background, Color::Blue);
}
