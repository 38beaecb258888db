use advent_core::screen::{Cell, Color, DrawCommand, Screen};

fn rune_at(screen: &Screen, x: u16, y: u16) -> char {
    let commands = screen.render_commands();
    for c in commands.iter() {
        if c.x == x && c.y == y {
            return c.rune;
        }
    }
    panic!("no command for ({}, {})", x, y);
}

#[test]
fn new_clamps_dimensions() {
    let s = Screen::new((120, 50));
    assert_eq!(s.width(), 119);
    assert_eq!(s.height(), 50);

    let tiny = Screen::new((10, 10));
    assert_eq!(tiny.width(), 80);
    assert_eq!(tiny.height(), 40);

    let huge = Screen::new((500, 300));
    assert_eq!(huge.width(), 200);
    assert_eq!(huge.height(), 70);

    let zero = Screen::new((0, 0));
    assert_eq!(zero.width(), 80);
    assert_eq!(zero.height(), 40);
}

#[test]
fn set_cell_roundtrip() {
    let mut s = Screen::new((101, 50));
    s.set_cell(5, 7, 'Q', Color::Rgb { r: 1, g: 2, b: 3 });
    let commands = s.render_commands();
    let idx = 7 * 100 + 5;
    assert_eq!(
        commands[idx],
        DrawCommand { x: 5, y: 7, rune: 'Q', color: Color::Rgb { r: 1, g: 2, b: 3 } }
    );
}

#[test]
fn set_cell_out_of_bounds_is_ignored() {
    let mut s = Screen::new((101, 50));
    let before = s.clone_buffer();
    s.set_cell(100, 0, 'Z', Color::White);
    s.set_cell(0, 50, 'Z', Color::White);
    s.set_cell(u16::MAX, u16::MAX, 'Z', Color::White);
    assert_eq!(before, s.clone_buffer());
}

#[test]
fn set_cell_beyond_real_terminal_is_ignored() {
    // Logical width is clamped up to 80 even though the terminal is narrower:
    // writes inside the logical grid but outside the real terminal must drop.
    let mut s = Screen::new((20, 45));
    assert_eq!(s.width(), 80);
    let before = s.clone_buffer();
    s.set_cell(40, 10, 'Z', Color::White);
    assert_eq!(before, s.clone_buffer());
    // Inside both bounds the write lands.
    s.set_cell(5, 10, 'Z', Color::White);
    assert_eq!(rune_at(&s, 5, 10), 'Z');
}

#[test]
fn resize_with_equivalent_dimensions_preserves_cells() {
    let mut s = Screen::new((101, 50));
    s.resize((101, 50));
    s.set_cell(3, 4, 'K', Color::White);
    // Same clamped dimensions: the buffer must survive untouched.
    s.resize((101, 50));
    assert_eq!(rune_at(&s, 3, 4), 'K');
    // A logically equivalent raw size (height clamps 30 -> 40 vs 40 -> 40
    // only when equal): width 101 and 101 stay, so still no reallocation.
    s.resize((101, 50));
    assert_eq!(rune_at(&s, 3, 4), 'K');
}

#[test]
fn resize_to_new_dimensions_clears() {
    let mut s = Screen::new((101, 50));
    s.set_cell(3, 4, 'K', Color::White);
    s.resize((151, 60));
    assert_eq!(s.width(), 150);
    assert_eq!(s.height(), 60);
    assert_eq!(rune_at(&s, 3, 4), ' ');
}

#[test]
fn clear_blanks_every_cell() {
    let mut s = Screen::new((101, 50));
    s.set_cell(0, 0, 'A', Color::White);
    s.set_cell(99, 49, 'B', Color::White);
    s.clear();
    for c in s.clone_buffer() {
        assert_eq!(c, Cell { rune: ' ', color: Color::White });
    }
}

#[test]
fn index_conversions_are_inverse() {
    let s = Screen::new((101, 50));
    let idx = s.xy_to_index(17, 23);
    assert_eq!(idx, 23 * 100 + 17);
    assert_eq!(s.index_to_xy(idx), (17, 23));
}

#[test]
fn end_to_end_write_render_clear_render() {
    let mut s = Screen::new((81, 40));
    assert_eq!(s.width(), 80);
    assert_eq!(s.height(), 40);
    s.set_cell(0, 0, 'X', Color::White);
    let commands = s.render_commands();
    assert_eq!(commands[0], DrawCommand { x: 0, y: 0, rune: 'X', color: Color::White });
    s.clear();
    let commands = s.render_commands();
    assert_eq!(commands[0], DrawCommand { x: 0, y: 0, rune: ' ', color: Color::White });
}
