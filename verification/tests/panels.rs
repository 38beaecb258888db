use advent_core::days::{create_quiz_day, CalendarDay, RunStatus};
use advent_core::drawing::{draw_ascii, draw_calendar, draw_ground, draw_question, draw_text_box};
use advent_core::screen::{Color, Screen};

fn rune_at(screen: &Screen, x: usize, y: usize) -> char {
    screen.render_commands()[y * screen.width() as usize + x].rune
}

fn color_at(screen: &Screen, x: usize, y: usize) -> Color {
    screen.render_commands()[y * screen.width() as usize + x].color
}

#[test]
fn text_box_layout() {
    // 100 x 50 logical grid; "Hi" is centred at x0 = 49, y0 = 25.
    let mut s = Screen::new((101, 50));
    let hovered = draw_text_box(&mut s, 100, 50, "Hi", 0, 0, (0, 0), false);
    assert!(!hovered);
    assert_eq!(rune_at(&s, 49, 25), 'H');
    assert_eq!(rune_at(&s, 50, 25), 'i');
    assert_eq!(rune_at(&s, 46, 24), '╭');
    assert_eq!(rune_at(&s, 53, 24), '╮');
    assert_eq!(rune_at(&s, 47, 24), '─');
    assert_eq!(rune_at(&s, 46, 26), '╰');
    assert_eq!(rune_at(&s, 53, 26), '╯');
    assert_eq!(rune_at(&s, 46, 25), '│');
    assert_eq!(rune_at(&s, 53, 25), '│');
    assert_eq!(color_at(&s, 49, 25), Color::White);
}

#[test]
fn text_box_hover_bounds() {
    // The hover region spans three columns left and two right of the text,
    // one row above and below: x in [46, 53], y in [24, 26].
    let mut s = Screen::new((101, 50));
    assert!(draw_text_box(&mut s, 100, 50, "Hi", 0, 0, (46, 24), false));
    assert!(draw_text_box(&mut s, 100, 50, "Hi", 0, 0, (53, 26), false));
    assert!(!draw_text_box(&mut s, 100, 50, "Hi", 0, 0, (45, 25), false));
    assert!(!draw_text_box(&mut s, 100, 50, "Hi", 0, 0, (54, 25), false));
    assert!(!draw_text_box(&mut s, 100, 50, "Hi", 0, 0, (49, 23), false));
    assert!(!draw_text_box(&mut s, 100, 50, "Hi", 0, 0, (49, 27), false));
}

#[test]
fn text_box_hover_colors() {
    let mut s = Screen::new((101, 50));
    draw_text_box(&mut s, 100, 50, "Hi", 0, 0, (49, 25), false);
    assert_eq!(color_at(&s, 49, 25), Color::Rgb { r: 255, g: 255, b: 0 });
    draw_text_box(&mut s, 100, 50, "Hi", 0, 0, (49, 25), true);
    assert_eq!(color_at(&s, 49, 25), Color::Rgb { r: 0, g: 255, b: 0 });
}

#[test]
fn text_box_clips_off_screen() {
    let mut s = Screen::new((101, 50));
    let before: Vec<_> = s.clone_buffer();
    // Shoved far off the left edge, every write lands out of bounds.
    draw_text_box(&mut s, 100, 50, "Hi", -2000, 0, (0, 0), false);
    assert_eq!(before, s.clone_buffer());
}

#[test]
fn ground_fills_bottom_row() {
    let mut s = Screen::new((101, 50));
    draw_ground(&mut s);
    for x in 0..100 {
        assert_eq!(rune_at(&s, x, 49), '█');
    }
    assert_eq!(rune_at(&s, 0, 48), ' ');
}

#[test]
fn ascii_art_is_stamped_transparently() {
    let mut s = Screen::new((101, 50));
    s.set_cell(6, 6, 'K', Color::White);
    draw_ascii(&mut s, "ab\n c", 5, 5);
    assert_eq!(rune_at(&s, 5, 5), 'a');
    assert_eq!(rune_at(&s, 6, 5), 'b');
    // The space is transparent: the cell under it keeps its content.
    assert_eq!(rune_at(&s, 5, 6), ' ');
    assert_eq!(rune_at(&s, 6, 6), 'c');
}

#[test]
fn calendar_click_picks_first_hovered_day() {
    // Day 1's box is centred at (25, 19) on a 100 x 50 grid.
    let mut s = Screen::new((101, 50));
    let day = draw_calendar(&mut s, (25, 19), true);
    assert_eq!(day, Some(1));
    assert_eq!(rune_at(&s, 25, 19), '0');
    assert_eq!(rune_at(&s, 26, 19), '1');

    // Day 24 sits in the last column of the last row, centred at (75, 31).
    let mut s2 = Screen::new((101, 50));
    let day24 = draw_calendar(&mut s2, (75, 31), true);
    assert_eq!(day24, Some(24));
    assert_eq!(rune_at(&s2, 75, 31), '2');
    assert_eq!(rune_at(&s2, 76, 31), '4');
}

#[test]
fn calendar_needs_a_click() {
    let mut s = Screen::new((101, 50));
    assert_eq!(draw_calendar(&mut s, (25, 19), false), None);
    let mut s2 = Screen::new((101, 50));
    assert_eq!(draw_calendar(&mut s2, (0, 0), true), None);
}

#[test]
fn question_click_decides() {
    // Two answers: the correct one at position 0 is centred at x0 = 38, the
    // wrong one at x0 = 59, both on row 25.
    let wrongs: [&str; 1] = ["no"];

    let mut s = Screen::new((101, 50));
    let hit = draw_question(&mut s, (38, 25), true, "Q", "yes", &wrongs, 0);
    assert!(hit);
    // The verdict box appears five rows below centre.
    assert_eq!(rune_at(&s, 46, 30), 'C');
    assert_eq!(rune_at(&s, 53, 30), '!');

    let mut s2 = Screen::new((101, 50));
    let miss = draw_question(&mut s2, (59, 25), true, "Q", "yes", &wrongs, 0);
    assert!(!miss);
    assert_eq!(rune_at(&s2, 47, 30), 'W');

    // Hovering without a click decides nothing and paints no verdict.
    let mut s3 = Screen::new((101, 50));
    let idle = draw_question(&mut s3, (38, 25), false, "Q", "yes", &wrongs, 0);
    assert!(!idle);
    assert_eq!(rune_at(&s3, 46, 30), ' ');
}

#[test]
fn quiz_day_reports_correct_answer() {
    // With no wrong answers the correct box must sit at position 0, whatever
    // the generator returned: centred at x0 = 48 on row 25.
    let wrongs: [&str; 0] = [];
    let quiz = create_quiz_day("Q", "yes", &wrongs);

    let mut s = Screen::new((101, 50));
    assert_eq!(quiz.tick(&mut s, (48, 25), true), RunStatus::CORRECT);

    let mut s2 = Screen::new((101, 50));
    assert_eq!(quiz.tick(&mut s2, (0, 0), true), RunStatus::RUNNING);

    let mut s3 = Screen::new((101, 50));
    assert_eq!(quiz.tick(&mut s3, (48, 25), false), RunStatus::RUNNING);
}
