use advent_core::screen::Screen;
use advent_core::transition::{Transition, TransitionDirection};

fn alive_count(t: &Transition) -> usize {
    t.cells().iter().filter(|c| c.alive).count()
}

#[test]
fn change_state_seeds_direction_defaults() {
    let mut t = Transition::new(1000, None);
    t.resize(100, 50);
    assert_eq!(t.cells().len(), 5000);

    t.change_state(TransitionDirection::Out);
    assert!(matches!(t.state(), Some(TransitionDirection::Out)));
    assert_eq!(alive_count(&t), 5000);

    t.change_state(TransitionDirection::In);
    assert!(matches!(t.state(), Some(TransitionDirection::In)));
    assert_eq!(alive_count(&t), 0);
}

#[test]
fn update_finishes_exactly_when_summed_time_reaches_duration() {
    let screen = Screen::new((101, 50));
    let mut t = Transition::new(1000, Some(TransitionDirection::Out));
    t.resize(100, 50);
    t.change_state(TransitionDirection::Out);
    assert!(!t.update(&screen, 300)); // 300
    assert!(!t.update(&screen, 300)); // 600
    assert!(!t.update(&screen, 300)); // 900
    assert!(t.update(&screen, 100)); // 1000: reached
    assert!(t.update(&screen, 1)); // and it stays finished
}

#[test]
fn out_wipe_is_monotonically_hiding() {
    let screen = Screen::new((101, 50));
    let mut t = Transition::new(1000, None);
    t.resize(100, 50);
    t.change_state(TransitionDirection::Out);
    let mut last = alive_count(&t);
    for _ in 0..12 {
        t.update(&screen, 100);
        let now = alive_count(&t);
        assert!(now <= last);
        last = now;
    }
    // Once the wipe front has passed the corners, everything is hidden.
    assert_eq!(last, 0);
}

#[test]
fn in_wipe_is_monotonically_revealing() {
    let screen = Screen::new((101, 50));
    let mut t = Transition::new(1000, None);
    t.resize(100, 50);
    t.change_state(TransitionDirection::In);
    let mut last = alive_count(&t);
    assert_eq!(last, 0);
    for _ in 0..12 {
        t.update(&screen, 100);
        let now = alive_count(&t);
        assert!(now >= last);
        last = now;
    }
    assert_eq!(last, 5000);
}

#[test]
fn centre_cell_reveals_before_corner_cell() {
    let screen = Screen::new((101, 50));
    let mut t = Transition::new(1000, None);
    t.resize(100, 50);
    t.change_state(TransitionDirection::In);
    t.update(&screen, 200);
    let cells = t.cells();
    let at = |x: u16, y: u16| cells.iter().find(|c| c.x == x && c.y == y).unwrap().alive;
    assert!(at(50, 25));
    assert!(!at(0, 0));
}

#[test]
fn frame_rate_independent_wipe() {
    let screen = Screen::new((101, 50));

    let mut a = Transition::new(1000, None);
    a.resize(100, 50);
    a.change_state(TransitionDirection::Out);
    for dt in [70u64, 130, 250, 150] {
        a.update(&screen, dt);
    }

    let mut b = Transition::new(1000, None);
    b.resize(100, 50);
    b.change_state(TransitionDirection::Out);
    for dt in [600u64] {
        b.update(&screen, dt);
    }

    // Both sequences sum to 600 ms: the wipes are in identical states.
    assert_eq!(a.cells(), b.cells());
    assert!(matches!(a.state(), Some(TransitionDirection::Out)));
    assert!(matches!(b.state(), Some(TransitionDirection::Out)));
}

#[test]
fn draw_paints_motif_over_alive_cells_only() {
    let mut screen = Screen::new((101, 50));
    let mut t = Transition::new(1000, None);
    t.resize(100, 50);
    t.change_state(TransitionDirection::Out);

    // All cells alive: the full motif is painted. Position (2, 0) holds the
    // motif's vertical bar; position (0, 1) holds a blank motif cell.
    t.draw(&mut screen);
    let commands = screen.render_commands();
    let rune_at = |x: usize, y: usize| commands[y * 100 + x].rune;
    assert_eq!(rune_at(2, 0), '|');
    assert_eq!(rune_at(1, 0), '_');
    assert_eq!(rune_at(0, 0), ' ');

    // No cells alive: nothing is painted over existing content.
    let mut screen2 = Screen::new((101, 50));
    screen2.set_cell(2, 0, 'S', advent_core::screen::Color::White);
    t.change_state(TransitionDirection::In);
    t.draw(&mut screen2);
    let commands2 = screen2.render_commands();
    assert_eq!(commands2[2].rune, 'S');
}
