use advent_core::input::Input;
use advent_core::screen::{Color, Screen};
use advent_core::state_machine::{State, StateMachine};

/// A recording scene: every lifecycle hook appends its marker to row 0 of the
/// screen, so call order is visible in the buffer afterwards.
struct Probe {
    enter_mark: char,
    exit_mark: char,
    replacement: Option<char>,
}

fn append_mark(screen: &mut Screen, mark: char) {
    let commands = screen.render_commands();
    for c in commands.iter() {
        if c.y == 0 && c.rune == ' ' {
            screen.set_cell(c.x, 0, mark, Color::White);
            return;
        }
    }
    panic!("log row full");
}

fn log_row(screen: &Screen) -> String {
    let mut out = String::new();
    for c in screen.render_commands().iter() {
        if c.y == 0 && c.rune != ' ' {
            out.push(c.rune);
        }
    }
    out
}

impl State<Probe> for Probe {
    fn enter(&mut self, screen: &mut Screen, _input: &mut Input) {
        append_mark(screen, self.enter_mark);
    }

    fn update(&mut self, screen: &mut Screen, _input: &mut Input, _dt_ms: u64) -> Option<Probe> {
        append_mark(screen, 'u');
        self.replacement.map(|mark| Probe { enter_mark: mark, exit_mark: 'X', replacement: None })
    }

    fn exit(&mut self, screen: &mut Screen, _input: &mut Input) {
        append_mark(screen, self.exit_mark);
    }
}

#[test]
fn initial_change_runs_only_enter() {
    let mut screen = Screen::new((101, 50));
    let mut input = Input::new();
    let mut machine: StateMachine<Probe> = StateMachine::new();
    machine.change(
        &mut screen,
        &mut input,
        Some(Probe { enter_mark: 'a', exit_mark: 'x', replacement: None }),
    );
    assert_eq!(log_row(&screen), "a");
}

#[test]
fn replacing_runs_exit_before_enter() {
    let mut screen = Screen::new((101, 50));
    let mut input = Input::new();
    let mut machine: StateMachine<Probe> = StateMachine::new();
    machine.change(
        &mut screen,
        &mut input,
        Some(Probe { enter_mark: 'a', exit_mark: 'x', replacement: None }),
    );
    machine.change(
        &mut screen,
        &mut input,
        Some(Probe { enter_mark: 'b', exit_mark: 'y', replacement: None }),
    );
    // A entered, then — in order — A exited and B entered.
    assert_eq!(log_row(&screen), "axb");

    // Clearing the machine runs only the outgoing exit.
    machine.change(&mut screen, &mut input, None);
    assert_eq!(log_row(&screen), "axby");
}

#[test]
fn update_installs_a_requested_replacement_immediately() {
    let mut screen = Screen::new((101, 50));
    let mut input = Input::new();
    let mut machine: StateMachine<Probe> = StateMachine::new();
    machine.change(
        &mut screen,
        &mut input,
        Some(Probe { enter_mark: 'a', exit_mark: 'x', replacement: Some('b') }),
    );
    machine.update(&mut screen, &mut input, 16);
    // The update ran, then the machine swapped scenes: exit before enter.
    assert_eq!(log_row(&screen), "auxb");

    // The replacement requested nothing further: later frames only update.
    machine.update(&mut screen, &mut input, 16);
    assert_eq!(log_row(&screen), "auxbu");
}

#[test]
fn update_without_scene_does_nothing() {
    let mut screen = Screen::new((101, 50));
    let mut input = Input::new();
    let mut machine: StateMachine<Probe> = StateMachine::new();
    machine.update(&mut screen, &mut input, 16);
    assert_eq!(log_row(&screen), "");
}
