use std::cell::RefCell;
use std::rc::Rc;

use advent_core::input::Input;
use advent_core::screen::Screen;
use advent_core::state_machine::State;
use advent_core::transition_state::TransitionState;

/// A target scene that records its lifecycle into a shared log.
struct Target {
    log: Rc<RefCell<String>>,
    replacement: bool,
}

impl State<Target> for Target {
    fn enter(&mut self, _screen: &mut Screen, _input: &mut Input) {
        self.log.borrow_mut().push('E');
    }

    fn update(&mut self, _screen: &mut Screen, _input: &mut Input, _dt_ms: u64) -> Option<Target> {
        self.log.borrow_mut().push('u');
        if self.replacement {
            Some(Target { log: self.log.clone(), replacement: false })
        } else {
            None
        }
    }

    fn exit(&mut self, _screen: &mut Screen, _input: &mut Input) {
        self.log.borrow_mut().push('x');
    }
}

#[test]
fn wrapped_target_enters_at_once_but_updates_only_during_out() {
    let log = Rc::new(RefCell::new(String::new()));
    let mut screen = Screen::new((101, 50));
    let mut input = Input::new();
    let mut ts: TransitionState<Target> =
        TransitionState::new(Target { log: log.clone(), replacement: false }, None);

    // Entering sizes the wipe, defaults it to `In`, and enters the target
    // immediately so its setup happens while hidden.
    ts.enter(&mut screen, &mut input);
    assert_eq!(log.borrow().as_str(), "E");

    // During the `In` half the target is deliberately not updated.
    assert!(ts.update(&mut screen, &mut input, 1000).is_none());
    assert_eq!(log.borrow().as_str(), "E");

    // The frame the wipe finishes, the direction flips to `Out`; the target
    // still waits one more frame.
    assert!(ts.update(&mut screen, &mut input, 1000).is_none());
    assert_eq!(log.borrow().as_str(), "E");

    // During `Out` the target runs every frame.
    assert!(ts.update(&mut screen, &mut input, 500).is_none());
    assert_eq!(log.borrow().as_str(), "Eu");

    // When the `Out` half finishes, the target itself is handed over.
    let handed = ts.update(&mut screen, &mut input, 1500);
    assert!(handed.is_some());
    assert_eq!(log.borrow().as_str(), "Euu");

    // Afterwards the decorator holds nothing and hands nothing out.
    assert!(ts.update(&mut screen, &mut input, 100).is_none());
    assert_eq!(log.borrow().as_str(), "Euu");
}

#[test]
fn target_replacement_wins_over_the_wipe() {
    let log = Rc::new(RefCell::new(String::new()));
    let mut screen = Screen::new((101, 50));
    let mut input = Input::new();
    let mut ts: TransitionState<Target> =
        TransitionState::new(Target { log: log.clone(), replacement: true }, None);

    ts.enter(&mut screen, &mut input);
    // Run the `In` half to completion, then one `Out` frame: the target's
    // requested replacement is handed through at once, mid-wipe.
    ts.update(&mut screen, &mut input, 2000);
    let replacement = ts.update(&mut screen, &mut input, 10);
    assert!(replacement.is_some());
    assert_eq!(log.borrow().as_str(), "Eu");
}

#[test]
fn explicit_out_start_skips_the_reveal() {
    let log = Rc::new(RefCell::new(String::new()));
    let mut screen = Screen::new((101, 50));
    let mut input = Input::new();
    let mut ts: TransitionState<Target> = TransitionState::new(
        Target { log: log.clone(), replacement: false },
        Some(advent_core::transition::TransitionDirection::Out),
    );

    ts.enter(&mut screen, &mut input);
    assert_eq!(log.borrow().as_str(), "E");
    // Starting directly in `Out`, the target runs from the first frame.
    ts.update(&mut screen, &mut input, 10);
    assert_eq!(log.borrow().as_str(), "Eu");
}
