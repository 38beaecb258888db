//! The transition decorator: a scene that wraps a target scene and plays the
//! wipe around activating it. While the wipe runs `In`, the viewer sees the
//! previous scene's frozen snapshot fading under the motif and the target is
//! not updated; once the wipe flips `Out`, the target runs normally beneath
//! the collapsing wipe, and when the `Out` phase finishes, ownership of the
//! target is handed back to the machine as the new current scene.

use vstd::prelude::*;

use crate::input::Input;
use crate::screen::{set_cell_model, Cell, Screen, ScreenView};
use crate::state_machine::State;
use crate::transition::{
    advanced_timer, change_state_model, draw_model, resized_cells, update_model, TransModel,
    Transition, TransitionDirection,
};

verus! {

/// How long the wipe takes, in milliseconds, each way.
pub const TRANSITION_STATE_DURATION_MS: u32 = 2000;

/// What the frozen snapshot repaint does: snapshot cell `i` lands back on
/// buffer index `i` — its position under the current width — when that write
/// is inside the true terminal, and stale indices beyond the buffer are
/// dropped.
pub open spec fn repaint_model(v: ScreenView, snapshot: Seq<Cell>) -> ScreenView {
    ScreenView {
        buffer: Seq::new(
            v.buffer.len(),
            |i: int| if i < snapshot.len() && (i % v.width as int) < v.real_width && (i
                / v.width as int) < v.real_height {
                snapshot[i]
            } else {
                v.buffer[i]
            },
        ),
        ..v
    }
}

/// The wipe geometry after honouring a resize pending this frame.
pub open spec fn wipe_after_resize(m: TransModel, resize: Option<(u16, u16)>) -> TransModel {
    match resize {
        Some((w, h)) => TransModel { cells: resized_cells(w, h), ..m },
        None => m,
    }
}

/// A scene that wraps a target scene of the machine's scene type `S` and
/// masks the switch to it behind the wipe.
pub struct TransitionState<S> {
    next_state: Option<S>,
    transition: Transition,
    prev_cells: Vec<Cell>,
}

impl<S> TransitionState<S> {
    /// The wipe's current direction.
    pub closed spec fn direction(&self) -> Option<TransitionDirection> {
        self.transition@.state
    }

    /// Whether the wrapped target is still held, i.e. has not been handed
    /// over to the machine yet.
    pub closed spec fn holds_target(&self) -> bool {
        self.next_state is Some
    }

    /// The frozen image of the scene that was on screen when this decorator
    /// entered.
    pub closed spec fn snapshot(&self) -> Seq<Cell> {
        self.prev_cells@
    }

    /// The full model of the owned wipe.
    pub closed spec fn wipe(&self) -> TransModel {
        self.transition@
    }

    /// Wraps `next_state`, to be revealed behind a wipe in the requested
    /// direction, or behind a full `In`-then-`Out` wipe when none is given.
    pub fn new(next_state: S, state: Option<TransitionDirection>) -> (t: TransitionState<S>)
        ensures
            t.holds_target(),
            t.direction() == state,
            t.snapshot().len() == 0,
            t.wipe().cells.len() == 0,
            t.wipe().timer == 0,
            t.wipe().duration == TRANSITION_STATE_DURATION_MS,
    {
        TransitionState {
            next_state: Some(next_state),
            transition: Transition::new(TRANSITION_STATE_DURATION_MS, state),
            prev_cells: Vec::new(),
        }
    }

    /// Repaints the frozen snapshot over the screen, index for index.
    fn repaint_snapshot(&self, screen: &mut Screen)
        requires
            old(screen)@.wf(),
        ensures
            final(screen)@ == repaint_model(old(screen)@, self.snapshot()),
            final(screen)@.wf(),
    {
        let w: u16 = screen.width();
        let n: usize = self.prev_cells.len();
        let mut i: usize = 0;
        while i < n
            invariant
                i <= n,
                n == self.snapshot().len(),
                w == old(screen)@.width,
                screen@.width == old(screen)@.width,
                screen@.height == old(screen)@.height,
                screen@.real_width == old(screen)@.real_width,
                screen@.real_height == old(screen)@.real_height,
                screen@.buffer.len() == old(screen)@.buffer.len(),
                screen@.wf(),
                forall|idx: int|
                    0 <= idx < screen@.buffer.len() ==> screen@.buffer[idx] == (if idx < i && idx
                        < self.snapshot().len() && (idx % w as int) < screen@.real_width && (idx
                        / w as int) < screen@.real_height {
                        self.snapshot()[idx]
                    } else {
                        old(screen)@.buffer[idx]
                    }),
            decreases n - i,
        {
            let cell = self.prev_cells[i];
            let x: usize = i % (w as usize);
            let y: usize = i / (w as usize);
            let ghost before = screen@;
            proof {
                vstd::arithmetic::div_mod::lemma_fundamental_div_mod(i as int, w as int);
                assert(0 <= (i as int) % (w as int) < w as int) by (nonlinear_arith)
                    requires
                        0 < w as int,
                ;
                assert((i as int) / (w as int) >= 0) by (nonlinear_arith)
                    requires
                        0 < w as int,
                        0 <= i as int,
                ;
                assert(((i as int) / (w as int)) * (w as int) + ((i as int) % (w as int))
                    == i as int) by (nonlinear_arith)
                    requires
                        i as int == (w as int) * ((i as int) / (w as int)) + ((i as int) % (
                        w as int)),
                ;
                if (i as int) < screen@.buffer.len() {
                    assert((i as int) / (w as int) < screen@.height) by (nonlinear_arith)
                        requires
                            0 < w as int,
                            0 <= (i as int) && (i as int) < screen@.buffer.len(),
                            screen@.buffer.len() == screen@.width * screen@.height,
                            w == screen@.width,
                    ;
                } else {
                    assert((i as int) / (w as int) >= screen@.height) by (nonlinear_arith)
                        requires
                            0 < w as int,
                            i as int >= screen@.buffer.len(),
                            screen@.buffer.len() == screen@.width * screen@.height,
                            w == screen@.width,
                    ;
                }
            }
            if y <= u16::MAX as usize {
                screen.set_cell(x as u16, y as u16, cell.rune, cell.color);
                proof {
                    assert(x as int == (i as int) % (w as int));
                    assert(y as int == (i as int) / (w as int));
                    assert(screen@ == set_cell_model(
                        before,
                        (i as int) % (w as int),
                        (i as int) / (w as int),
                        cell.rune,
                        cell.color,
                    ));
                    assert(Cell { rune: cell.rune, color: cell.color } == cell);
                }
            } else {
                proof {
                    assert((i as int) / (w as int) > u16::MAX);
                    assert((i as int) / (w as int) >= screen@.real_height);
                    assert((i as int) / (w as int) >= screen@.height);
                }
            }
            i = i + 1;
        }
        proof {
            assert(screen@.buffer =~= repaint_model(old(screen)@, self.snapshot()).buffer);
            assert(screen@ =~= repaint_model(old(screen)@, self.snapshot()));
        }
    }
}

impl<S: State<S>> State<S> for TransitionState<S> {
    /// Sizes the wipe to the screen, defaults its direction to `In` when none
    /// was requested, freezes the screen's current image, and immediately
    /// enters the wrapped target so its own setup happens while still hidden
    /// behind the wipe.
    fn enter(&mut self, screen: &mut Screen, input: &mut Input)
        ensures
            final(self).direction() == (if old(self).direction() is None {
                Some(TransitionDirection::In)
            } else {
                old(self).direction()
            }),
            final(self).snapshot() == old(screen)@.buffer,
            final(self).holds_target() == old(self).holds_target(),
            final(self).wipe().duration == old(self).wipe().duration,
            final(self).wipe().cells == resized_cells(old(screen)@.width, old(screen)@.height),
            final(self).wipe().timer == (if old(self).direction() is None {
                0u64
            } else {
                old(self).wipe().timer
            }),
    {
        self.transition.resize(screen.width(), screen.height());
        let dir = self.transition.state();
        match dir {
            None => {
                self.transition.change_state(TransitionDirection::In);
                proof {
                    assert(self.transition@.cells =~= resized_cells(
                        old(screen)@.width,
                        old(screen)@.height,
                    ));
                }
            }
            Some(_) => {}
        }
        self.prev_cells = screen.clone_buffer();

        match &mut self.next_state {
            Some(next) => next.enter(screen, input),
            None => {}
        }
    }

    /// One frame of the wipe. A pending resize rebuilds the wipe geometry
    /// first. While the direction is `In`, the wipe advances, the frozen
    /// snapshot is repainted under it, the motif is drawn over it, and the
    /// direction flips to `Out` on the frame the wipe finishes — the target
    /// is not updated during this phase, by design. While the direction is
    /// `Out`, the wipe advances and the target runs; a replacement the target
    /// asks for is handed through at once, and when the `Out` wipe finishes,
    /// the target itself is handed to the machine.
    fn update(&mut self, screen: &mut Screen, input: &mut Input, dt_ms: u64) -> (next: Option<S>)
        ensures
            ({
                let m0 = wipe_after_resize(old(self).wipe(), old(input)@.resize);
                let m1 = update_model(m0, old(screen)@.width, old(screen)@.height, dt_ms);
                let done = m1.timer >= m1.duration;
                &&& (old(self).direction() is None ==> {
                    &&& next is None
                    &&& final(self).wipe() == m0
                    &&& final(self).holds_target() == old(self).holds_target()
                    &&& final(self).snapshot() == old(self).snapshot()
                    &&& final(screen)@ == draw_model(old(screen)@, m0.cells)
                    &&& final(input)@ == old(input)@
                })
                &&& (old(self).direction() == Some(TransitionDirection::In) ==> {
                    &&& next is None
                    &&& final(self).wipe() == (if done {
                        change_state_model(m1, TransitionDirection::Out)
                    } else {
                        m1
                    })
                    &&& final(self).direction() == (if done {
                        Some(TransitionDirection::Out)
                    } else {
                        Some(TransitionDirection::In)
                    })
                    &&& final(self).holds_target() == old(self).holds_target()
                    &&& final(self).snapshot() == old(self).snapshot()
                    &&& final(screen)@ == draw_model(
                        repaint_model(old(screen)@, old(self).snapshot()),
                        final(self).wipe().cells,
                    )
                    &&& final(input)@ == old(input)@
                })
                &&& (old(self).direction() == Some(TransitionDirection::Out) ==> {
                    &&& final(self).wipe() == m1
                    &&& final(self).direction() == Some(TransitionDirection::Out)
                    &&& final(self).snapshot() == old(self).snapshot()
                    &&& (next is None ==> final(self).holds_target() == old(self).holds_target())
                    &&& (old(self).holds_target() && !final(self).holds_target() ==> next is Some)
                    &&& (!old(self).holds_target() ==> next is None && !final(self).holds_target())
                })
            }),
    {
        match input.resized() {
            Some((width, height)) => {
                self.transition.resize(width, height);
            }
            None => {}
        }

        let dir = self.transition.state();
        match dir {
            Some(TransitionDirection::In) => {
                let done = self.transition.update(screen, dt_ms);

                self.repaint_snapshot(screen);

                if done {
                    self.transition.change_state(TransitionDirection::Out);
                }
            }
            Some(TransitionDirection::Out) => {
                let done = self.transition.update(screen, dt_ms);

                match &mut self.next_state {
                    Some(next_scene) => {
                        let replacement = next_scene.update(screen, input, dt_ms);
                        if replacement.is_some() {
                            return replacement;
                        }
                        if done {
                            return self.next_state.take();
                        }
                    }
                    None => {}
                }
            }
            None => {}
        }

        self.transition.draw(screen);
        None
    }

    /// A no-op: cleanup, if any, belongs to whichever scene becomes current
    /// next.
    fn exit(&mut self, screen: &mut Screen, input: &mut Input)
        ensures
            *final(self) == *old(self),
            final(screen)@ == old(screen)@,
            final(input)@ == old(input)@,
    {
    }
}

} // verus!
