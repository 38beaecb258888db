//! The polymorphic scene machine: every scene satisfies the three-hook
//! [`State`] contract, and the machine exclusively owns the current scene,
//! replacing it only through [`StateMachine::change`], which runs the
//! lifecycle hooks symmetrically — exit before enter, always.

use vstd::prelude::*;

use crate::input::Input;
use crate::screen::Screen;

verus! {

/// The contract every scene must satisfy. The machine's scene type `S` is
/// what `update` may hand back as a replacement; a composite scene type
/// instantiates it with itself.
///
/// Every hook receives the screen and the input cache by exclusive reference
/// and must leave both well-formed; beyond that a scene may read input, write
/// cells, and keep state of its own.
pub trait State<S>: Sized {
    /// Called once when the scene becomes current.
    fn enter(&mut self, screen: &mut Screen, input: &mut Input)
        requires
            old(screen)@.wf(),
            old(input)@.wf(),
        ensures
            final(screen)@.wf(),
            final(input)@.wf(),
    ;

    /// Called every frame while current, with the frame time in whole
    /// milliseconds; returning a scene asks the machine to replace this one.
    fn update(&mut self, screen: &mut Screen, input: &mut Input, dt_ms: u64) -> (next: Option<S>)
        requires
            old(screen)@.wf(),
            old(input)@.wf(),
        ensures
            final(screen)@.wf(),
            final(input)@.wf(),
    ;

    /// Called once when the scene stops being current, before it is dropped.
    fn exit(&mut self, screen: &mut Screen, input: &mut Input)
        requires
            old(screen)@.wf(),
            old(input)@.wf(),
        ensures
            final(screen)@.wf(),
            final(input)@.wf(),
    ;
}

/// Owns at most one live scene and is the only path through which the
/// current scene changes.
pub struct StateMachine<S> {
    current_state: Option<S>,
}

impl<S> StateMachine<S> {
    /// Whether a scene is currently installed.
    pub closed spec fn occupied(&self) -> bool {
        self.current_state is Some
    }
}

impl<S: State<S>> StateMachine<S> {
    /// A machine with no current scene.
    pub fn new() -> (m: StateMachine<S>)
        ensures
            !m.occupied(),
    {
        StateMachine { current_state: None }
    }

    /// Replaces the current scene: the outgoing scene's `exit` runs first (if
    /// one is installed), then the new scene is installed, then its `enter`
    /// runs (if one was supplied). Exit before enter, always.
    pub fn change(&mut self, screen: &mut Screen, input: &mut Input, new_state: Option<S>)
        requires
            old(screen)@.wf(),
            old(input)@.wf(),
        ensures
            final(screen)@.wf(),
            final(input)@.wf(),
            final(self).occupied() == new_state.is_some(),
    {
        match &mut self.current_state {
            Some(state) => state.exit(screen, input),
            None => {}
        }

        self.current_state = new_state;

        match &mut self.current_state {
            Some(state) => state.enter(screen, input),
            None => {}
        }
    }

    /// Delegates one frame to the current scene; if it asks for a
    /// replacement, the change happens immediately, within this frame.
    pub fn update(&mut self, screen: &mut Screen, input: &mut Input, dt_ms: u64)
        requires
            old(screen)@.wf(),
            old(input)@.wf(),
        ensures
            final(screen)@.wf(),
            final(input)@.wf(),
            final(self).occupied() == old(self).occupied(),
    {
        let next = match &mut self.current_state {
            Some(state) => state.update(screen, input, dt_ms),
            None => None,
        };
        if let Some(new_state) = next {
            self.change(screen, input, Some(new_state));
        }
    }
}

} // verus!
