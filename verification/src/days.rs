//! Day content built on the quiz panel: a multiple-choice question whose
//! correct answer sits at a randomly drawn position among the wrong ones.

use vstd::prelude::*;
use vstd::string::StringSliceAdditionalSpecFns;

use crate::drawing::{draw_question, question_model, quiz_answered_correctly};
use crate::screen::{Screen, ScreenView};

verus! {

/// The outcome of one frame of a day's task.
#[derive(Clone, Copy, PartialEq, Eq, Structural, Debug)]
pub enum RunStatus {
    RUNNING,
    CORRECT,
    READY,
}

/// A selectable day task: it draws one frame from the screen and the mouse
/// state and reports whether it is still running or just solved.
pub trait CalendarDay {
    /// What `tick` reports, as a pure function of the screen model and the
    /// mouse state.
    spec fn tick_spec(&self, v: ScreenView, mouse_position: (u16, u16), mouse_down: bool) -> RunStatus;

    /// Draws one frame and reports the task's status.
    fn tick(&self, screen: &mut Screen, mouse_position: (u16, u16), mouse_down: bool) -> (status: RunStatus)
        requires
            old(screen)@.wf(),
        ensures
            final(screen)@.wf(),
            status == self.tick_spec(old(screen)@, mouse_position, mouse_down),
    ;
}

/// A quiz task: one question, one correct answer at a random position, and
/// the wrong answers dealt out around it.
pub struct QuizDay<'a> {
    question: &'a str,
    correct_answer: &'a str,
    wrong_answers: &'a [&'a str],
    correct_answer_position: usize,
}

impl<'a> QuizDay<'a> {
    #[verifier::type_invariant]
    spec fn quiz_bounds(self) -> bool {
        &&& self.correct_answer_position < self.wrong_answers@.len() + 1
        &&& self.wrong_answers@.len() <= 50
        &&& self.question@.len() <= 1000
        &&& self.question.spec_bytes().len() <= 4000
        &&& self.correct_answer@.len() <= 1000
        &&& self.correct_answer.spec_bytes().len() <= 4000
        &&& forall|k: int|
            0 <= k < self.wrong_answers@.len() ==> self.wrong_answers@[k]@.len() <= 1000 && (
            #[trigger] self.wrong_answers@[k]).spec_bytes().len() <= 4000
    }

    /// The question text.
    pub closed spec fn spec_question(&self) -> &'a str {
        self.question
    }

    /// The correct answer's text.
    pub closed spec fn spec_correct_answer(&self) -> &'a str {
        self.correct_answer
    }

    /// The wrong answers, in the order they are dealt out.
    pub closed spec fn spec_wrong_answers(&self) -> Seq<&'a str> {
        self.wrong_answers@
    }

    /// Which answer box holds the correct answer.
    pub closed spec fn spec_correct_answer_position(&self) -> int {
        self.correct_answer_position as int
    }
}

/// Relies on `rand::random_range` on the thread-local generator: for a
/// non-empty range `0..n` it returns a value drawn from that range, so the
/// result is always below `n`. Nothing more is assumed of the draw.
#[verifier::external_body]
fn random_below(n: usize) -> (r: usize)
    requires
        n > 0,
    ensures
        r < n,
{
    rand::random_range(0..n)
}

/// Builds a quiz whose correct answer is placed at a randomly drawn position
/// among the answer boxes.
pub fn create_quiz_day<'a>(
    question: &'a str,
    correct_answer: &'a str,
    wrong_answers: &'a [&'a str],
) -> (q: QuizDay<'a>)
    requires
        wrong_answers@.len() <= 50,
        question@.len() <= 1000,
        question.spec_bytes().len() <= 4000,
        correct_answer@.len() <= 1000,
        correct_answer.spec_bytes().len() <= 4000,
        forall|k: int|
            0 <= k < wrong_answers@.len() ==> wrong_answers@[k]@.len() <= 1000 && (
            #[trigger] wrong_answers@[k]).spec_bytes().len() <= 4000,
    ensures
        q.spec_question() == question,
        q.spec_correct_answer() == correct_answer,
        q.spec_wrong_answers() == wrong_answers@,
        q.spec_correct_answer_position() < wrong_answers@.len() + 1,
{
    let number_of_answers: usize = wrong_answers.len() + 1;
    let correct_answer_position = random_below(number_of_answers);
    QuizDay { question, correct_answer, wrong_answers, correct_answer_position }
}

impl<'a> CalendarDay for QuizDay<'a> {
    /// The quiz reports `CORRECT` exactly when this frame's click lands on
    /// the correct answer's box and on no wrong one; otherwise it keeps
    /// running.
    open spec fn tick_spec(&self, v: ScreenView, mouse_position: (u16, u16), mouse_down: bool) -> RunStatus {
        if quiz_answered_correctly(
            v.width as int,
            v.height as int,
            self.spec_correct_answer(),
            self.spec_wrong_answers(),
            self.spec_correct_answer_position(),
            mouse_position,
            mouse_down,
        ) {
            RunStatus::CORRECT
        } else {
            RunStatus::RUNNING
        }
    }

    fn tick(&self, screen: &mut Screen, mouse_position: (u16, u16), mouse_down: bool) -> (status: RunStatus)
        ensures
            final(screen)@ == question_model(
                old(screen)@,
                old(screen)@.width as int,
                old(screen)@.height as int,
                self.spec_question(),
                self.spec_correct_answer(),
                self.spec_wrong_answers(),
                self.spec_correct_answer_position(),
                mouse_position,
                mouse_down,
            ),
    {
        proof {
            use_type_invariant(self);
        }
        let correct = draw_question(
            screen,
            mouse_position,
            mouse_down,
            self.question,
            self.correct_answer,
            self.wrong_answers,
            self.correct_answer_position,
        );
        if correct {
            RunStatus::CORRECT
        } else {
            RunStatus::RUNNING
        }
    }
}

} // verus!
