//! The wipe transition: a time-driven, concentric reveal/hide animation over
//! the full grid. Each cell's `alive` flag is a pure function of its radial
//! distance from the screen centre and of the elapsed time, recomputed from
//! current dimensions on every update so that resize races cannot leave stale
//! geometry behind.
//!
//! The wipe front compares the cell's normalised radial distance, divided by
//! a pacing factor of `1.5`, against the normalised timer `t / d`. With the
//! centre at `(w/2, h/2)` the normalised offsets are `nx = (2x - w) / w` and
//! `ny = (2y - h) / h`, and for a positive duration
//!
//! ```text
//! sqrt(nx² + ny²) / 1.5  <  t / d
//! ```
//!
//! is, after squaring and clearing all denominators, exactly
//!
//! ```text
//! 4·d²·((2x - w)²·h² + (2y - h)²·w²)  <  9·t²·w²·h²
//! ```
//!
//! which is how [`cell_alive`] states it, in exact integer arithmetic. Time
//! is measured in whole milliseconds.

use vstd::arithmetic::div_mod::{lemma_fundamental_div_mod, lemma_fundamental_div_mod_converse};
use vstd::prelude::*;

use crate::screen::{set_cell_model, Cell, Color, Screen, ScreenView};

verus! {

/// Which way the wipe runs: `In` reveals from the centre outwards, `Out`
/// hides towards the centre.
#[derive(Clone, Copy, PartialEq, Eq, Structural, Debug)]
pub enum TransitionDirection {
    In,
    Out,
}

/// One grid position tracked by the wipe, with its current visibility.
#[derive(Clone, Copy, PartialEq, Eq, Structural, Debug)]
pub struct TransCell {
    pub x: u16,
    pub y: u16,
    pub alive: bool,
}

/// Mathematical model of a [`Transition`].
#[verifier::ext_equal]
pub struct TransModel {
    pub cells: Seq<TransCell>,
    pub duration: u32,
    pub timer: u64,
    pub state: Option<TransitionDirection>,
}

/// The timer after advancing by `dt` milliseconds, saturating at the top of
/// `u64` rather than wrapping.
pub open spec fn advanced_timer(timer: u64, dt: u64) -> u64 {
    if timer + dt > u64::MAX {
        u64::MAX
    } else {
        (timer + dt) as u64
    }
}

/// The left side of the cleared-denominator wipe comparison:
/// `4·d²·((2x - w)²·h² + (2y - h)²·w²)`.
pub open spec fn wipe_lhs(x: int, y: int, w: int, h: int, d: int) -> int {
    4 * d * d * ((2 * x - w) * (2 * x - w) * (h * h) + (2 * y - h) * (2 * y - h) * (w * w))
}

/// The right side of the cleared-denominator wipe comparison: `9·t²·w²·h²`.
pub open spec fn wipe_rhs(t: int, w: int, h: int) -> int {
    9 * t * t * (w * w) * (h * h)
}

/// Whether the cell at `(x, y)` is visible: for `In`, once the wipe front has
/// passed its radial distance; for `Out`, only while it has not; never while
/// no direction is set.
pub open spec fn cell_alive(
    dir: Option<TransitionDirection>,
    x: int,
    y: int,
    w: int,
    h: int,
    t: int,
    d: int,
) -> bool {
    match dir {
        Some(TransitionDirection::In) => wipe_lhs(x, y, w, h, d) < wipe_rhs(t, w, h),
        Some(TransitionDirection::Out) => wipe_lhs(x, y, w, h, d) > wipe_rhs(t, w, h),
        None => false,
    }
}

/// The decorative 4-row by 8-column tile motif painted over alive cells,
/// indexed by `(y mod 4, x mod 8)`.
pub open spec fn pattern_char(x: int, y: int) -> char {
    let r = y % 4;
    let c = x % 8;
    if r == 0 {
        if c == 1 || c == 3 {
            '_'
        } else if c == 2 {
            '|'
        } else {
            ' '
        }
    } else if r == 1 {
        if c == 2 {
            '|'
        } else {
            ' '
        }
    } else if r == 2 {
        if c == 4 || c == 6 {
            '_'
        } else if c == 5 {
            '|'
        } else {
            ' '
        }
    } else {
        if c == 5 {
            '|'
        } else {
            ' '
        }
    }
}

/// The wipe state with its timer at `t` and every visibility flag recomputed
/// for a `w × h` screen.
pub open spec fn wipe_at(m: TransModel, w: u16, h: u16, t: u64) -> TransModel {
    TransModel {
        cells: Seq::new(
            m.cells.len(),
            |i: int| TransCell {
                x: m.cells[i].x,
                y: m.cells[i].y,
                alive: cell_alive(
                    m.state,
                    m.cells[i].x as int,
                    m.cells[i].y as int,
                    w as int,
                    h as int,
                    t as int,
                    m.duration as int,
                ),
            },
        ),
        duration: m.duration,
        timer: t,
        state: m.state,
    }
}

/// What `update` does: advance the timer by `dt` and recompute every flag.
pub open spec fn update_model(m: TransModel, w: u16, h: u16, dt: u64) -> TransModel {
    wipe_at(m, w, h, advanced_timer(m.timer, dt))
}

/// What `change_state` does: reset the timer, set the direction, and re-seed
/// every flag to the direction's default so the first frame after the change
/// is correct before any update runs.
pub open spec fn change_state_model(m: TransModel, dir: TransitionDirection) -> TransModel {
    TransModel {
        cells: Seq::new(
            m.cells.len(),
            |i: int| TransCell {
                x: m.cells[i].x,
                y: m.cells[i].y,
                alive: dir is Out,
            },
        ),
        duration: m.duration,
        timer: 0,
        state: Some(dir),
    }
}

/// What `resize` does: one dead cell per grid position, column-major.
pub open spec fn resized_cells(width: u16, height: u16) -> Seq<TransCell> {
    Seq::new(
        (width * height) as nat,
        |i: int| TransCell {
            x: (i / height as int) as u16,
            y: (i % height as int) as u16,
            alive: false,
        },
    )
}

/// Whether some alive cell covers buffer index `idx` of a screen shaped like
/// `v`, with the write inside the true terminal.
pub open spec fn wipe_covers(cells: Seq<TransCell>, v: ScreenView, idx: int) -> bool {
    exists|k: int|
        0 <= k < cells.len() && cells[k].alive && cells[k].x as int == idx % (v.width as int)
            && cells[k].y as int == idx / (v.width as int) && cells[k].x < v.real_width
            && cells[k].y < v.real_height
}

/// What `draw` does: paint the tile motif over every alive cell and let the
/// screen show through everywhere else.
pub open spec fn draw_model(v: ScreenView, cells: Seq<TransCell>) -> ScreenView {
    ScreenView {
        buffer: Seq::new(
            v.buffer.len(),
            |idx: int| if wipe_covers(cells, v, idx) {
                Cell {
                    rune: pattern_char(idx % (v.width as int), idx / (v.width as int)),
                    color: Color::White,
                }
            } else {
                v.buffer[idx]
            },
        ),
        ..v
    }
}

/// Past this timer value the wipe front has passed every representable cell,
/// whatever the duration: the comparison can be decided without arithmetic
/// that would overflow.
const DECIDED_TIMER_MS: u64 = 100000000000000;

/// For timers at or past [`DECIDED_TIMER_MS`] the right side of the wipe
/// comparison dominates every reachable left side.
proof fn lemma_wipe_rhs_dominates(x: int, y: int, w: int, h: int, t: int, d: int)
    requires
        0 <= x <= 65535,
        0 <= y <= 65535,
        80 <= w <= 200,
        40 <= h <= 70,
        0 <= d <= 4294967295,
        t >= DECIDED_TIMER_MS,
    ensures
        wipe_lhs(x, y, w, h, d) < wipe_rhs(t, w, h),
{
    assert(0 <= (2 * x - w) * (2 * x - w) <= 17179344900) by (nonlinear_arith)
        requires
            -200 <= 2 * x - w <= 131070,
    ;
    assert(0 <= (2 * y - h) * (2 * y - h) <= 17179344900) by (nonlinear_arith)
        requires
            -70 <= 2 * y - h <= 131070,
    ;
    assert(0 <= (2 * x - w) * (2 * x - w) * (h * h) + (2 * y - h) * (2 * y - h) * (w * w)
        <= 771352586010000) by (nonlinear_arith)
        requires
            0 <= (2 * x - w) * (2 * x - w) <= 17179344900,
            0 <= (2 * y - h) * (2 * y - h) <= 17179344900,
            40 <= h <= 70,
            80 <= w <= 200,
    ;
    assert(wipe_lhs(x, y, w, h, d) <= 56915774952378545728858291281000000) by (nonlinear_arith)
        requires
            0 <= d <= 4294967295,
            0 <= (2 * x - w) * (2 * x - w) * (h * h) + (2 * y - h) * (2 * y - h) * (w * w)
                <= 771352586010000,
    ;
    assert(wipe_rhs(t, w, h) >= 921600000000000000000000000000000000) by (nonlinear_arith)
        requires
            t >= 100000000000000,
            80 <= w,
            40 <= h,
    ;
}

/// Decides [`cell_alive`] executably: exact integer arithmetic in `i128`,
/// with timers beyond [`DECIDED_TIMER_MS`] settled by the dominance lemma.
fn compute_alive(
    dir: Option<TransitionDirection>,
    x: u16,
    y: u16,
    w: u16,
    h: u16,
    t: u64,
    d: u32,
) -> (r: bool)
    requires
        80 <= w <= 200,
        40 <= h <= 70,
    ensures
        r == cell_alive(dir, x as int, y as int, w as int, h as int, t as int, d as int),
{
    let direction = match dir {
        None => {
            return false;
        },
        Some(direction) => direction,
    };
    if t >= DECIDED_TIMER_MS {
        proof {
            lemma_wipe_rhs_dominates(x as int, y as int, w as int, h as int, t as int, d as int);
        }
        return match direction {
            TransitionDirection::In => true,
            TransitionDirection::Out => false,
        };
    }
    let dx: i128 = 2 * (x as i128) - (w as i128);
    let dy: i128 = 2 * (y as i128) - (h as i128);
    assert(0 <= dx * dx <= 17179344900) by (nonlinear_arith)
        requires
            -200 <= dx <= 131070,
    ;
    assert(0 <= dy * dy <= 17179344900) by (nonlinear_arith)
        requires
            -70 <= dy <= 131070,
    ;
    assert(0 <= (h as int) * (h as int) <= 4900) by (nonlinear_arith)
        requires
            0 <= h <= 70,
    ;
    assert(0 <= (w as int) * (w as int) <= 40000) by (nonlinear_arith)
        requires
            0 <= w <= 200,
    ;
    let hh: i128 = (h as i128) * (h as i128);
    let ww: i128 = (w as i128) * (w as i128);
    assert(dx * dx * hh <= 84178790010000) by (nonlinear_arith)
        requires
            0 <= dx * dx <= 17179344900,
            0 <= hh <= 4900,
    ;
    assert(dy * dy * ww <= 687173796000000) by (nonlinear_arith)
        requires
            0 <= dy * dy <= 17179344900,
            0 <= ww <= 40000,
    ;
    assert(dx * dx * hh >= 0 && dy * dy * ww >= 0) by (nonlinear_arith)
        requires
            0 <= dx * dx,
            0 <= dy * dy,
            0 <= hh,
            0 <= ww,
    ;
    let s: i128 = dx * dx * hh + dy * dy * ww;
    let di: i128 = d as i128;
    assert(0 <= 4 * di * di <= 73786976260478468100) by (nonlinear_arith)
        requires
            0 <= di <= 4294967295,
    ;
    assert(0 <= 4 * di * di * s <= 56915774952378545728858291281000000) by (nonlinear_arith)
        requires
            0 <= 4 * di * di <= 73786976260478468100,
            0 <= s <= 771352586010000,
    ;
    let lhs: i128 = 4 * di * di * s;
    let ti: i128 = t as i128;
    assert(0 <= 9 * ti * ti <= 90000000000000000000000000000) by (nonlinear_arith)
        requires
            0 <= ti < 100000000000000,
    ;
    assert(0 <= 9 * ti * ti * ww <= 3600000000000000000000000000000000) by (nonlinear_arith)
        requires
            0 <= 9 * ti * ti <= 90000000000000000000000000000,
            0 <= ww <= 40000,
    ;
    assert(0 <= 9 * ti * ti * ww * hh <= 17640000000000000000000000000000000000) by (nonlinear_arith)
        requires
            0 <= 9 * ti * ti * ww <= 3600000000000000000000000000000000,
            0 <= hh <= 4900,
    ;
    let rhs: i128 = 9 * ti * ti * ww * hh;
    match direction {
        TransitionDirection::In => lhs < rhs,
        TransitionDirection::Out => lhs > rhs,
    }
}

/// The tile motif rune for position `(x, y)`.
fn pattern_rune(x: u16, y: u16) -> (r: char)
    ensures
        r == pattern_char(x as int, y as int),
{
    let row: u16 = y % 4;
    let col: u16 = x % 8;
    if row == 0 {
        if col == 1 || col == 3 {
            '_'
        } else if col == 2 {
            '|'
        } else {
            ' '
        }
    } else if row == 1 {
        if col == 2 {
            '|'
        } else {
            ' '
        }
    } else if row == 2 {
        if col == 4 || col == 6 {
            '_'
        } else if col == 5 {
            '|'
        } else {
            ' '
        }
    } else {
        if col == 5 {
            '|'
        } else {
            ' '
        }
    }
}

/// The wipe transition. `resize` must be called whenever the screen size
/// changes, or the radial geometry will be computed for stale dimensions.
pub struct Transition {
    cells: Vec<TransCell>,
    duration_ms: u32,
    timer_ms: u64,
    state: Option<TransitionDirection>,
}

impl View for Transition {
    type V = TransModel;

    closed spec fn view(&self) -> TransModel {
        TransModel {
            cells: self.cells@,
            duration: self.duration_ms,
            timer: self.timer_ms,
            state: self.state,
        }
    }
}

impl Transition {
    /// A wipe lasting `duration_ms` milliseconds, optionally started in a
    /// direction, with no cells until the first `resize`.
    pub fn new(duration_ms: u32, state: Option<TransitionDirection>) -> (t: Transition)
        requires
            duration_ms > 0,
        ensures
            t@.cells.len() == 0,
            t@.duration == duration_ms,
            t@.timer == 0,
            t@.state == state,
    {
        Transition { cells: Vec::new(), duration_ms, timer_ms: 0, state }
    }

    /// The tracked cells with their current visibility.
    pub fn cells(&self) -> (r: &Vec<TransCell>)
        ensures
            r@ == self@.cells,
    {
        &self.cells
    }

    /// The current direction, if the wipe is running.
    pub fn state(&self) -> (r: Option<TransitionDirection>)
        ensures
            r == self@.state,
    {
        self.state
    }

    /// Rebuilds the cell set for new screen dimensions, all cells dead.
    pub fn resize(&mut self, width: u16, height: u16)
        ensures
            final(self)@.cells == resized_cells(width, height),
            final(self)@.duration == old(self)@.duration,
            final(self)@.timer == old(self)@.timer,
            final(self)@.state == old(self)@.state,
    {
        let mut cells: Vec<TransCell> = Vec::new();
        let mut x: u16 = 0;
        while x < width
            invariant
                x <= width,
                cells@.len() == x * height,
                forall|idx: int| 0 <= idx < cells@.len() ==> cells@[idx] == resized_cells(width, height)[idx],
            decreases width - x,
        {
            let mut y: u16 = 0;
            while y < height
                invariant
                    x < width,
                    y <= height,
                    cells@.len() == x * height + y,
                    forall|idx: int|
                        0 <= idx < cells@.len() ==> cells@[idx] == resized_cells(width, height)[idx],
                decreases height - y,
            {
                proof {
                    let idx = x * height + y;
                    lemma_fundamental_div_mod_converse(idx as int, height as int, x as int, y as int);
                    assert(0 <= idx < width * height) by (nonlinear_arith)
                        requires
                            0 <= x < width,
                            0 <= y < height,
                            idx == x * height + y,
                    ;
                }
                cells.push(TransCell { x, y, alive: false });
                y = y + 1;
            }
            proof {
                assert(x * height + height == (x + 1) * height) by (nonlinear_arith);
            }
            x = x + 1;
        }
        self.cells = cells;
        proof {
            assert(width * height <= self@.cells.len()) by (nonlinear_arith)
                requires
                    self@.cells.len() == width * height,
        ;
            assert(self@.cells =~= resized_cells(width, height));
        }
    }

    /// Resets the timer, sets the direction, and re-seeds every cell's flag
    /// to the direction-dependent default: dead for an entering reveal, alive
    /// for an exiting hide.
    pub fn change_state(&mut self, state: TransitionDirection)
        ensures
            final(self)@ == change_state_model(old(self)@, state),
    {
        self.state = Some(state);
        self.timer_ms = 0;
        let seed: bool = match state {
            TransitionDirection::In => false,
            TransitionDirection::Out => true,
        };
        let n: usize = self.cells.len();
        let mut i: usize = 0;
        while i < n
            invariant
                i <= n,
                self.cells@.len() == n,
                n == old(self)@.cells.len(),
                self.state == Some(state),
                self.timer_ms == 0,
                self.duration_ms == old(self).duration_ms,
                seed == (state is Out),
                forall|j: int|
                    0 <= j < i ==> self.cells@[j] == (TransCell {
                        x: old(self)@.cells[j].x,
                        y: old(self)@.cells[j].y,
                        alive: seed,
                    }),
                forall|j: int| i <= j < n ==> self.cells@[j] == old(self)@.cells[j],
            decreases n - i,
        {
            let c = self.cells[i];
            self.cells[i] = TransCell { x: c.x, y: c.y, alive: seed };
            i = i + 1;
        }
        proof {
            assert(self@.cells =~= change_state_model(old(self)@, state).cells);
        }
    }

    /// Advances the timer by `dt` milliseconds and recomputes every cell's
    /// visibility from the screen's current dimensions. Returns whether the
    /// wipe has finished: the timer has reached the duration.
    pub fn update(&mut self, screen: &Screen, dt: u64) -> (finished: bool)
        requires
            screen@.wf(),
        ensures
            final(self)@ == update_model(old(self)@, screen@.width, screen@.height, dt),
            finished == (final(self)@.timer >= final(self)@.duration),
    {
        let t2: u64 = if dt > u64::MAX - self.timer_ms {
            u64::MAX
        } else {
            self.timer_ms + dt
        };
        self.timer_ms = t2;
        let w: u16 = screen.width();
        let h: u16 = screen.height();
        let n: usize = self.cells.len();
        let mut i: usize = 0;
        while i < n
            invariant
                i <= n,
                self.cells@.len() == n,
                n == old(self)@.cells.len(),
                self.state == old(self).state,
                self.timer_ms == t2,
                self.duration_ms == old(self).duration_ms,
                forall|j: int|
                    0 <= j < i ==> self.cells@[j] == (TransCell {
                        x: old(self)@.cells[j].x,
                        y: old(self)@.cells[j].y,
                        alive: cell_alive(
                            old(self)@.state,
                            old(self)@.cells[j].x as int,
                            old(self)@.cells[j].y as int,
                            w as int,
                            h as int,
                            t2 as int,
                            old(self)@.duration as int,
                        ),
                    }),
                forall|j: int| i <= j < n ==> self.cells@[j] == old(self)@.cells[j],
            decreases n - i,
        {
            let c = self.cells[i];
            let alive = compute_alive(self.state, c.x, c.y, w, h, t2, self.duration_ms);
            self.cells[i] = TransCell { x: c.x, y: c.y, alive };
            i = i + 1;
        }
        proof {
            assert(self@.cells =~= update_model(old(self)@, w, h, dt).cells);
        }
        self.timer_ms >= self.duration_ms as u64
    }

    /// Paints the tile motif over every alive cell; dead cells paint nothing,
    /// letting whatever is underneath show through.
    pub fn draw(&self, screen: &mut Screen)
        requires
            old(screen)@.wf(),
        ensures
            final(screen)@ == draw_model(old(screen)@, self@.cells),
            final(screen)@.wf(),
    {
        let n: usize = self.cells.len();
        let mut i: usize = 0;
        proof {
            assert(screen@ =~= draw_model(old(screen)@, self@.cells.take(0)));
        }
        while i < n
            invariant
                i <= n,
                n == self@.cells.len(),
                screen@ == draw_model(old(screen)@, self@.cells.take(i as int)),
                screen@.wf(),
            decreases n - i,
        {
            let c = self.cells[i];
            if c.alive {
                let rune = pattern_rune(c.x, c.y);
                screen.set_cell(c.x, c.y, rune, Color::White);
            }
            proof {
                lemma_draw_step(old(screen)@, self@.cells, i as int);
            }
            i = i + 1;
        }
        proof {
            assert(self@.cells.take(n as int) =~= self@.cells);
        }
    }
}

/// Extending the painted prefix by one cell is exactly one bounds-checked
/// write of the motif, or nothing for a dead cell.
proof fn lemma_draw_step(v: ScreenView, cells: Seq<TransCell>, i: int)
    requires
        v.wf(),
        0 <= i < cells.len(),
    ensures
        draw_model(v, cells.take(i + 1)) == (if cells[i].alive {
            set_cell_model(
                draw_model(v, cells.take(i)),
                cells[i].x as int,
                cells[i].y as int,
                pattern_char(cells[i].x as int, cells[i].y as int),
                Color::White,
            )
        } else {
            draw_model(v, cells.take(i))
        }),
{
    let w = v.width as int;
    let prev = draw_model(v, cells.take(i));
    let c = cells[i];
    assert(cells.take(i + 1) =~= cells.take(i).push(c));
    assert(forall|k: int| 0 <= k < i ==> cells.take(i + 1)[k] == cells.take(i)[k]);
    if c.alive && prev.writable(c.x as int, c.y as int) {
        let p = c.y as int * w + c.x as int;
        assert(0 <= p < v.buffer.len()) by (nonlinear_arith)
            requires
                0 <= c.x < v.width,
                0 <= c.y < v.height,
                w == v.width,
                p == c.y as int * w + c.x as int,
                v.buffer.len() == v.width * v.height,
        ;
        lemma_fundamental_div_mod_converse(p, w, c.y as int, c.x as int);
        let target = set_cell_model(prev, c.x as int, c.y as int, pattern_char(c.x as int, c.y as int), Color::White);
        assert forall|idx: int| 0 <= idx < v.buffer.len() implies draw_model(v, cells.take(i + 1)).buffer[idx]
            == target.buffer[idx] by {
            lemma_fundamental_div_mod(idx, w);
            if idx == p {
                assert(cells.take(i + 1)[i] == c);
                assert(c.x as int == idx % w && c.y as int == idx / w);
                assert(wipe_covers(cells.take(i + 1), v, idx));
            } else {
                if wipe_covers(cells.take(i + 1), v, idx) {
                    let k = choose|k: int|
                        #![trigger cells.take(i + 1)[k]]
                        0 <= k < cells.take(i + 1).len() && cells.take(i + 1)[k].alive
                            && cells.take(i + 1)[k].x as int == idx % w
                            && cells.take(i + 1)[k].y as int == idx / w
                            && cells.take(i + 1)[k].x < v.real_width
                            && cells.take(i + 1)[k].y < v.real_height;
                    if k == i {
                        assert(cells.take(i + 1)[i] == c);
                        assert(idx == w * (idx / w) + idx % w);
                        assert(w * (c.y as int) == c.y as int * w) by (nonlinear_arith);
                        assert(idx == c.y as int * w + c.x as int);
                        assert(false);
                    }
                    assert(cells.take(i)[k] == cells.take(i + 1)[k]);
                    assert(wipe_covers(cells.take(i), v, idx));
                }
                if wipe_covers(cells.take(i), v, idx) {
                    assert(wipe_covers(cells.take(i + 1), v, idx));
                }
            }
        }
        assert(draw_model(v, cells.take(i + 1)).buffer =~= target.buffer);
    } else {
        assert forall|idx: int| 0 <= idx < v.buffer.len() implies wipe_covers(cells.take(i + 1), v, idx)
            == wipe_covers(cells.take(i), v, idx) by {
            lemma_fundamental_div_mod(idx, w);
            assert(0 <= idx % w < w && 0 <= idx / w < v.height) by (nonlinear_arith)
                requires
                    0 < w,
                    0 < v.height,
                    0 <= idx < v.buffer.len(),
                    v.buffer.len() == w * v.height,
            ;
            if wipe_covers(cells.take(i + 1), v, idx) {
                let k = choose|k: int|
                    #![trigger cells.take(i + 1)[k]]
                    0 <= k < cells.take(i + 1).len() && cells.take(i + 1)[k].alive
                        && cells.take(i + 1)[k].x as int == idx % w
                        && cells.take(i + 1)[k].y as int == idx / w
                        && cells.take(i + 1)[k].x < v.real_width
                        && cells.take(i + 1)[k].y < v.real_height;
                if k == i {
                    assert(cells.take(i + 1)[i] == c);
                    assert(false);
                }
                assert(cells.take(i)[k] == cells.take(i + 1)[k]);
                assert(wipe_covers(cells.take(i), v, idx));
            }
            if wipe_covers(cells.take(i), v, idx) {
                assert(wipe_covers(cells.take(i + 1), v, idx));
            }
        }
        assert(draw_model(v, cells.take(i + 1)).buffer =~= draw_model(v, cells.take(i)).buffer);
    }
}

/// How many cells are visible.
pub open spec fn alive_count(cells: Seq<TransCell>) -> int
    decreases cells.len(),
{
    if cells.len() == 0 {
        0
    } else {
        (if cells[0].alive {
            1int
        } else {
            0int
        }) + alive_count(cells.drop_first())
    }
}

/// Pointwise implication of visibility bounds the count.
proof fn lemma_alive_count_le(c1: Seq<TransCell>, c2: Seq<TransCell>)
    requires
        c1.len() == c2.len(),
        forall|i: int| 0 <= i < c2.len() && c2[i].alive ==> c1[i].alive,
    ensures
        alive_count(c2) <= alive_count(c1),
    decreases c1.len(),
{
    if c1.len() > 0 {
        assert(forall|i: int| 0 <= i < c1.drop_first().len() ==> c1.drop_first()[i] == c1[i + 1]);
        assert(forall|i: int| 0 <= i < c2.drop_first().len() ==> c2.drop_first()[i] == c2[i + 1]);
        lemma_alive_count_le(c1.drop_first(), c2.drop_first());
    }
}

/// The wipe front only moves forward: a later timer keeps every cell an `In`
/// wipe has revealed, and keeps dead every cell an `Out` wipe has hidden.
proof fn lemma_cell_alive_monotone(x: int, y: int, w: int, h: int, t1: int, t2: int, d: int)
    requires
        0 <= t1 <= t2,
        0 <= w,
        0 <= h,
    ensures
        cell_alive(Some(TransitionDirection::In), x, y, w, h, t1, d)
            ==> cell_alive(Some(TransitionDirection::In), x, y, w, h, t2, d),
        cell_alive(Some(TransitionDirection::Out), x, y, w, h, t2, d)
            ==> cell_alive(Some(TransitionDirection::Out), x, y, w, h, t1, d),
{
    assert(wipe_rhs(t1, w, h) <= wipe_rhs(t2, w, h)) by (nonlinear_arith)
        requires
            0 <= t1 <= t2,
            0 <= w,
            0 <= h,
    ;
}

/// Monotonic wipe: across consecutive updates the count of visible cells is
/// non-increasing while the direction is `Out` and non-decreasing while it is
/// `In`.
pub proof fn lemma_wipe_monotone(m: TransModel, w: u16, h: u16, dt1: u64, dt2: u64)
    ensures
        ({
            let m1 = update_model(m, w, h, dt1);
            let m2 = update_model(m1, w, h, dt2);
            &&& (m.state == Some(TransitionDirection::Out) ==> alive_count(m2.cells) <= alive_count(
                m1.cells,
            ))
            &&& (m.state == Some(TransitionDirection::In) ==> alive_count(m1.cells) <= alive_count(
                m2.cells,
            ))
        }),
{
    let m1 = update_model(m, w, h, dt1);
    let m2 = update_model(m1, w, h, dt2);
    let t1 = advanced_timer(m.timer, dt1);
    let t2 = advanced_timer(t1, dt2);
    assert(m1.cells.len() == m2.cells.len());
    assert forall|i: int| 0 <= i < m1.cells.len() implies m1.cells[i].x == m2.cells[i].x
        && m1.cells[i].y == m2.cells[i].y by {}
    if m.state == Some(TransitionDirection::Out) {
        assert forall|i: int| 0 <= i < m2.cells.len() && m2.cells[i].alive implies m1.cells[i].alive by {
            lemma_cell_alive_monotone(
                m.cells[i].x as int,
                m.cells[i].y as int,
                w as int,
                h as int,
                t1 as int,
                t2 as int,
                m.duration as int,
            );
        }
        lemma_alive_count_le(m1.cells, m2.cells);
    }
    if m.state == Some(TransitionDirection::In) {
        assert forall|i: int| 0 <= i < m1.cells.len() && m1.cells[i].alive implies m2.cells[i].alive by {
            lemma_cell_alive_monotone(
                m.cells[i].x as int,
                m.cells[i].y as int,
                w as int,
                h as int,
                t1 as int,
                t2 as int,
                m.duration as int,
            );
        }
        lemma_alive_count_le(m2.cells, m1.cells);
    }
}

/// The wipe state after a whole sequence of updates, one per frame.
pub open spec fn run_updates(m: TransModel, w: u16, h: u16, dts: Seq<u64>) -> TransModel
    decreases dts.len(),
{
    if dts.len() == 0 {
        m
    } else {
        run_updates(update_model(m, w, h, dts[0]), w, h, dts.drop_first())
    }
}

/// The summed milliseconds of a sequence of frame times.
pub open spec fn total_ms(dts: Seq<u64>) -> int
    decreases dts.len(),
{
    if dts.len() == 0 {
        0
    } else {
        dts[0] + total_ms(dts.drop_first())
    }
}

/// Every frame time is non-negative, so the sum is too.
proof fn lemma_total_ms_nonneg(dts: Seq<u64>)
    ensures
        total_ms(dts) >= 0,
    decreases dts.len(),
{
    if dts.len() > 0 {
        lemma_total_ms_nonneg(dts.drop_first());
    }
}

/// Only the summed frame time matters: a non-empty sequence of updates lands
/// on the state whose timer is the initial timer plus the sum, with every
/// visibility flag recomputed for that timer. In particular the wipe reports
/// itself finished on exactly the update where the summed time reaches the
/// duration, however the total was divided into frames.
pub proof fn lemma_updates_accumulate(m: TransModel, w: u16, h: u16, dts: Seq<u64>)
    requires
        dts.len() >= 1,
        m.timer + total_ms(dts) <= u64::MAX,
    ensures
        run_updates(m, w, h, dts) == wipe_at(m, w, h, (m.timer + total_ms(dts)) as u64),
    decreases dts.len(),
{
    lemma_total_ms_nonneg(dts.drop_first());
    let m1 = update_model(m, w, h, dts[0]);
    assert(m1.timer == m.timer + dts[0]);
    if dts.len() == 1 {
        assert(total_ms(dts.drop_first()) == 0);
        assert(run_updates(m1, w, h, dts.drop_first()) == m1);
        assert(m1 =~= wipe_at(m, w, h, (m.timer + total_ms(dts)) as u64));
    } else {
        lemma_updates_accumulate(m1, w, h, dts.drop_first());
        let t_end = (m.timer + total_ms(dts)) as u64;
        assert(m1.timer + total_ms(dts.drop_first()) == m.timer + total_ms(dts));
        assert(run_updates(m, w, h, dts) == wipe_at(m1, w, h, t_end));
        assert(wipe_at(m1, w, h, t_end) =~= wipe_at(m, w, h, t_end));
    }
}

/// Monotonic wipe over whole runs: of two update sequences from the same
/// starting state, the one that has seen more total time shows no more cells
/// while the direction is `Out`, and no fewer while it is `In` — the wipe
/// front never retreats, however the time was divided into frames.
pub proof fn lemma_wipe_monotone_run(
    m: TransModel,
    w: u16,
    h: u16,
    dts1: Seq<u64>,
    dts2: Seq<u64>,
)
    requires
        dts1.len() >= 1,
        dts2.len() >= 1,
        total_ms(dts1) <= total_ms(dts2),
        m.timer + total_ms(dts2) <= u64::MAX,
    ensures
        m.state == Some(TransitionDirection::Out) ==> alive_count(
            run_updates(m, w, h, dts2).cells,
        ) <= alive_count(run_updates(m, w, h, dts1).cells),
        m.state == Some(TransitionDirection::In) ==> alive_count(
            run_updates(m, w, h, dts1).cells,
        ) <= alive_count(run_updates(m, w, h, dts2).cells),
{
    lemma_total_ms_nonneg(dts1);
    lemma_total_ms_nonneg(dts2);
    lemma_updates_accumulate(m, w, h, dts1);
    lemma_updates_accumulate(m, w, h, dts2);
    let t1 = (m.timer + total_ms(dts1)) as u64;
    let t2 = (m.timer + total_ms(dts2)) as u64;
    let c1 = wipe_at(m, w, h, t1).cells;
    let c2 = wipe_at(m, w, h, t2).cells;
    assert(c1.len() == c2.len());
    if m.state == Some(TransitionDirection::Out) {
        assert forall|i: int| 0 <= i < c2.len() && c2[i].alive implies c1[i].alive by {
            lemma_cell_alive_monotone(
                m.cells[i].x as int,
                m.cells[i].y as int,
                w as int,
                h as int,
                t1 as int,
                t2 as int,
                m.duration as int,
            );
        }
        lemma_alive_count_le(c1, c2);
    }
    if m.state == Some(TransitionDirection::In) {
        assert forall|i: int| 0 <= i < c1.len() && c1[i].alive implies c2[i].alive by {
            lemma_cell_alive_monotone(
                m.cells[i].x as int,
                m.cells[i].y as int,
                w as int,
                h as int,
                t1 as int,
                t2 as int,
                m.duration as int,
            );
        }
        lemma_alive_count_le(c2, c1);
    }
}

/// Frame-rate independence: two frame-time sequences that sum to the same
/// total elapsed time leave the wipe in the same state, however differently
/// the total was divided.
pub proof fn lemma_frame_rate_independence(
    m: TransModel,
    w: u16,
    h: u16,
    dts1: Seq<u64>,
    dts2: Seq<u64>,
)
    requires
        dts1.len() >= 1,
        dts2.len() >= 1,
        total_ms(dts1) == total_ms(dts2),
        m.timer + total_ms(dts1) <= u64::MAX,
    ensures
        run_updates(m, w, h, dts1) == run_updates(m, w, h, dts2),
{
    lemma_updates_accumulate(m, w, h, dts1);
    lemma_updates_accumulate(m, w, h, dts2);
}

} // verus!

