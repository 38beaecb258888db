//! The character-grid screen: a flat buffer of cells with a logical size
//! clamped to a supported range and a record of the true terminal size, so
//! that writes degrade gracefully during resize races.

use vstd::prelude::*;

verus! {

/// A foreground colour for one grid cell. Only the colours the core emits
/// are modelled; the embedding program maps them onto the terminal palette.
#[derive(Clone, Copy, PartialEq, Eq, Structural, Debug)]
pub enum Color {
    White,
    Rgb { r: u8, g: u8, b: u8 },
}

/// One character position of the display grid: a rune and its colour.
#[derive(Clone, Copy, PartialEq, Eq, Structural, Debug)]
pub struct Cell {
    pub rune: char,
    pub color: Color,
}

/// The blank cell every position is reset to by `clear`.
pub open spec fn blank_cell() -> Cell {
    Cell { rune: ' ', color: Color::White }
}

/// One step of a frame flush: paint `rune` in `color` at column `x`, row `y`.
#[derive(Clone, Copy, PartialEq, Eq, Structural, Debug)]
pub struct DrawCommand {
    pub x: u16,
    pub y: u16,
    pub rune: char,
    pub color: Color,
}

/// Mathematical model of a [`Screen`].
#[verifier::ext_equal]
pub struct ScreenView {
    pub width: u16,
    pub height: u16,
    pub real_width: u16,
    pub real_height: u16,
    pub buffer: Seq<Cell>,
}

/// The logical width a terminal width is clamped to: one column is kept as a
/// safety margin, then the result is forced into `[80, 200]`.
pub open spec fn clamp_width(w: u16) -> u16 {
    let shrunk = if w == 0 { 0u16 } else { (w - 1) as u16 };
    if shrunk < 80 {
        80u16
    } else if shrunk > 200 {
        200u16
    } else {
        shrunk
    }
}

/// The logical height a terminal height is clamped to: forced into `[40, 70]`.
pub open spec fn clamp_height(h: u16) -> u16 {
    if h < 40 {
        40u16
    } else if h > 70 {
        70u16
    } else {
        h
    }
}

impl ScreenView {
    /// The screen invariant: logical dimensions in their supported ranges and
    /// a buffer of exactly one cell per logical position.
    pub open spec fn wf(self) -> bool {
        &&& 80 <= self.width <= 200
        &&& 40 <= self.height <= 70
        &&& self.buffer.len() == self.width * self.height
    }

    /// Whether a write at `(x, y)` lands in the buffer: inside the logical
    /// grid and inside the true terminal.
    pub open spec fn writable(self, x: int, y: int) -> bool {
        &&& 0 <= x < self.width
        &&& 0 <= y < self.height
        &&& x < self.real_width
        &&& y < self.real_height
    }
}

/// What a fresh screen for terminal size `size` looks like: clamped logical
/// dimensions and an all-blank buffer.
pub open spec fn new_model(size: (u16, u16)) -> ScreenView {
    ScreenView {
        width: clamp_width(size.0),
        height: clamp_height(size.1),
        real_width: size.0,
        real_height: size.1,
        buffer: Seq::new((clamp_width(size.0) * clamp_height(size.1)) as nat, |i: int| blank_cell()),
    }
}

/// What `set_cell` does: update one cell when the write is in bounds,
/// otherwise leave the screen untouched.
pub open spec fn set_cell_model(v: ScreenView, x: int, y: int, rune: char, color: Color) -> ScreenView {
    if v.writable(x, y) {
        ScreenView { buffer: v.buffer.update(y * v.width + x, Cell { rune, color }), ..v }
    } else {
        v
    }
}

/// What `clear` does: reset every cell to blank.
pub open spec fn clear_model(v: ScreenView) -> ScreenView {
    ScreenView { buffer: Seq::new(v.buffer.len(), |i: int| blank_cell()), ..v }
}

/// What `resize` does: adopt the new clamped dimensions, and keep the buffer
/// exactly when the logical cell count is unchanged, else start blank.
pub open spec fn resize_model(v: ScreenView, size: (u16, u16)) -> ScreenView {
    let w = clamp_width(size.0);
    let h = clamp_height(size.1);
    ScreenView {
        width: w,
        height: h,
        real_width: size.0,
        real_height: size.1,
        buffer: if v.buffer.len() == w * h {
            v.buffer
        } else {
            Seq::new((w * h) as nat, |i: int| blank_cell())
        },
    }
}

/// A double-buffered character grid sized to the terminal. All drawing goes
/// through [`Screen::set_cell`]; a frame is flushed by handing the commands of
/// [`Screen::render_commands`] to the terminal.
pub struct Screen {
    width: u16,
    height: u16,
    real_width: u16,
    real_height: u16,
    buffer: Vec<Cell>,
}

impl View for Screen {
    type V = ScreenView;

    closed spec fn view(&self) -> ScreenView {
        ScreenView {
            width: self.width,
            height: self.height,
            real_width: self.real_width,
            real_height: self.real_height,
            buffer: self.buffer@,
        }
    }
}

/// Clamps a raw terminal size into the supported logical range.
fn clamp_screen(size: (u16, u16)) -> (r: (u16, u16))
    ensures
        r.0 == clamp_width(size.0),
        r.1 == clamp_height(size.1),
{
    let shrunk: u16 = if size.0 == 0 { 0 } else { size.0 - 1 };
    let w: u16 = if shrunk < 80 {
        80
    } else if shrunk > 200 {
        200
    } else {
        shrunk
    };
    let h: u16 = if size.1 < 40 {
        40
    } else if size.1 > 70 {
        70
    } else {
        size.1
    };
    (w, h)
}

/// A vector of `n` blank cells.
fn blank_buffer(n: usize) -> (r: Vec<Cell>)
    ensures
        r@ =~= Seq::new(n as nat, |i: int| blank_cell()),
{
    let mut out: Vec<Cell> = Vec::new();
    let mut i: usize = 0;
    while i < n
        invariant
            i <= n,
            out@.len() == i,
            forall|j: int| 0 <= j < i ==> out@[j] == blank_cell(),
        decreases n - i,
    {
        out.push(Cell { rune: ' ', color: Color::White });
        i = i + 1;
    }
    out
}

impl Screen {
    /// A screen for a terminal of size `size`, with the logical dimensions
    /// clamped into their supported ranges and every cell blank.
    pub fn new(size: (u16, u16)) -> (s: Screen)
        ensures
            s@ == new_model(size),
            s@.wf(),
    {
        let (w, h) = clamp_screen(size);
        assert(w as int * h as int <= 14000) by (nonlinear_arith)
            requires
                w <= 200,
                h <= 70,
        ;
        let buffer = blank_buffer((w as usize) * (h as usize));
        let s = Screen { width: w, height: h, real_width: size.0, real_height: size.1, buffer };
        assert(s@.buffer =~= new_model(size).buffer);
        s
    }

    /// The clamped logical width.
    pub fn width(&self) -> (r: u16)
        ensures
            r == self@.width,
    {
        self.width
    }

    /// The clamped logical height.
    pub fn height(&self) -> (r: u16)
        ensures
            r == self@.height,
    {
        self.height
    }

    /// A deep copy of the current cells, used by transitions to remember the
    /// image drawn before they started.
    pub fn clone_buffer(&self) -> (r: Vec<Cell>)
        ensures
            r@ == self@.buffer,
    {
        let mut out: Vec<Cell> = Vec::new();
        let mut i: usize = 0;
        while i < self.buffer.len()
            invariant
                i <= self.buffer.len(),
                out@.len() == i,
                forall|j: int| 0 <= j < i ==> out@[j] == self@.buffer[j],
            decreases self.buffer.len() - i,
        {
            out.push(self.buffer[i]);
            i = i + 1;
        }
        assert(out@ =~= self@.buffer);
        out
    }

    /// Resets every cell to blank. Called once per frame before drawing.
    pub fn clear(&mut self)
        ensures
            final(self)@ == clear_model(old(self)@),
    {
        let n: usize = self.buffer.len();
        let mut i: usize = 0;
        while i < n
            invariant
                i <= n,
                self.width == old(self).width,
                self.height == old(self).height,
                self.real_width == old(self).real_width,
                self.real_height == old(self).real_height,
                self.buffer@.len() == n,
                forall|j: int| 0 <= j < i ==> self.buffer@[j] == blank_cell(),
                forall|j: int| i <= j < n ==> self.buffer@[j] == old(self).buffer@[j],
            decreases n - i,
        {
            self.buffer[i] = Cell { rune: ' ', color: Color::White };
            i = i + 1;
        }
        assert(final(self)@.buffer =~= clear_model(old(self)@).buffer);
    }

    /// Adopts a new terminal size. When the clamped cell count is unchanged
    /// the buffer is kept as it is — a trivial resize neither reallocates nor
    /// clears — otherwise a blank buffer of the new size is allocated.
    pub fn resize(&mut self, size: (u16, u16))
        ensures
            final(self)@ == resize_model(old(self)@, size),
            final(self)@.wf(),
    {
        let (w, h) = clamp_screen(size);
        self.width = w;
        self.height = h;
        self.real_width = size.0;
        self.real_height = size.1;

        assert(w as int * h as int <= 14000) by (nonlinear_arith)
            requires
                w <= 200,
                h <= 70,
        ;
        let target: usize = (w as usize) * (h as usize);
        if self.buffer.len() == target {
            return;
        }

        self.buffer = blank_buffer(target);
        assert(final(self)@.buffer =~= resize_model(old(self)@, size).buffer);
    }

    /// Writes one cell, bounds-checked: a write outside the logical grid or
    /// outside the true terminal is silently ignored, never an error, so that
    /// resize races degrade gracefully.
    pub fn set_cell(&mut self, x: u16, y: u16, rune: char, color: Color)
        requires
            old(self)@.wf(),
        ensures
            final(self)@ == set_cell_model(old(self)@, x as int, y as int, rune, color),
            final(self)@.wf(),
    {
        if x >= self.width || y >= self.height {
            return;
        }
        if x >= self.real_width || y >= self.real_height {
            return;
        }
        assert((y as int) * (self.width as int) + (x as int) < self@.buffer.len()
            && (y as int) * (self.width as int) + (x as int) < 14000) by (nonlinear_arith)
            requires
                x < self.width,
                y < self.height,
                self.width <= 200,
                self.height <= 70,
                self@.buffer.len() == self.width * self.height,
        ;
        let index: usize = (y as usize) * (self.width as usize) + (x as usize);
        self.buffer[index] = Cell { rune, color };
    }

    /// The buffer index of logical position `(x, y)`, row-major.
    pub fn xy_to_index(&self, x: u16, y: u16) -> (r: usize)
        requires
            self@.wf(),
            x < self@.width,
            y < self@.height,
        ensures
            r == y * self@.width + x,
            r < self@.buffer.len(),
    {
        assert((y as int) * (self.width as int) + (x as int) < self@.buffer.len()
            && (y as int) * (self.width as int) + (x as int) < 14000) by (nonlinear_arith)
            requires
                x < self.width,
                y < self.height,
                self.width <= 200,
                self.height <= 70,
                self@.buffer.len() == self.width * self.height,
        ;
        (y as usize) * (self.width as usize) + (x as usize)
    }

    /// The logical position of a buffer index, row-major.
    pub fn index_to_xy(&self, index: usize) -> (r: (u16, u16))
        requires
            self@.wf(),
            index < self@.buffer.len(),
        ensures
            r.0 == index as int % self@.width as int,
            r.1 == index as int / self@.width as int,
    {
        proof {
            lemma_index_to_xy_bounds(index as int, self@.width as int, self@.height as int);
        }
        let x: u16 = (index % self.width as usize) as u16;
        let y: u16 = (index / self.width as usize) as u16;
        (x, y)
    }

    /// The full-repaint command list for the current frame: one styled write
    /// per cell, in row-major order.
    pub fn render_commands(&self) -> (r: Vec<DrawCommand>)
        requires
            self@.wf(),
        ensures
            r@.len() == self@.buffer.len(),
            forall|i: int|
                0 <= i < r@.len() ==> r@[i] == (DrawCommand {
                    x: (i % self@.width as int) as u16,
                    y: (i / self@.width as int) as u16,
                    rune: self@.buffer[i].rune,
                    color: self@.buffer[i].color,
                }),
    {
        let mut out: Vec<DrawCommand> = Vec::new();
        let mut i: usize = 0;
        let n: usize = self.buffer.len();
        while i < n
            invariant
                i <= n,
                n == self@.buffer.len(),
                out@.len() == i,
                forall|j: int|
                    0 <= j < i ==> out@[j] == (DrawCommand {
                        x: (j % self@.width as int) as u16,
                        y: (j / self@.width as int) as u16,
                        rune: self@.buffer[j].rune,
                        color: self@.buffer[j].color,
                    }),
            decreases n - i,
        {
            proof {
                lemma_index_to_xy_bounds(i as int, self@.width as int, self@.height as int);
            }
            let x: u16 = (i % self.width as usize) as u16;
            let y: u16 = (i / self.width as usize) as u16;
            let cell = self.buffer[i];
            out.push(DrawCommand { x, y, rune: cell.rune, color: cell.color });
            i = i + 1;
        }
        out
    }
}

/// Row-major decoding stays within `u16`: for an index inside a `w × h`
/// buffer, the column is below `w` and the row below `h`.
proof fn lemma_index_to_xy_bounds(index: int, w: int, h: int)
    requires
        0 < w,
        0 < h,
        0 <= index < w * h,
    ensures
        0 <= index % w < w,
        0 <= index / w < h,
{
    assert(0 <= index % w < w) by (nonlinear_arith)
        requires
            0 < w,
    ;
    assert(0 <= index / w < h) by (nonlinear_arith)
        requires
            0 < w,
            0 < h,
            0 <= index < w * h,
    ;
}

/// A resize to dimensions that clamp to the current logical size leaves the
/// buffer untouched — in particular, resizing twice with logically-equivalent
/// sizes never clears the grid a second time.
pub proof fn lemma_resize_idempotent(v: ScreenView, s1: (u16, u16), s2: (u16, u16))
    requires
        v.wf(),
        clamp_width(s1.0) == clamp_width(s2.0),
        clamp_height(s1.1) == clamp_height(s2.1),
    ensures
        resize_model(resize_model(v, s1), s2).buffer == resize_model(v, s1).buffer,
{
}

/// Cells written between two resizes with logically-equivalent dimensions
/// survive the second resize.
pub proof fn lemma_resize_preserves_writes(
    v: ScreenView,
    s1: (u16, u16),
    s2: (u16, u16),
    x: int,
    y: int,
    rune: char,
    color: Color,
)
    requires
        v.wf(),
        clamp_width(s1.0) == clamp_width(s2.0),
        clamp_height(s1.1) == clamp_height(s2.1),
    ensures
        ({
            let written = set_cell_model(resize_model(v, s1), x, y, rune, color);
            resize_model(written, s2).buffer == written.buffer
        }),
{
    let after = resize_model(v, s1);
    assert(after.buffer.len() == clamp_width(s1.0) * clamp_height(s1.1));
    let written = set_cell_model(after, x, y, rune, color);
    if after.writable(x, y) {
        assert(0 <= y * after.width + x < after.buffer.len()) by (nonlinear_arith)
            requires
                0 <= x < after.width,
                0 <= y < after.height,
                after.buffer.len() == after.width * after.height,
        ;
    }
    assert(written.buffer.len() == after.buffer.len());
    assert(written.buffer.len() == clamp_width(s2.0) * clamp_height(s2.1));
}

/// A write outside the logical grid leaves the screen exactly as it was.
pub proof fn lemma_set_cell_out_of_bounds(v: ScreenView, x: int, y: int, rune: char, color: Color)
    requires
        x >= v.width || y >= v.height,
    ensures
        set_cell_model(v, x, y, rune, color) == v,
{
}

} // verus!
