//! Shared panel drawing: bordered text boxes with hover/click highlighting,
//! the quiz panel built from them, the day-selection calendar, transparent
//! ASCII-art blitting, and the ground line.
//!
//! All geometry is computed in exact integer arithmetic; every write goes
//! through the screen's bounds-checked `set_cell`, so panels that hang off
//! the screen edge are simply clipped.

use vstd::arithmetic::div_mod::{lemma_fundamental_div_mod, lemma_fundamental_div_mod_converse};
use vstd::prelude::*;
use vstd::string::{StrSliceExecFns, StringSliceAdditionalSpecFns};

use crate::screen::{set_cell_model, Cell, Color, Screen, ScreenView};

verus! {

/// Signed halving that truncates toward zero, as the original narrow-integer
/// division does.
pub open spec fn tdiv2(a: int) -> int {
    if a >= 0 {
        a / 2
    } else {
        -((-a) / 2)
    }
}

/// The column of a text box's first text character: the box is centred for
/// the byte length of its text, then shifted by the caller's offset.
pub open spec fn tb_x_origin(width: int, qlen: int, x_offset: int) -> int {
    tdiv2(width - qlen) + x_offset
}

/// The row of a text box's text line.
pub open spec fn tb_y_origin(height: int, y_offset: int) -> int {
    tdiv2(height) + y_offset
}

/// Whether the mouse is over the box: within three columns left, two columns
/// right of the text, and one row above or below it.
pub open spec fn tb_hovered(mouse: (u16, u16), x0: int, y0: int, qlen: int) -> bool {
    &&& x0 - 3 <= mouse.0 <= x0 + qlen + 2
    &&& y0 - 1 <= mouse.1 <= y0 + 1
}

/// The box colour: green while clicked on, yellow while merely hovered,
/// white otherwise.
pub open spec fn tb_color(hovered: bool, mouse_down: bool) -> Color {
    if hovered {
        if mouse_down {
            Color::Rgb { r: 0, g: 255, b: 0 }
        } else {
            Color::Rgb { r: 255, g: 255, b: 0 }
        }
    } else {
        Color::White
    }
}

/// The rune of a stroke at offset `i`.
pub open spec fn stroke_rune(runes: Seq<char>, i: int) -> char {
    runes[i]
}

/// One horizontal stroke: runes painted left to right from column `x` in row
/// `y`, clipped by the screen's bounds checks.
pub open spec fn row_paint(v: ScreenView, x: int, y: int, runes: Seq<char>, color: Color) -> ScreenView {
    ScreenView {
        buffer: Seq::new(
            v.buffer.len(),
            |idx: int| if idx / (v.width as int) == y && x <= idx % (v.width as int) && idx % (
            v.width as int) < x + runes.len() && (idx % (v.width as int)) < v.real_width && y
                < v.real_height {
                Cell { rune: stroke_rune(runes, idx % (v.width as int) - x), color }
            } else {
                v.buffer[idx]
            },
        ),
        ..v
    }
}

/// The top border stroke: rounded corners joined by a rule.
pub open spec fn top_border_run(qlen: int) -> Seq<char> {
    Seq::new(
        (qlen + 6) as nat,
        |j: int| if j == 0 {
            '╭'
        } else if j == qlen + 5 {
            '╮'
        } else {
            '─'
        },
    )
}

/// The bottom border stroke.
pub open spec fn bottom_border_run(qlen: int) -> Seq<char> {
    Seq::new(
        (qlen + 6) as nat,
        |j: int| if j == 0 {
            '╰'
        } else if j == qlen + 5 {
            '╯'
        } else {
            '─'
        },
    )
}

/// A blank interior stroke.
pub open spec fn blank_run(qlen: int) -> Seq<char> {
    Seq::new((qlen + 4) as nat, |j: int| ' ')
}

/// What `draw_text_box` paints, stroke by stroke in painting order: three
/// blank interior rows, the top and bottom borders where they fit on the
/// logical grid, the two side bars where they fit, and finally the text
/// itself. `qlen` is the byte length of the text, which is what the box is
/// sized by; `qchars` are the characters painted on the text row.
pub open spec fn text_box_model(
    v: ScreenView,
    width: int,
    height: int,
    qchars: Seq<char>,
    qlen: int,
    x_offset: int,
    y_offset: int,
    mouse: (u16, u16),
    mouse_down: bool,
) -> ScreenView {
    let x0 = tb_x_origin(width, qlen, x_offset);
    let y0 = tb_y_origin(height, y_offset);
    let color = tb_color(tb_hovered(mouse, x0, y0, qlen), mouse_down);
    let v1 = row_paint(v, x0 - 2, y0, blank_run(qlen), Color::White);
    let v2 = row_paint(v1, x0 - 2, y0 + 1, blank_run(qlen), Color::White);
    let v3 = row_paint(v2, x0 - 2, y0 + 2, blank_run(qlen), Color::White);
    let v4 = if y0 > 0 {
        row_paint(v3, x0 - 3, y0 - 1, top_border_run(qlen), color)
    } else {
        v3
    };
    let v5 = if y0 < height - 1 {
        row_paint(v4, x0 - 3, y0 + 1, bottom_border_run(qlen), color)
    } else {
        v4
    };
    let v6 = if x0 > 3 {
        set_cell_model(v5, x0 - 3, y0, '│', color)
    } else {
        v5
    };
    let v7 = if x0 + qlen + 2 < width {
        set_cell_model(v6, x0 + qlen + 2, y0, '│', color)
    } else {
        v6
    };
    row_paint(v7, x0, y0, qchars, color)
}

/// Halves toward zero, executably.
fn half_toward_zero(a: i32) -> (r: i32)
    requires
        -1000000 <= a <= 1000000,
    ensures
        r == tdiv2(a as int),
{
    if a >= 0 {
        (a as u32 / 2) as i32
    } else {
        -(((-a) as u32 / 2) as i32)
    }
}

/// A bounds-checked write at signed coordinates: anything negative or beyond
/// `u16` is out of every screen's range and is dropped, exactly as
/// `set_cell_model` says.
fn set_cell_at(screen: &mut Screen, x: i32, y: i32, rune: char, color: Color)
    requires
        old(screen)@.wf(),
    ensures
        final(screen)@ == set_cell_model(old(screen)@, x as int, y as int, rune, color),
        final(screen)@.wf(),
{
    if 0 <= x && x <= u16::MAX as i32 && 0 <= y && y <= u16::MAX as i32 {
        screen.set_cell(x as u16, y as u16, rune, color);
    } else {
        proof {
            assert(!old(screen)@.writable(x as int, y as int));
        }
    }
}

/// A stroke of runes extends the painted prefix by exactly one write.
#[verifier::rlimit(50)]
proof fn lemma_row_paint_step(v: ScreenView, x: int, y: int, runes: Seq<char>, j: int, color: Color)
    requires
        v.wf(),
        0 <= j < runes.len(),
    ensures
        row_paint(v, x, y, runes.take(j + 1), color) == set_cell_model(
            row_paint(v, x, y, runes.take(j), color),
            x + j,
            y,
            stroke_rune(runes, j),
            color,
        ),
{
    let w = v.width as int;
    let prev = row_paint(v, x, y, runes.take(j), color);
    let target = set_cell_model(prev, x + j, y, stroke_rune(runes, j), color);
    assert(prev.buffer.len() == v.buffer.len());
    if prev.writable(x + j, y) {
        let p = y * w + (x + j);
        assert(0 <= p < v.buffer.len()) by (nonlinear_arith)
            requires
                0 <= x + j < v.width,
                0 <= y < v.height,
                w == v.width,
                p == y * w + (x + j),
                v.buffer.len() == v.width * v.height,
        ;
        lemma_fundamental_div_mod_converse(p, w, y, x + j);
        let cnew = Cell { rune: stroke_rune(runes, j), color };
        let newbuf = prev.buffer.update(p, cnew);
        assert(prev.width == v.width);
        assert(y * (prev.width as int) == y * w) by (nonlinear_arith)
            requires
                (prev.width as int) == w,
        ;
        assert(target.buffer == newbuf);
        assert forall|idx: int| 0 <= idx < v.buffer.len() implies row_paint(
            v,
            x,
            y,
            runes.take(j + 1),
            color,
        ).buffer[idx] == target.buffer[idx] by {
            lemma_fundamental_div_mod(idx, w);
            assert(0 <= idx % w < w && 0 <= idx / w < v.height) by (nonlinear_arith)
                requires
                    0 < w,
                    0 < v.height,
                    0 <= idx < v.buffer.len(),
                    v.buffer.len() == w * v.height,
            ;
            assert(runes.take(j + 1).len() == j + 1);
            assert(runes.take(j).len() == j);
            if idx == p {
                assert(idx % w == x + j);
                assert(idx / w == y);
                assert(runes.take(j + 1)[j] == runes[j]);
                assert(stroke_rune(runes.take(j + 1), idx % w - x) == stroke_rune(runes, j));
                assert(newbuf[idx] == cnew);
            } else {
                assert(newbuf[idx] == prev.buffer[idx]);
                if idx / w == y && idx % w == x + j {
                    assert(w * (idx / w) == (idx / w) * w) by (nonlinear_arith);
                    assert(idx == p);
                }
                if idx / w == y && x <= idx % w && idx % w < x + j {
                    assert(runes.take(j + 1)[idx % w - x] == runes[idx % w - x]);
                    assert(runes.take(j)[idx % w - x] == runes[idx % w - x]);
                    assert(stroke_rune(runes.take(j + 1), idx % w - x) == stroke_rune(
                        runes.take(j),
                        idx % w - x,
                    ));
                }
            }
        }
        assert(row_paint(v, x, y, runes.take(j + 1), color).buffer =~= target.buffer);
        assert(row_paint(v, x, y, runes.take(j + 1), color) =~= target);
    } else {
        assert forall|idx: int| 0 <= idx < v.buffer.len() implies row_paint(
            v,
            x,
            y,
            runes.take(j + 1),
            color,
        ).buffer[idx] == prev.buffer[idx] by {
            lemma_fundamental_div_mod(idx, w);
            assert(0 <= idx % w < w && 0 <= idx / w < v.height) by (nonlinear_arith)
                requires
                    0 < w,
                    0 < v.height,
                    0 <= idx < v.buffer.len(),
                    v.buffer.len() == w * v.height,
            ;
            if idx / w == y && idx % w == x + j {
                assert(w * (idx / w) == (idx / w) * w) by (nonlinear_arith);
                assert(0 <= x + j < v.width && 0 <= y < v.height);
                assert(x + j >= v.real_width || y >= v.real_height);
            } else {
                if idx / w == y && x <= idx % w && idx % w < x + j {
                    assert(stroke_rune(runes.take(j + 1), idx % w - x) == stroke_rune(
                        runes.take(j),
                        idx % w - x,
                    ));
                }
            }
        }
        assert(row_paint(v, x, y, runes.take(j + 1), color).buffer =~= prev.buffer);
        assert(row_paint(v, x, y, runes.take(j + 1), color) =~= target);
    }
}

/// Paints one stroke of runes starting at signed column `x` in row `y`.
fn paint_row(screen: &mut Screen, x: i32, y: i32, runes: &Vec<char>, color: Color)
    requires
        old(screen)@.wf(),
        runes@.len() <= 1000000,
        -100000000 <= x <= 100000000,
        -100000000 <= y <= 100000000,
    ensures
        final(screen)@ == row_paint(old(screen)@, x as int, y as int, runes@, color),
        final(screen)@.wf(),
{
    let n: usize = runes.len();
    let mut j: usize = 0;
    proof {
        assert(row_paint(old(screen)@, x as int, y as int, runes@.take(0), color).buffer
            =~= old(screen)@.buffer);
        assert(screen@ =~= row_paint(old(screen)@, x as int, y as int, runes@.take(0), color));
    }
    while j < n
        invariant
            j <= n,
            n == runes@.len(),
            screen@ == row_paint(old(screen)@, x as int, y as int, runes@.take(j as int), color),
            screen@.wf(),
        decreases n - j,
    {
        set_cell_at(screen, x + j as i32, y, runes[j], color);
        proof {
            lemma_row_paint_step(old(screen)@, x as int, y as int, runes@, j as int, color);
        }
        j = j + 1;
    }
    proof {
        assert(runes@.take(n as int) =~= runes@);
    }
}

/// The characters of a string, in order.
fn chars_of(s: &str) -> (r: Vec<char>)
    ensures
        r@ == s@,
{
    let n: usize = s.unicode_len();
    let mut out: Vec<char> = Vec::new();
    let mut i: usize = 0;
    while i < n
        invariant
            i <= n,
            n == s@.len(),
            out@.len() == i,
            forall|k: int| 0 <= k < i ==> out@[k] == s@[k],
        decreases n - i,
    {
        out.push(s.get_char(i));
        i = i + 1;
    }
    proof {
        assert(out@ =~= s@);
    }
    out
}

/// `n` copies of one rune.
fn repeated_run(rune: char, n: usize) -> (r: Vec<char>)
    ensures
        r@ =~= Seq::new(n as nat, |j: int| rune),
{
    let mut out: Vec<char> = Vec::new();
    let mut j: usize = 0;
    while j < n
        invariant
            j <= n,
            out@.len() == j,
            forall|k: int| 0 <= k < j ==> out@[k] == rune,
        decreases n - j,
    {
        out.push(rune);
        j = j + 1;
    }
    out
}

/// A border stroke: `first`, `qlen + 4` rules, `last`.
fn border_run(first: char, last: char, qlen: usize) -> (r: Vec<char>)
    requires
        qlen <= 1000000,
    ensures
        r@.len() == qlen + 6,
        forall|j: int|
            0 <= j < qlen + 6 ==> r@[j] == (if j == 0 {
                first
            } else if j == qlen + 5 {
                last
            } else {
                '─'
            }),
{
    let mut out: Vec<char> = Vec::new();
    out.push(first);
    let mut j: usize = 0;
    while j < qlen + 4
        invariant
            j <= qlen + 4,
            out@.len() == j + 1,
            out@[0] == first,
            forall|k: int| 1 <= k < j + 1 ==> out@[k] == '─',
        decreases qlen + 4 - j,
    {
        out.push('─');
        j = j + 1;
    }
    out.push(last);
    out
}

/// The box painter shared by the string and calendar panels: `qchars` are
/// the runes of the text row and `qlen` is the byte length the box is sized
/// by.
fn text_box_runes(
    screen: &mut Screen,
    width: u16,
    height: u16,
    qchars: &Vec<char>,
    qlen: usize,
    x_offset: i16,
    y_offset: i16,
    mouse_position: (u16, u16),
    mouse_down: bool,
) -> (hovered: bool)
    requires
        old(screen)@.wf(),
        qchars@.len() <= 1000,
        qlen <= 4000,
    ensures
        hovered == tb_hovered(
            mouse_position,
            tb_x_origin(width as int, qlen as int, x_offset as int),
            tb_y_origin(height as int, y_offset as int),
            qlen as int,
        ),
        final(screen)@ == text_box_model(
            old(screen)@,
            width as int,
            height as int,
            qchars@,
            qlen as int,
            x_offset as int,
            y_offset as int,
            mouse_position,
            mouse_down,
        ),
        final(screen)@.wf(),
{
    let x0: i32 = half_toward_zero(width as i32 - qlen as i32) + x_offset as i32;
    let y0: i32 = half_toward_zero(height as i32) + y_offset as i32;

    let hovered: bool = x0 - 3 <= mouse_position.0 as i32 && mouse_position.0 as i32 <= x0
        + qlen as i32 + 2 && y0 - 1 <= mouse_position.1 as i32 && mouse_position.1 as i32 <= y0 + 1;

    let color: Color = if hovered {
        if mouse_down {
            Color::Rgb { r: 0, g: 255, b: 0 }
        } else {
            Color::Rgb { r: 255, g: 255, b: 0 }
        }
    } else {
        Color::White
    };

    let blanks = repeated_run(' ', qlen + 4);
    paint_row(screen, x0 - 2, y0, &blanks, Color::White);
    paint_row(screen, x0 - 2, y0 + 1, &blanks, Color::White);
    paint_row(screen, x0 - 2, y0 + 2, &blanks, Color::White);
    proof {
        assert(blanks@ =~= blank_run(qlen as int));
    }

    if y0 > 0 {
        let top = border_run('╭', '╮', qlen);
        proof {
            assert(top@ =~= top_border_run(qlen as int));
        }
        paint_row(screen, x0 - 3, y0 - 1, &top, color);
    }

    if y0 < height as i32 - 1 {
        let bottom = border_run('╰', '╯', qlen);
        proof {
            assert(bottom@ =~= bottom_border_run(qlen as int));
        }
        paint_row(screen, x0 - 3, y0 + 1, &bottom, color);
    }

    if x0 > 3 {
        set_cell_at(screen, x0 - 3, y0, '│', color);
    }

    if x0 + qlen as i32 + 2 < width as i32 {
        set_cell_at(screen, x0 + qlen as i32 + 2, y0, '│', color);
    }

    paint_row(screen, x0, y0, qchars, color);

    hovered
}

/// Draws one bordered, centred text box, offset from the screen centre, and
/// reports whether the mouse is over it. The box is sized by the text's byte
/// length, as the surrounding layout is; hovering turns the border and text
/// yellow, hovering with the button held turns them green.
pub fn draw_text_box(
    screen: &mut Screen,
    width: u16,
    height: u16,
    q: &str,
    x_offset: i16,
    y_offset: i16,
    mouse_position: (u16, u16),
    mouse_down: bool,
) -> (hovered: bool)
    requires
        old(screen)@.wf(),
        q@.len() <= 1000,
        q.spec_bytes().len() <= 4000,
    ensures
        hovered == tb_hovered(
            mouse_position,
            tb_x_origin(width as int, q.spec_bytes().len() as int, x_offset as int),
            tb_y_origin(height as int, y_offset as int),
            q.spec_bytes().len() as int,
        ),
        final(screen)@ == text_box_model(
            old(screen)@,
            width as int,
            height as int,
            q@,
            q.spec_bytes().len() as int,
            x_offset as int,
            y_offset as int,
            mouse_position,
            mouse_down,
        ),
        final(screen)@.wf(),
{
    let text = chars_of(q);
    let qlen: usize = q.len();
    text_box_runes(screen, width, height, &text, qlen, x_offset, y_offset, mouse_position, mouse_down)
}

/// The horizontal offset of answer box `i` when `total` answers are laid out
/// twenty columns apart around the centre.
pub open spec fn answer_x_offset(total: int, i: int) -> int {
    -10 * (total - 1) + 20 * i
}

/// Which wrong answer fills box `i`: the wrong answers are dealt out in order
/// around the correct answer's position.
pub open spec fn wrong_index(pos: int, i: int) -> int {
    if i < pos {
        i
    } else {
        i - 1
    }
}

/// Whether the mouse is over the correct answer's box.
pub open spec fn correct_answer_hovered(
    width: int,
    height: int,
    correct: &str,
    total: int,
    pos: int,
    mouse: (u16, u16),
) -> bool {
    let qlen = correct.spec_bytes().len() as int;
    tb_hovered(mouse, tb_x_origin(width, qlen, answer_x_offset(total, pos)), tb_y_origin(height, 0), qlen)
}

/// Whether the mouse is over wrong-answer box `k`.
pub open spec fn wrong_answer_hovered(
    width: int,
    height: int,
    wrongs: Seq<&str>,
    total: int,
    pos: int,
    k: int,
    mouse: (u16, u16),
) -> bool {
    let qlen = wrongs[wrong_index(pos, k)].spec_bytes().len() as int;
    tb_hovered(mouse, tb_x_origin(width, qlen, answer_x_offset(total, k)), tb_y_origin(height, 0), qlen)
}

/// Whether the mouse is over any wrong answer's box.
pub open spec fn any_wrong_hovered(
    width: int,
    height: int,
    wrongs: Seq<&str>,
    pos: int,
    mouse: (u16, u16),
) -> bool {
    exists|k: int|
        #![trigger wrong_answer_hovered(width, height, wrongs, wrongs.len() as int + 1, pos, k, mouse)]
        0 <= k < wrongs.len() + 1 && k != pos && wrong_answer_hovered(
            width,
            height,
            wrongs,
            wrongs.len() as int + 1,
            pos,
            k,
            mouse,
        )
}

/// The quiz decision: a click counts as the correct answer exactly when the
/// mouse is over the correct box and over no wrong box.
pub open spec fn quiz_answered_correctly(
    width: int,
    height: int,
    correct: &str,
    wrongs: Seq<&str>,
    pos: int,
    mouse: (u16, u16),
    mouse_down: bool,
) -> bool {
    &&& mouse_down
    &&& correct_answer_hovered(width, height, correct, wrongs.len() as int + 1, pos, mouse)
    &&& !any_wrong_hovered(width, height, wrongs, pos, mouse)
}

/// The screen after the first `n` answer boxes are painted, in order.
pub open spec fn answers_model(
    v: ScreenView,
    width: int,
    height: int,
    correct: &str,
    wrongs: Seq<&str>,
    pos: int,
    mouse: (u16, u16),
    mouse_down: bool,
    n: int,
) -> ScreenView
    decreases n,
{
    if n <= 0 {
        v
    } else {
        let prevv = answers_model(v, width, height, correct, wrongs, pos, mouse, mouse_down, n - 1);
        let i = n - 1;
        let total = wrongs.len() + 1;
        let text = if i == pos {
            correct
        } else {
            wrongs[wrong_index(pos, i)]
        };
        text_box_model(
            prevv,
            width,
            height,
            text@,
            text.spec_bytes().len() as int,
            answer_x_offset(total as int, i),
            0,
            mouse,
            mouse_down,
        )
    }
}

/// What `draw_question` paints: the question five rows above centre, the
/// answer boxes across the centre, and — on a click — the verdict box five
/// rows below centre.
pub open spec fn question_model(
    v: ScreenView,
    width: int,
    height: int,
    question: &str,
    correct: &str,
    wrongs: Seq<&str>,
    pos: int,
    mouse: (u16, u16),
    mouse_down: bool,
) -> ScreenView {
    let after_q = text_box_model(
        v,
        width,
        height,
        question@,
        question.spec_bytes().len() as int,
        0,
        -5,
        (0u16, 0u16),
        false,
    );
    let after_answers = answers_model(
        after_q,
        width,
        height,
        correct,
        wrongs,
        pos,
        mouse,
        mouse_down,
        wrongs.len() as int + 1,
    );
    if quiz_answered_correctly(width, height, correct, wrongs, pos, mouse, mouse_down) {
        text_box_model(
            after_answers,
            width,
            height,
            "Correct!"@,
            "Correct!".spec_bytes().len() as int,
            0,
            5,
            (0u16, 0u16),
            false,
        )
    } else if mouse_down && any_wrong_hovered(width, height, wrongs, pos, mouse) {
        text_box_model(
            after_answers,
            width,
            height,
            "Wrong!"@,
            "Wrong!".spec_bytes().len() as int,
            0,
            5,
            (0u16, 0u16),
            false,
        )
    } else {
        after_answers
    }
}

/// Draws the quiz panel — the question, one box per answer in a random-looking
/// but caller-chosen arrangement, and the verdict on a click — and reports
/// whether this click selected the correct answer and no wrong one.
#[verifier::rlimit(100)]
pub fn draw_question(
    screen: &mut Screen,
    mouse_position: (u16, u16),
    mouse_down: bool,
    question: &str,
    correct_answer: &str,
    wrong_answers: &[&str],
    correct_answer_position: usize,
) -> (correct: bool)
    requires
        old(screen)@.wf(),
        correct_answer_position < wrong_answers@.len() + 1,
        wrong_answers@.len() <= 50,
        question@.len() <= 1000,
        question.spec_bytes().len() <= 4000,
        correct_answer@.len() <= 1000,
        correct_answer.spec_bytes().len() <= 4000,
        forall|k: int|
            0 <= k < wrong_answers@.len() ==> wrong_answers@[k]@.len() <= 1000
                && (#[trigger] wrong_answers@[k]).spec_bytes().len() <= 4000,
    ensures
        correct == quiz_answered_correctly(
            old(screen)@.width as int,
            old(screen)@.height as int,
            correct_answer,
            wrong_answers@,
            correct_answer_position as int,
            mouse_position,
            mouse_down,
        ),
        final(screen)@ == question_model(
            old(screen)@,
            old(screen)@.width as int,
            old(screen)@.height as int,
            question,
            correct_answer,
            wrong_answers@,
            correct_answer_position as int,
            mouse_position,
            mouse_down,
        ),
        final(screen)@.wf(),
{
    let width: u16 = screen.width();
    let height: u16 = screen.height();
    let ghost vw = width as int;
    let ghost vh = height as int;
    let ghost pos = correct_answer_position as int;
    let ghost wrongs = wrong_answers@;

    draw_text_box(screen, width, height, question, 0, -5, (0, 0), false);
    let ghost after_q = screen@;

    let total: usize = wrong_answers.len() + 1;
    let mut correct_hovered: bool = false;
    let mut any_wrong: bool = false;
    let mut wrong_iter: usize = 0;
    let mut i: usize = 0;
    while i < total
        invariant
            i <= total,
            total == wrongs.len() + 1,
            wrong_iter == (if i <= correct_answer_position {
                i as int
            } else {
                i - 1
            }),
            screen@ == answers_model(after_q, vw, vh, correct_answer, wrongs, pos, mouse_position, mouse_down, i as int),
            screen@.wf(),
            correct_hovered == (i > correct_answer_position && correct_answer_hovered(
                vw,
                vh,
                correct_answer,
                total as int,
                pos,
                mouse_position,
            )),
            any_wrong == (exists|k: int|
                0 <= k < i && k != pos && wrong_answer_hovered(
                    vw,
                    vh,
                    wrongs,
                    total as int,
                    pos,
                    k,
                    mouse_position,
                )),
        decreases total - i,
    {
        let x_off_wide: i32 = -10 * (total as i32 - 1) + 20 * (i as i32);
        let x_off: i16 = x_off_wide as i16;
        proof {
            assert(x_off as int == answer_x_offset(total as int, i as int));
        }
        let ghost any_before = any_wrong;
        if i == correct_answer_position {
            correct_hovered = draw_text_box(
                screen,
                width,
                height,
                correct_answer,
                x_off,
                0,
                mouse_position,
                mouse_down,
            );
            proof {
                assert(correct_hovered == correct_answer_hovered(
                    vw,
                    vh,
                    correct_answer,
                    total as int,
                    pos,
                    mouse_position,
                ));
                assert forall|k: int|
                    0 <= k < i + 1 && k != pos && wrong_answer_hovered(
                        vw,
                        vh,
                        wrongs,
                        total as int,
                        pos,
                        k,
                        mouse_position,
                    ) implies 0 <= k < i by {
                    assert(k != i);
                }
            }
        } else {
            let entry: &str = wrong_answers[wrong_iter];
            let h = draw_text_box(screen, width, height, entry, x_off, 0, mouse_position, mouse_down);
            proof {
                assert(entry == wrongs[wrong_index(pos, i as int)]);
                assert(h == wrong_answer_hovered(
                    vw,
                    vh,
                    wrongs,
                    total as int,
                    pos,
                    i as int,
                    mouse_position,
                ));
            }
            if h {
                any_wrong = true;
            }
            proof {
                if !any_wrong {
                    assert forall|k: int|
                        0 <= k < i + 1 && k != pos implies !wrong_answer_hovered(
                            vw,
                            vh,
                            wrongs,
                            total as int,
                            pos,
                            k,
                            mouse_position,
                        ) by {
                        if k == i {
                            assert(!h);
                        }
                    }
                }
            }
            wrong_iter = wrong_iter + 1;
        }
        i = i + 1;
    }

    let hit: bool = mouse_down && correct_hovered && !any_wrong;
    proof {
        reveal_strlit("Correct!");
        reveal_strlit("Wrong!");
        assert(vstd::string::is_ascii("Correct!"));
        assert(vstd::string::is_ascii("Wrong!"));
        vstd::string::is_ascii_spec_bytes("Correct!");
        vstd::string::is_ascii_spec_bytes("Wrong!");
        assert("Correct!".spec_bytes().len() == 8);
        assert("Wrong!".spec_bytes().len() == 6);
    }
    if mouse_down {
        if correct_hovered && !any_wrong {
            draw_text_box(screen, width, height, "Correct!", 0, 5, (0, 0), false);
        } else if any_wrong {
            draw_text_box(screen, width, height, "Wrong!", 0, 5, (0, 0), false);
        }
    }
    hit
}

/// The digit rune for one decimal digit.
pub open spec fn digit_char(d: int) -> char {
    if d == 0 {
        '0'
    } else if d == 1 {
        '1'
    } else if d == 2 {
        '2'
    } else if d == 3 {
        '3'
    } else if d == 4 {
        '4'
    } else if d == 5 {
        '5'
    } else if d == 6 {
        '6'
    } else if d == 7 {
        '7'
    } else if d == 8 {
        '8'
    } else {
        '9'
    }
}

/// The two-digit label of calendar day `i + 1`.
pub open spec fn day_chars(i: int) -> Seq<char> {
    seq![digit_char((i + 1) / 10), digit_char((i + 1) % 10)]
}

/// The horizontal offset of calendar box `i` in the six-column layout.
pub open spec fn calendar_x_offset(i: int) -> int {
    -24 + (i % 6) * 10
}

/// The vertical offset of calendar box `i`.
pub open spec fn calendar_y_offset(i: int) -> int {
    -6 + (i / 6) * 4
}

/// Whether the mouse is over calendar box `i`.
pub open spec fn day_hovered(width: int, height: int, i: int, mouse: (u16, u16)) -> bool {
    tb_hovered(
        mouse,
        tb_x_origin(width, 2, calendar_x_offset(i)),
        tb_y_origin(height, calendar_y_offset(i)),
        2,
    )
}

/// The screen after the first `n` calendar boxes are painted, in order.
pub open spec fn calendar_model(
    v: ScreenView,
    width: int,
    height: int,
    mouse: (u16, u16),
    mouse_down: bool,
    n: int,
) -> ScreenView
    decreases n,
{
    if n <= 0 {
        v
    } else {
        let prevv = calendar_model(v, width, height, mouse, mouse_down, n - 1);
        let i = n - 1;
        text_box_model(
            prevv,
            width,
            height,
            day_chars(i),
            2,
            calendar_x_offset(i),
            calendar_y_offset(i),
            mouse,
            mouse_down,
        )
    }
}

/// The digit rune of `d`, executably.
fn digit_rune(d: usize) -> (r: char)
    requires
        d <= 9,
    ensures
        r == digit_char(d as int),
{
    match d {
        0 => '0',
        1 => '1',
        2 => '2',
        3 => '3',
        4 => '4',
        5 => '5',
        6 => '6',
        7 => '7',
        8 => '8',
        _ => '9',
    }
}

/// Draws the twenty-four day boxes of the calendar in a six-column layout
/// and, on a click, reports the first hovered day, one-based.
pub fn draw_calendar(
    screen: &mut Screen,
    mouse_position: (u16, u16),
    mouse_down: bool,
) -> (day: Option<usize>)
    requires
        old(screen)@.wf(),
    ensures
        final(screen)@ == calendar_model(
            old(screen)@,
            old(screen)@.width as int,
            old(screen)@.height as int,
            mouse_position,
            mouse_down,
            24,
        ),
        final(screen)@.wf(),
        (day is Some ==> {
            &&& mouse_down
            &&& 1 <= day.unwrap() <= 24
            &&& day_hovered(
                old(screen)@.width as int,
                old(screen)@.height as int,
                day.unwrap() - 1,
                mouse_position,
            )
            &&& forall|k: int|
                0 <= k < day.unwrap() - 1 ==> !day_hovered(
                    old(screen)@.width as int,
                    old(screen)@.height as int,
                    k,
                    mouse_position,
                )
        }),
        (day is None ==> !mouse_down || forall|k: int|
            0 <= k < 24 ==> !day_hovered(
                old(screen)@.width as int,
                old(screen)@.height as int,
                k,
                mouse_position,
            )),
{
    let width: u16 = screen.width();
    let height: u16 = screen.height();
    let ghost vw = width as int;
    let ghost vh = height as int;
    let ghost start = screen@;

    let mut hovered_flags: Vec<bool> = Vec::new();
    let mut i: usize = 0;
    while i < 24
        invariant
            i <= 24,
            hovered_flags@.len() == i,
            forall|k: int|
                0 <= k < i ==> hovered_flags@[k] == day_hovered(vw, vh, k, mouse_position),
            screen@ == calendar_model(start, vw, vh, mouse_position, mouse_down, i as int),
            screen@.wf(),
        decreases 24 - i,
    {
        let day_no: usize = i + 1;
        let mut label: Vec<char> = Vec::new();
        label.push(digit_rune(day_no / 10));
        label.push(digit_rune(day_no % 10));
        proof {
            assert(label@ =~= day_chars(i as int));
        }
        let x_off_wide: i32 = -24 + ((i as i32) % 6) * 10;
        let y_off_wide: i32 = -6 + ((i as i32) / 6) * 4;
        let x_off: i16 = x_off_wide as i16;
        let y_off: i16 = y_off_wide as i16;
        proof {
            assert(x_off as int == calendar_x_offset(i as int));
            assert(y_off as int == calendar_y_offset(i as int));
        }
        let hovered = text_box_runes(
            screen,
            width,
            height,
            &label,
            2,
            x_off,
            y_off,
            mouse_position,
            mouse_down,
        );
        hovered_flags.push(hovered);
        i = i + 1;
    }

    if mouse_down {
        let mut k: usize = 0;
        while k < 24
            invariant
                k <= 24,
                hovered_flags@.len() == 24,
                forall|m: int|
                    0 <= m < 24 ==> hovered_flags@[m] == day_hovered(vw, vh, m, mouse_position),
                forall|m: int| 0 <= m < k ==> !day_hovered(vw, vh, m, mouse_position),
            decreases 24 - k,
        {
            if hovered_flags[k] {
                return Some(k + 1);
            }
            k = k + 1;
        }
    }
    None
}

/// The line a character of a piece of art falls on: the newlines before it.
pub open spec fn art_row(s: Seq<char>, i: int) -> int
    decreases i,
{
    if i <= 0 {
        0
    } else {
        art_row(s, i - 1) + (if s[i - 1] == '\n' {
            1int
        } else {
            0int
        })
    }
}

/// The column a character of a piece of art falls on within its line.
pub open spec fn art_col(s: Seq<char>, i: int) -> int
    decreases i,
{
    if i <= 0 {
        0
    } else if s[i - 1] == '\n' {
        0
    } else {
        art_col(s, i - 1) + 1
    }
}

/// What `draw_ascii` paints: the first `n` characters of the art, stamped at
/// their line/column offsets from `(x, y)`; spaces and line breaks paint
/// nothing, so the art is transparent where it is blank.
pub open spec fn ascii_model(v: ScreenView, s: Seq<char>, x: int, y: int, n: int) -> ScreenView
    decreases n,
{
    if n <= 0 {
        v
    } else {
        let prevv = ascii_model(v, s, x, y, n - 1);
        let i = n - 1;
        if s[i] == '\n' || s[i] == '\r' || s[i] == ' ' {
            prevv
        } else {
            set_cell_model(
                prevv,
                x + art_col(s, i),
                y + art_row(s, i),
                stroke_rune(s, i),
                Color::White,
            )
        }
    }
}

/// Blits a multi-line piece of ASCII art with its top-left corner at
/// `(x, y)`; blank characters are transparent.
pub fn draw_ascii(screen: &mut Screen, ascii: &str, x: u16, y: u16)
    requires
        old(screen)@.wf(),
        ascii@.len() <= 100000,
    ensures
        final(screen)@ == ascii_model(old(screen)@, ascii@, x as int, y as int, ascii@.len() as int),
        final(screen)@.wf(),
{
    let chars = chars_of(ascii);
    let n: usize = chars.len();
    let ghost s = ascii@;
    let ghost start = screen@;
    let mut col: i32 = 0;
    let mut row: i32 = 0;
    let mut i: usize = 0;
    while i < n
        invariant
            i <= n,
            n == s.len(),
            chars@ == s,
            col == art_col(s, i as int),
            row == art_row(s, i as int),
            0 <= col <= i,
            0 <= row <= i,
            screen@ == ascii_model(start, s, x as int, y as int, i as int),
            screen@.wf(),
        decreases n - i,
    {
        let c = chars[i];
        if c != '\n' && c != '\r' && c != ' ' {
            proof {
                assert(c == stroke_rune(s, i as int));
            }
            set_cell_at(screen, x as i32 + col, y as i32 + row, c, Color::White);
        }
        if c == '\n' {
            row = row + 1;
            col = 0;
        } else {
            col = col + 1;
        }
        i = i + 1;
    }
}

/// Fills the bottom row of the logical grid with ground blocks.
pub fn draw_ground(screen: &mut Screen)
    requires
        old(screen)@.wf(),
    ensures
        final(screen)@ == row_paint(
            old(screen)@,
            0,
            old(screen)@.height - 1,
            Seq::new(old(screen)@.width as nat, |j: int| '█'),
            Color::White,
        ),
        final(screen)@.wf(),
{
    let w: u16 = screen.width();
    let h: u16 = screen.height();
    let run = repeated_run('█', w as usize);
    paint_row(screen, 0, h as i32 - 1, &run, Color::White);
}

} // verus!
