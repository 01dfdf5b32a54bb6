use vstd::prelude::*;
use crate::fixed_vec::FixedVec;
use vstd::string::StringSliceAdditionalSpecFns;

verus! {

/// One call made on a character display.
#[derive(Clone, Copy, Debug, PartialEq, Eq)]
pub enum DisplayCall {
    SetCursor(u8, u8),
    /// `write_char(c)`, recorded by the character's code point `c as u32`.
    WriteChar(u32),
    Clear,
}

/// The calls made on a display, oldest first, each with whether it succeeded.
pub type DisplayCalls = Seq<(DisplayCall, bool)>;

/// A character display addressed by row and column. Each call is recorded in `sent`,
/// together with whether it returned `Ok`.
pub trait HardwareDisplay {
    type Error;

    /// The calls made on this display so far, oldest first, with their outcomes.
    spec fn sent(&self) -> DisplayCalls;

    fn set_cursor(&mut self, row: u8, col: u8) -> (r: Result<(), Self::Error>)
        ensures
            final(self).sent() == old(self).sent().push((DisplayCall::SetCursor(row, col), r is Ok)),
    ;

    fn write_char(&mut self, c: char) -> (r: Result<(), Self::Error>)
        ensures
            final(self).sent() == old(self).sent().push((DisplayCall::WriteChar(c as u32), r is Ok)),
    ;

    fn clear(&mut self) -> (r: Result<(), Self::Error>)
        ensures
            final(self).sent() == old(self).sent().push((DisplayCall::Clear, r is Ok)),
    ;
}

/// One call that `DisplayManager::draw` makes on the display.
#[derive(Clone, Copy, Debug, PartialEq, Eq)]
pub enum DisplayOp {
    /// `set_cursor(row, col)`.
    SetCursor { row: u8, col: u8 },
    /// `write_char(byte)`, which lands on frame-buffer cell `index`.
    WriteChar { index: usize, byte: u8 },
}

/// The frame buffers hold this many cells.
pub const FRAME_CELLS: usize = 80;

/// The most rows that the manager tracks.
pub const MAX_ROWS: usize = 4;

/// The space byte that pads the display.
pub const BLANK: u8 = 32;

/// The display call that an op makes.
pub open spec fn call_of(op: DisplayOp) -> DisplayCall {
    match op {
        DisplayOp::SetCursor { row, col } => DisplayCall::SetCursor(row, col),
        DisplayOp::WriteChar { byte, .. } => DisplayCall::WriteChar(byte as u32),
    }
}

/// The display calls that `ops` make, in order, each succeeding.
pub open spec fn calls_of(ops: Seq<DisplayOp>) -> DisplayCalls {
    ops.map_values(|op: DisplayOp| (call_of(op), true))
}

/// The frame buffer after the writes of `ops` have reached the display, in order.
pub open spec fn apply_ops(frame: Seq<u8>, ops: Seq<DisplayOp>) -> Seq<u8>
    decreases ops.len(),
{
    if ops.len() == 0 {
        frame
    } else {
        let next = match ops[0] {
            DisplayOp::SetCursor { .. } => frame,
            DisplayOp::WriteChar { index, byte } => frame.update(index as int, byte),
        };
        apply_ops(next, ops.drop_first())
    }
}

/// The calls that bring row `row` of the display from `front` to `back`, starting at column
/// `col` with the display cursor on column `cursor`: a cursor move before each run of
/// changed cells, and one write per changed cell.
pub open spec fn row_ops(
    front: Seq<u8>,
    back: Seq<u8>,
    width: int,
    row: int,
    col: int,
    cursor: int,
) -> Seq<DisplayOp>
    decreases width - col,
{
    if col >= width {
        Seq::empty()
    } else {
        let idx = row * width + col;
        if front[idx] != back[idx] {
            let moves = if cursor != col {
                seq![DisplayOp::SetCursor { row: row as u8, col: col as u8 }]
            } else {
                Seq::empty()
            };
            moves + seq![DisplayOp::WriteChar { index: idx as usize, byte: back[idx] }]
                + row_ops(front, back, width, row, col + 1, col + 1)
        } else {
            row_ops(front, back, width, row, col + 1, cursor)
        }
    }
}

/// The calls that bring rows `0 .. rows` of the display from `front` to `back`, row by row;
/// each row starts with the cursor at the out-of-range column 255.
pub open spec fn frame_ops(front: Seq<u8>, back: Seq<u8>, width: int, rows: int) -> Seq<DisplayOp>
    decreases rows,
{
    if rows <= 0 {
        Seq::empty()
    } else {
        frame_ops(front, back, width, rows - 1) + row_ops(front, back, width, rows - 1, 0, 255)
    }
}

pub(crate) proof fn lemma_apply_ops_concat(frame: Seq<u8>, a: Seq<DisplayOp>, b: Seq<DisplayOp>)
    ensures
        apply_ops(frame, a + b) == apply_ops(apply_ops(frame, a), b),
    decreases a.len(),
{
    if a.len() == 0 {
        assert(a + b =~= b);
    } else {
        let next = match a[0] {
            DisplayOp::SetCursor { .. } => frame,
            DisplayOp::WriteChar { index, byte } => frame.update(index as int, byte),
        };
        assert((a + b).drop_first() =~= a.drop_first() + b);
        lemma_apply_ops_concat(next, a.drop_first(), b);
    }
}

proof fn lemma_apply_ops_take_push(frame: Seq<u8>, ops: Seq<DisplayOp>, k: int)
    requires
        0 <= k < ops.len(),
    ensures
        apply_ops(frame, ops.take(k + 1)) == apply_ops(apply_ops(frame, ops.take(k)), seq![ops[k]]),
{
    assert(ops.take(k + 1) =~= ops.take(k) + seq![ops[k]]);
    lemma_apply_ops_concat(frame, ops.take(k), seq![ops[k]]);
}

proof fn lemma_row_ops_effect(
    front: Seq<u8>,
    back: Seq<u8>,
    width: int,
    row: int,
    col: int,
    cursor: int,
    frame: Seq<u8>,
)
    requires
        0 <= col <= width,
        0 <= row,
        (row + 1) * width <= frame.len(),
        frame.len() <= usize::MAX,
        front.len() == frame.len(),
        back.len() == frame.len(),
    ensures
        apply_ops(frame, row_ops(front, back, width, row, col, cursor)).len() == frame.len(),
        forall|i: int|
            0 <= i < frame.len() ==> #[trigger] apply_ops(
                frame,
                row_ops(front, back, width, row, col, cursor),
            )[i] == if row * width + col <= i < row * width + width && front[i] != back[i] {
                back[i]
            } else {
                frame[i]
            },
    decreases width - col,
{
    if col < width {
        let idx = row * width + col;
        assert(row * width + width == (row + 1) * width) by (nonlinear_arith);
        assert(0 <= row * width) by (nonlinear_arith)
            requires
                0 <= row,
                0 <= width,
        ;
        if front[idx] != back[idx] {
            let moves = if cursor != col {
                seq![DisplayOp::SetCursor { row: row as u8, col: col as u8 }]
            } else {
                Seq::<DisplayOp>::empty()
            };
            let w = seq![DisplayOp::WriteChar { index: idx as usize, byte: back[idx] }];
            let rest = row_ops(front, back, width, row, col + 1, col + 1);
            lemma_apply_ops_concat(frame, moves + w, rest);
            lemma_apply_ops_concat(frame, moves, w);
            assert(apply_ops(frame, moves) == frame) by {
                if cursor != col {
                    assert(moves.drop_first() =~= Seq::<DisplayOp>::empty());
                    assert(apply_ops(frame, moves.drop_first()) == frame);
                }
            }
            assert(w.drop_first() =~= Seq::<DisplayOp>::empty());
            let f2 = frame.update(idx, back[idx]);
            assert((idx as usize) as int == idx);
            assert(apply_ops(f2, w.drop_first()) == f2);
            assert(apply_ops(frame, w) == f2);
            assert(apply_ops(frame, moves + w) == f2);
            lemma_row_ops_effect(front, back, width, row, col + 1, col + 1, f2);
        } else {
            lemma_row_ops_effect(front, back, width, row, col + 1, cursor, frame);
        }
    }
}

pub(crate) proof fn lemma_frame_ops_effect(
    front: Seq<u8>,
    back: Seq<u8>,
    width: int,
    rows: int,
    frame: Seq<u8>,
)
    requires
        0 <= rows,
        0 <= width,
        rows * width <= frame.len(),
        frame.len() <= usize::MAX,
        front.len() == frame.len(),
        back.len() == frame.len(),
    ensures
        apply_ops(frame, frame_ops(front, back, width, rows)).len() == frame.len(),
        forall|i: int|
            0 <= i < frame.len() ==> #[trigger] apply_ops(
                frame,
                frame_ops(front, back, width, rows),
            )[i] == if i < rows * width && front[i] != back[i] {
                back[i]
            } else {
                frame[i]
            },
    decreases rows,
{
    if rows > 0 {
        assert((rows - 1) * width + width == rows * width) by (nonlinear_arith);
        assert(0 <= (rows - 1) * width) by (nonlinear_arith)
            requires
                0 <= rows - 1,
                0 <= width,
        ;
        lemma_frame_ops_effect(front, back, width, rows - 1, frame);
        let f1 = apply_ops(frame, frame_ops(front, back, width, rows - 1));
        lemma_apply_ops_concat(
            frame,
            frame_ops(front, back, width, rows - 1),
            row_ops(front, back, width, rows - 1, 0, 255),
        );
        lemma_row_ops_effect(front, back, width, rows - 1, 0, 255, f1);
    } else {
        assert(rows * width == 0) by (nonlinear_arith)
            requires
                rows == 0,
        ;
    }
}

/// Once the calls of `frame_ops(front, back, ..)` have all reached a display showing
/// `front`, it shows `back` on every cell of the first `rows` rows and `front` elsewhere.
pub proof fn lemma_frame_ops_reach_back(front: Seq<u8>, back: Seq<u8>, width: int, rows: int)
    requires
        0 <= rows,
        0 <= width,
        rows * width <= front.len(),
        front.len() <= usize::MAX,
        back.len() == front.len(),
    ensures
        apply_ops(front, frame_ops(front, back, width, rows)) == Seq::new(
            front.len(),
            |i: int|
                if i < rows * width {
                    back[i]
                } else {
                    front[i]
                },
        ),
{
    lemma_frame_ops_effect(front, back, width, rows, front);
    assert(apply_ops(front, frame_ops(front, back, width, rows)) =~= Seq::new(
        front.len(),
        |i: int|
            if i < rows * width {
                back[i]
            } else {
                front[i]
            },
    ));
}


/// The most calls of one redraw: a cursor move and a write for every cell.
pub const MAX_FRAME_OPS: usize = 160;

/// The calls of one redraw.
pub type FrameOps = FixedVec<DisplayOp, 160>;

/// Index of the first out-of-range cursor column, where each row of calls starts.
const NO_CURSOR: usize = 255;

/// The calls that bring the first `height` rows of a `width`-column display from `front`
/// to `back`.
pub fn redraw_ops(front: &[u8; 80], back: &[u8; 80], width: u8, height: u8) -> (ops: FrameOps)
    requires
        width as int * height as int <= FRAME_CELLS,
    ensures
        ops@ == frame_ops(front@, back@, width as int, height as int),
        forall|k: int|
            0 <= k < ops@.len() ==> (#[trigger] ops@[k] matches DisplayOp::WriteChar { index, .. }
                ==> index < width as int * height as int),
{
    let mut ops: FrameOps = FixedVec::new(DisplayOp::SetCursor { row: 0, col: 0 });
    let w = width as usize;
    let h = height as usize;
    let mut row: usize = 0;
    while row < h
        invariant
            w == width,
            h == height,
            w * h <= FRAME_CELLS,
            row <= h,
            ops@.len() <= 2 * (row * w),
            ops@ == frame_ops(front@, back@, w as int, row as int),
            forall|k: int|
                0 <= k < ops@.len() ==> (#[trigger] ops@[k] matches DisplayOp::WriteChar {
                    index,
                    ..
                } ==> index < row * w),
        decreases h - row,
    {
        let mut cursor_col: usize = NO_CURSOR;
        let mut col: usize = 0;
        proof {
            lemma_row_fits(row as int, w as int, h as int);
        }
        while col < w
            invariant
                w == width,
                h == height,
                w * h <= FRAME_CELLS,
                row < h,
                (row + 1) * w <= w * h,
                row * w + w == (row + 1) * w,
                0 <= row * w,
                col <= w,
                ops@.len() <= 2 * (row * w + col),
                ops@ + row_ops(front@, back@, w as int, row as int, col as int, cursor_col as int)
                    == frame_ops(front@, back@, w as int, (row + 1) as int),
                forall|k: int|
                    0 <= k < ops@.len() ==> (#[trigger] ops@[k] matches DisplayOp::WriteChar {
                        index,
                        ..
                    } ==> index < (row + 1) * w),
            decreases w - col,
        {
            let fb_idx = row * w + col;
            let ghost before = ops@;
            assert(2 * (row * w + col) <= 2 * 79);
            if front[fb_idx] != back[fb_idx] {
                if cursor_col != col {
                    ops.push(DisplayOp::SetCursor { row: row as u8, col: col as u8 });
                }
                ops.push(DisplayOp::WriteChar { index: fb_idx, byte: back[fb_idx] });
                proof {
                    let moves = if cursor_col != col {
                        seq![DisplayOp::SetCursor { row: row as u8, col: col as u8 }]
                    } else {
                        Seq::empty()
                    };
                    assert(ops@ =~= before + moves + seq![
                        DisplayOp::WriteChar { index: fb_idx, byte: back@[fb_idx as int] },
                    ]);
                }
                cursor_col = col + 1;
            }
            col += 1;
        }
        proof {
            assert(ops@ + row_ops(front@, back@, w as int, row as int, col as int, cursor_col as int)
                =~= ops@);
        }
        row += 1;
    }
    assert(row * w == width as int * height as int) by (nonlinear_arith)
        requires
            row == height,
            w == width,
    ;
    ops
}

proof fn lemma_row_fits(row: int, w: int, h: int)
    requires
        0 <= row < h,
        0 <= w,
    ensures
        (row + 1) * w <= w * h,
        row * w + w == (row + 1) * w,
        0 <= row * w,
{
    assert((row + 1) * w <= w * h) by (nonlinear_arith)
        requires
            0 <= row < h,
            0 <= w,
    ;
    assert(row * w + w == (row + 1) * w) by (nonlinear_arith);
    assert(0 <= row * w) by (nonlinear_arith)
        requires
            0 <= row,
            0 <= w,
    ;
}


/// The djb2 hash of a line (`h = h * 33 + byte`, from 5381, wrapping at 2^32).
pub open spec fn line_hash_spec(line: Seq<u8>) -> u32
    decreases line.len(),
{
    if line.len() == 0 {
        5381
    } else {
        line_hash_spec(line.drop_last()).wrapping_mul(33).wrapping_add(line.last() as u32)
    }
}

/// The byte shown at column `col` of a `width`-column row that displays `line` at scroll
/// position `tick`: a line that fits is padded with blanks; a longer line scrolls through
/// the line followed by four blanks.
pub open spec fn shown_byte(line: Seq<u8>, tick: int, width: int, col: int) -> u8 {
    if line.len() > width {
        let char_idx = (tick + col) % (line.len() + 4) as int;
        if char_idx < line.len() {
            line[char_idx]
        } else {
            BLANK
        }
    } else if col < line.len() {
        line[col]
    } else {
        BLANK
    }
}

/// The abstract state of a `DisplayManager`.
#[verifier::ext_equal]
pub struct DisplayState {
    pub width: u8,
    pub height: u8,
    pub top: usize,
    pub row_hashes: Seq<u32>,
    pub row_ticks: Seq<usize>,
    pub front: Seq<u8>,
    pub back: Seq<u8>,
    pub needs_redraw: bool,
}

/// The bytes of each line.
pub open spec fn lines_view(lines: &[&str]) -> Seq<Seq<u8>> {
    Seq::new(lines@.len(), |i: int| lines@[i].spec_bytes())
}

/// The first line shown once the top line is clamped so that the window stays filled.
pub open spec fn clamped_top(v: DisplayState, n_lines: int) -> usize {
    let max_top = if n_lines > v.height { n_lines - v.height } else { 0 };
    if v.top <= max_top {
        v.top
    } else {
        max_top as usize
    }
}

/// Row `r` shows a line.
pub open spec fn row_has_line(v: DisplayState, lines: Seq<Seq<u8>>, r: int) -> bool {
    0 <= r < v.height && clamped_top(v, lines.len() as int) + r < lines.len()
}

/// The line shown on row `r`.
pub open spec fn row_line(v: DisplayState, lines: Seq<Seq<u8>>, r: int) -> Seq<u8> {
    lines[clamped_top(v, lines.len() as int) + r]
}

/// The hash stored for row `r` after a draw of `lines`.
pub open spec fn new_hash(v: DisplayState, lines: Seq<Seq<u8>>, r: int) -> u32 {
    if row_has_line(v, lines, r) {
        line_hash_spec(row_line(v, lines, r))
    } else {
        v.row_hashes[r]
    }
}

/// The scroll position of row `r` after a draw of `lines`: back to 0 when the row's
/// line changed.
pub open spec fn new_tick(v: DisplayState, lines: Seq<Seq<u8>>, r: int) -> usize {
    if row_has_line(v, lines, r) && line_hash_spec(row_line(v, lines, r)) != v.row_hashes[r] {
        0
    } else {
        v.row_ticks[r]
    }
}

/// The byte that a draw of `lines` puts on row `r`, column `c`.
pub open spec fn cell(v: DisplayState, lines: Seq<Seq<u8>>, r: int, c: int) -> u8 {
    if row_has_line(v, lines, r) {
        shown_byte(row_line(v, lines, r), new_tick(v, lines, r) as int, v.width as int, c)
    } else {
        BLANK
    }
}

/// `back` is the frame that a draw of `lines` composes from state `v`: the window of rows
/// on the first `height * width` cells, the other cells as they were.
pub open spec fn rendered(v: DisplayState, lines: Seq<Seq<u8>>, back: Seq<u8>) -> bool {
    &&& back.len() == FRAME_CELLS
    &&& forall|r: int, c: int|
        0 <= r < v.height && 0 <= c < v.width ==> back[r * v.width + c] == #[trigger] cell(
            v,
            lines,
            r,
            c,
        )
    &&& forall|i: int|
        v.height * v.width <= i < FRAME_CELLS ==> #[trigger] back[i] == v.back[i]
}

/// The front buffer from which a draw diffs: blank (all zero) when a full redraw is due.
pub open spec fn diff_base(v: DisplayState) -> Seq<u8> {
    if v.needs_redraw {
        Seq::new(FRAME_CELLS as nat, |i: int| 0u8)
    } else {
        v.front
    }
}

/// `w` is a state that a draw of `lines` from state `v` leaves behind, and `after` the calls
/// on a display that had received `before`; `ok` tells whether the draw succeeded.
/// The display gets the calls of `frame_ops(diff_base(v), w.back, ..)` in order: on success
/// all of them, each succeeding; on failure those up to a first failing one, after which
/// nothing is sent. The front buffer records the writes that succeeded.
pub open spec fn drawn(
    v: DisplayState,
    w: DisplayState,
    lines: Seq<Seq<u8>>,
    ok: bool,
    before: DisplayCalls,
    after: DisplayCalls,
) -> bool {
    let ops = frame_ops(diff_base(v), w.back, v.width as int, v.height as int);
    &&& w.width == v.width
    &&& w.height == v.height
    &&& w.top == clamped_top(v, lines.len() as int)
    &&& w.row_hashes == Seq::new(MAX_ROWS as nat, |r: int| new_hash(v, lines, r))
    &&& w.row_ticks == Seq::new(MAX_ROWS as nat, |r: int| new_tick(v, lines, r))
    &&& rendered(v, lines, w.back)
    &&& ok ==> w.front == apply_ops(diff_base(v), ops) && !w.needs_redraw && after == before
        + calls_of(ops)
    &&& !ok ==> w.needs_redraw == v.needs_redraw && exists|k: int|
        0 <= k < ops.len() && w.front == apply_ops(diff_base(v), #[trigger] ops.take(k)) && after
            == (before + calls_of(ops.take(k))).push((call_of(ops[k]), false))
}

/// A draw fails exactly when one of its calls failed: it keeps the calls made before it, on
/// success every call it made succeeded, and on failure it made at least one call, the last
/// one failed and every earlier one succeeded.
pub proof fn lemma_draw_fails_only_on_a_failed_call(
    v: DisplayState,
    w: DisplayState,
    lines: Seq<Seq<u8>>,
    ok: bool,
    before: DisplayCalls,
    after: DisplayCalls,
)
    requires
        drawn(v, w, lines, ok, before, after),
    ensures
        after.len() >= before.len(),
        after.take(before.len() as int) == before,
        ok <==> forall|i: int| before.len() <= i < after.len() ==> #[trigger] after[i].1,
        !ok ==> after.len() > before.len() && !after.last().1 && forall|i: int|
            before.len() <= i < after.len() - 1 ==> #[trigger] after[i].1,
{
    let ops = frame_ops(diff_base(v), w.back, v.width as int, v.height as int);
    if ok {
        assert(after.take(before.len() as int) =~= before);
        assert forall|i: int| before.len() <= i < after.len() implies #[trigger] after[i].1 by {
            assert(after[i] == calls_of(ops)[i - before.len()]);
        }
    } else {
        let k = choose|k: int|
            0 <= k < ops.len() && w.front == apply_ops(diff_base(v), #[trigger] ops.take(k))
                && after == (before + calls_of(ops.take(k))).push((call_of(ops[k]), false));
        assert(after.take(before.len() as int) =~= before);
        assert(after[after.len() - 1] == (call_of(ops[k]), false));
        assert(!after[after.len() - 1].1);
        assert forall|i: int| before.len() <= i < after.len() - 1 implies #[trigger] after[i].1 by {
            assert(after[i] == calls_of(ops.take(k))[i - before.len()]);
        }
    }
}

/// The conditions under which `draw` stays within its buffers and within `usize`.
pub open spec fn can_draw(v: DisplayState, lines: Seq<Seq<u8>>) -> bool {
    &&& forall|r: int| 0 <= r < v.height && #[trigger] row_has_line(v, lines, r) ==> r < MAX_ROWS
    &&& v.width * v.height <= FRAME_CELLS
    &&& lines.len() + MAX_ROWS <= usize::MAX
    &&& forall|i: int| 0 <= i < lines.len() ==> #[trigger] lines[i].len() + 4 <= usize::MAX
    &&& forall|r: int|
        0 <= r < v.height && row_has_line(v, lines, r) && row_line(v, lines, r).len() > v.width
            && line_hash_spec(row_line(v, lines, r)) == v.row_hashes[r] && v.width > 0
            ==> #[trigger] v.row_ticks[r] + v.width - 1 <= usize::MAX
}

/// The buffers of a manager's state have their fixed sizes.
pub open spec fn sizes_ok(v: DisplayState) -> bool {
    &&& v.front.len() == FRAME_CELLS
    &&& v.back.len() == FRAME_CELLS
    &&& v.row_hashes.len() == MAX_ROWS
    &&& v.row_ticks.len() == MAX_ROWS
}

/// Draws text lines on a character display, scrolling lines that are too long and sending
/// only the cells that changed since the last draw.
pub struct DisplayManager {
    width: u8,
    height: u8,
    top: usize,
    row_hashes: [u32; 4],
    row_ticks: [usize; 4],
    front_buffer: [u8; 80],
    back_buffer: [u8; 80],
    needs_redraw: bool,
}

impl View for DisplayManager {
    type V = DisplayState;

    closed spec fn view(&self) -> DisplayState {
        DisplayState {
            width: self.width,
            height: self.height,
            top: self.top,
            row_hashes: self.row_hashes@,
            row_ticks: self.row_ticks@,
            front: self.front_buffer@,
            back: self.back_buffer@,
            needs_redraw: self.needs_redraw,
        }
    }
}

/// The state of every manager has buffers of the fixed sizes.
pub proof fn lemma_sizes(m: DisplayManager)
    ensures
        sizes_ok(m@),
{
}

impl DisplayManager {
    /// A manager for a `width` x `height` display that has not been drawn on yet.
    pub fn new(width: u8, height: u8) -> (m: Self)
        ensures
            m@ == (DisplayState {
                width,
                height,
                top: 0,
                row_hashes: Seq::new(MAX_ROWS as nat, |i: int| 0u32),
                row_ticks: Seq::new(MAX_ROWS as nat, |i: int| 0usize),
                front: Seq::new(FRAME_CELLS as nat, |i: int| 0u8),
                back: Seq::new(FRAME_CELLS as nat, |i: int| BLANK),
                needs_redraw: true,
            }),
    {
        let m = Self {
            width,
            height,
            top: 0,
            row_hashes: [0; 4],
            row_ticks: [0; 4],
            front_buffer: [0; 80],
            back_buffer: [BLANK; 80],
            needs_redraw: true,
        };
        assert(m@.row_hashes =~= Seq::new(MAX_ROWS as nat, |i: int| 0u32));
        assert(m@.row_ticks =~= Seq::new(MAX_ROWS as nat, |i: int| 0usize));
        assert(m@.front =~= Seq::new(FRAME_CELLS as nat, |i: int| 0u8));
        assert(m@.back =~= Seq::new(FRAME_CELLS as nat, |i: int| BLANK));
        m
    }

    /// Scrolls the window so that line `top` comes first.
    pub fn set_top(&mut self, top: usize)
        ensures
            final(self)@ == (DisplayState { top, ..old(self)@ }),
    {
        self.top = top;
    }

    /// The first line of the window.
    pub fn get_top(&self) -> (top: usize)
        ensures
            top == self@.top,
    {
        self.top
    }

    /// Advances the scroll position of every row by one, wrapping.
    pub fn tick(&mut self)
        ensures
            final(self)@ == (DisplayState {
                row_ticks: Seq::new(
                    MAX_ROWS as nat,
                    |i: int| old(self)@.row_ticks[i].wrapping_add(1),
                ),
                ..old(self)@
            }),
    {
        let ghost before = self.row_ticks@;
        let ghost v = self@;
        let mut i: usize = 0;
        while i < 4
            invariant
                self@ == (DisplayState { row_ticks: self@.row_ticks, ..v }),
                0 <= i <= 4,
                self.row_ticks@.len() == 4,
                forall|j: int| 0 <= j < i ==> self.row_ticks@[j] == before[j].wrapping_add(1),
                forall|j: int| i <= j < 4 ==> self.row_ticks@[j] == before[j],
            decreases 4 - i,
        {
            self.row_ticks[i] = self.row_ticks[i].wrapping_add(1);
            i += 1;
        }
        assert(self.row_ticks@ =~= Seq::new(MAX_ROWS as nat, |i: int| before[i].wrapping_add(1)));
    }
}

/// The djb2 hash of `line`.
fn line_hash(line: &[u8]) -> (hash: u32)
    ensures
        hash == line_hash_spec(line@),
{
    let mut hash: u32 = 5381;
    let mut i: usize = 0;
    while i < line.len()
        invariant
            i <= line@.len(),
            hash == line_hash_spec(line@.take(i as int)),
        decreases line.len() - i,
    {
        assert(line@.take(i + 1).drop_last() =~= line@.take(i as int));
        hash = hash.wrapping_mul(33).wrapping_add(line[i] as u32);
        i += 1;
    }
    assert(line@.take(i as int) =~= line@);
    hash
}

proof fn lemma_earlier_row_cell(r1: int, r2: int, c: int, w: int)
    requires
        0 <= r1 < r2,
        0 <= c < w,
    ensures
        r1 * w + c < r2 * w,
        0 <= r1 * w,
{
    assert(r1 * w + w <= r2 * w) by (nonlinear_arith)
        requires
            0 <= r1 < r2,
            0 <= w,
    ;
    assert(0 <= r1 * w) by (nonlinear_arith)
        requires
            0 <= r1,
            0 <= w,
    ;
}

impl DisplayManager {
    /// Composes row `r` of the back buffer and updates its hash and scroll position.
    fn render_row(&mut self, r: usize, lines: &[&str], Ghost(v): Ghost<DisplayState>)
        requires
            can_draw(v, lines_view(lines)),
            r < v.height,
            old(self)@.width == v.width,
            old(self)@.height == v.height,
            old(self)@.top == clamped_top(v, lines@.len() as int),
            old(self)@.row_hashes.len() == MAX_ROWS,
            old(self)@.row_ticks.len() == MAX_ROWS,
            r < MAX_ROWS ==> old(self)@.row_hashes[r as int] == v.row_hashes[r as int],
            r < MAX_ROWS ==> old(self)@.row_ticks[r as int] == v.row_ticks[r as int],
        ensures
            final(self)@ == (DisplayState {
                row_hashes: if row_has_line(v, lines_view(lines), r as int) {
                    old(self)@.row_hashes.update(r as int, new_hash(v, lines_view(lines), r as int))
                } else {
                    old(self)@.row_hashes
                },
                row_ticks: if row_has_line(v, lines_view(lines), r as int) {
                    old(self)@.row_ticks.update(r as int, new_tick(v, lines_view(lines), r as int))
                } else {
                    old(self)@.row_ticks
                },
                back: final(self)@.back,
                ..old(self)@
            }),
            forall|c: int|
                0 <= c < v.width ==> final(self)@.back[r * v.width + c] == #[trigger] cell(
                    v,
                    lines_view(lines),
                    r as int,
                    c,
                ),
            forall|i: int|
                0 <= i < FRAME_CELLS && !(r * v.width <= i < r * v.width + v.width)
                    ==> #[trigger] final(self)@.back[i] == old(self)@.back[i],
    {
        let ghost lv = lines_view(lines);
        let ghost s0 = self@;
        let width = self.width as usize;
        proof {
            lemma_row_fits(r as int, width as int, v.height as int);
        }
        let line_idx = self.top + r;
        if line_idx < lines.len() {
            let line = lines[line_idx].as_bytes();
            assert(line@ == lv[line_idx as int]);
            assert(row_has_line(v, lv, r as int));
            assert(row_line(v, lv, r as int) == line@);
            assert(r < MAX_ROWS);
            let len = line.len();
            assert(lv[line_idx as int].len() + 4 <= usize::MAX);
            let hash = line_hash(line);
            if hash != self.row_hashes[r] {
                self.row_hashes[r] = hash;
                self.row_ticks[r] = 0;
            }
            let tick = self.row_ticks[r];
            assert(tick == new_tick(v, lv, r as int));
            let mut col: usize = 0;
            while col < width
                invariant
                    can_draw(v, lv),
                    lv == lines_view(lines),
                    r < v.height,
                    width == v.width,
                    (r + 1) * width <= width * v.height,
                    r * width + width == (r + 1) * width,
                    0 <= r * width,
                    row_has_line(v, lv, r as int),
                    row_line(v, lv, r as int) == line@,
                    len == line@.len(),
                    len + 4 <= usize::MAX,
                    tick == new_tick(v, lv, r as int),
                    hash == line_hash_spec(line@),
                    self@ == (DisplayState {
                        row_hashes: s0.row_hashes.update(r as int, new_hash(v, lv, r as int)),
                        row_ticks: s0.row_ticks.update(r as int, new_tick(v, lv, r as int)),
                        back: self@.back,
                        ..s0
                    }),
                    col <= width,
                    forall|c: int|
                        0 <= c < col ==> self@.back[r * width + c] == #[trigger] cell(
                            v,
                            lv,
                            r as int,
                            c,
                        ),
                    forall|i: int|
                        0 <= i < FRAME_CELLS && !(r * width <= i < r * width + col)
                            ==> #[trigger] self@.back[i] == s0.back[i],
                decreases width - col,
            {
                let c = if len > width {
                    assert(tick + col <= usize::MAX) by {
                        if hash == v.row_hashes[r as int] {
                            assert(v.row_ticks[r as int] + v.width - 1 <= usize::MAX);
                        }
                    }
                    let virt_len = len + 4;
                    let char_idx = (tick + col) % virt_len;
                    if char_idx < len {
                        line[char_idx]
                    } else {
                        BLANK
                    }
                } else {
                    if col < len {
                        line[col]
                    } else {
                        BLANK
                    }
                };
                assert(c == cell(v, lv, r as int, col as int));
                let fb_idx = r * width + col;
                self.back_buffer[fb_idx] = c;
                col += 1;
            }
            assert(self@.row_hashes =~= s0.row_hashes.update(r as int, new_hash(v, lv, r as int)));
        } else {
            assert(!row_has_line(v, lv, r as int));
            let mut col: usize = 0;
            while col < width
                invariant
                    r < v.height,
                    width == v.width,
                    (r + 1) * width <= width * v.height,
                    v.width * v.height <= FRAME_CELLS,
                    r * width + width == (r + 1) * width,
                    0 <= r * width,
                    !row_has_line(v, lv, r as int),
                    self@ == (DisplayState { back: self@.back, ..s0 }),
                    col <= width,
                    forall|c: int|
                        0 <= c < col ==> self@.back[r * width + c] == #[trigger] cell(
                            v,
                            lv,
                            r as int,
                            c,
                        ),
                    forall|i: int|
                        0 <= i < FRAME_CELLS && !(r * width <= i < r * width + col)
                            ==> #[trigger] self@.back[i] == s0.back[i],
                decreases width - col,
            {
                let fb_idx = r * width + col;
                self.back_buffer[fb_idx] = BLANK;
                assert(cell(v, lv, r as int, col as int) == BLANK);
                col += 1;
            }
        }
    }
}

impl DisplayManager {
    /// Whether `draw(lines)` stays within the buffers and within `usize` from this state.
    pub fn can_draw(&self, lines: &[&str]) -> (ok: bool)
        ensures
            ok == can_draw(self@, lines_view(lines)),
    {
        let ghost v = self@;
        let ghost lv = lines_view(lines);
        let height = self.height as usize;
        let width = self.width as usize;
        assert(width * height <= 65025) by (nonlinear_arith)
            requires
                width <= 255,
                height <= 255,
        ;
        if width * height > 80 || lines.len() > usize::MAX - 4 {
            return false;
        }
        let mut i: usize = 0;
        while i < lines.len()
            invariant
                i <= lines@.len(),
                lv == lines_view(lines),
                forall|j: int| 0 <= j < i ==> #[trigger] lv[j].len() + 4 <= usize::MAX,
            decreases lines.len() - i,
        {
            let line = lines[i].as_bytes();
            assert(line@ == lv[i as int]);
            if line.len() > usize::MAX - 4 {
                return false;
            }
            i += 1;
        }
        let max_top = lines.len().saturating_sub(height);
        let top = self.top.min(max_top);
        assert(top == clamped_top(v, lv.len() as int));
        let mut r: usize = 0;
        while r < height
            invariant
                r <= height,
                height == v.height,
                width == v.width,
                top == clamped_top(v, lv.len() as int),
                lv == lines_view(lines),
                self@ == v,
                lines@.len() + 4 <= usize::MAX,
                forall|k: int| 0 <= k < r && #[trigger] row_has_line(v, lv, k) ==> k < MAX_ROWS,
                forall|k: int|
                    0 <= k < r && row_has_line(v, lv, k) && row_line(v, lv, k).len() > v.width
                        && line_hash_spec(row_line(v, lv, k)) == v.row_hashes[k] && v.width > 0
                        ==> #[trigger] v.row_ticks[k] + v.width - 1 <= usize::MAX,
            decreases height - r,
        {
            let line_idx = top + r;
            if line_idx < lines.len() {
                assert(row_has_line(v, lv, r as int));
                if r >= 4 {
                    return false;
                }
                let line = lines[line_idx].as_bytes();
                assert(line@ == row_line(v, lv, r as int));
                if line.len() > width && width > 0 && line_hash(line) == self.row_hashes[r]
                    && self.row_ticks[r] > usize::MAX - (width - 1) {
                    assert(row_has_line(v, lv, r as int));
                    assert(!(v.row_ticks[r as int] + v.width - 1 <= usize::MAX));
                    return false;
                }
            }
            r += 1;
        }
        true
    }
}

impl DisplayManager {
    /// Draws `lines` into the window of `height` rows starting at the top line (clamped so
    /// that the window stays filled), then sends the display the cells that differ from what
    /// it shows, all of them after construction. Stops at the first failing display call.
    pub fn draw<D: HardwareDisplay>(&mut self, display: &mut D, lines: &[&str]) -> (res: Result<
        (),
        D::Error,
    >)
        requires
            can_draw(old(self)@, lines_view(lines)),
        ensures
            drawn(
                old(self)@,
                final(self)@,
                lines_view(lines),
                res is Ok,
                old(display).sent(),
                final(display).sent(),
            ),
            res is Ok ==> forall|i: int|
                0 <= i < old(self)@.height * old(self)@.width ==> #[trigger] final(self)@.front[i]
                    == final(self)@.back[i],
    {
        let ghost v = self@;
        let ghost lv = lines_view(lines);
        let height = self.height as usize;
        let width = self.width as usize;
        let max_top = lines.len().saturating_sub(height);
        self.top = self.top.min(max_top);
        assert(self.top == clamped_top(v, lv.len() as int));
        let mut row: usize = 0;
        while row < height
            invariant
                lv == lines_view(lines),
                can_draw(v, lv),
                height == v.height,
                width == v.width,
                row <= height,
                self@.width == v.width,
                self@.height == v.height,
                self@.front == v.front,
                self@.needs_redraw == v.needs_redraw,
                self@.top == clamped_top(v, lv.len() as int),
                self@.row_hashes == Seq::new(
                    MAX_ROWS as nat,
                    |j: int|
                        if j < row {
                            new_hash(v, lv, j)
                        } else {
                            v.row_hashes[j]
                        },
                ),
                self@.row_ticks == Seq::new(
                    MAX_ROWS as nat,
                    |j: int|
                        if j < row {
                            new_tick(v, lv, j)
                        } else {
                            v.row_ticks[j]
                        },
                ),
                forall|r: int, c: int|
                    0 <= r < row && 0 <= c < width ==> self@.back[r * width + c] == #[trigger] cell(
                        v,
                        lv,
                        r,
                        c,
                    ),
                forall|i: int| row * width <= i < FRAME_CELLS ==> #[trigger] self@.back[i] == v.back[i],
            decreases height - row,
        {
            let ghost before = self@;
            proof {
                lemma_row_fits(row as int, width as int, height as int);
            }
            self.render_row(row, lines, Ghost(v));
            proof {
                assert forall|r: int, c: int|
                    0 <= r < row + 1 && 0 <= c < width implies self@.back[r * width + c]
                    == #[trigger] cell(v, lv, r, c) by {
                    if r < row {
                        lemma_earlier_row_cell(r, row as int, c, width as int);
                        assert(before.back[r * width + c] == cell(v, lv, r, c));
                    }
                }
                assert forall|i: int| (row + 1) * width <= i < FRAME_CELLS implies #[trigger] self@.back[i]
                    == v.back[i] by {
                    assert(before.back[i] == v.back[i]);
                }
            }
            row += 1;
        }
        proof {
            assert(self@.row_hashes =~= Seq::new(MAX_ROWS as nat, |r: int| new_hash(v, lv, r)));
            assert(self@.row_ticks =~= Seq::new(MAX_ROWS as nat, |r: int| new_tick(v, lv, r)));
            assert forall|i: int| v.height * v.width <= i < FRAME_CELLS implies #[trigger] self@.back[i]
                == v.back[i] by {
                assert(row * width == v.height * v.width) by (nonlinear_arith)
                    requires
                        row == v.height,
                        width == v.width,
                ;
            }
            assert(rendered(v, lv, self@.back));
        }
        let ghost pre_fill = self@;
        if self.needs_redraw {
            let mut i: usize = 0;
            while i < 80
                invariant
                    i <= 80,
                    self@.front.len() == FRAME_CELLS,
                    forall|j: int| 0 <= j < i ==> self@.front[j] == 0u8,
                    self@ == (DisplayState { front: self@.front, ..pre_fill }),
                decreases 80 - i,
            {
                self.front_buffer[i] = 0;
                i += 1;
            }
        }
        let ghost after_render = self@;
        assert(self@.front =~= diff_base(v)) by {
            if !v.needs_redraw {
                assert(self@.front == v.front);
            }
        }
        let ops = redraw_ops(&self.front_buffer, &self.back_buffer, self.width, self.height);
        let ghost base = self@.front;
        proof {
            assert(width * height == height * width) by (nonlinear_arith);
        }
        let ghost sent0 = display.sent();
        let mut k: usize = 0;
        let mut failure: Option<D::Error> = None;
        while k < ops.len() && failure.is_none()
            invariant
                lv == lines_view(lines),
                base == diff_base(v),
                after_render.width == v.width,
                after_render.height == v.height,
                width == v.width,
                height == v.height,
                after_render.top == clamped_top(v, lv.len() as int),
                after_render.row_hashes == Seq::new(MAX_ROWS as nat, |r: int| new_hash(v, lv, r)),
                after_render.row_ticks == Seq::new(MAX_ROWS as nat, |r: int| new_tick(v, lv, r)),
                rendered(v, lv, after_render.back),
                after_render.needs_redraw == v.needs_redraw,
                k <= ops@.len(),
                failure is Some ==> k < ops@.len(),
                failure is Some ==> display.sent() == (sent0 + calls_of(ops@.take(k as int))).push(
                    (call_of(ops@[k as int]), false),
                ),
                failure is None ==> display.sent() == sent0 + calls_of(ops@.take(k as int)),
                ops@ == frame_ops(base, after_render.back, width as int, height as int),
                forall|j: int|
                    0 <= j < ops@.len() ==> (#[trigger] ops@[j] matches DisplayOp::WriteChar {
                        index,
                        ..
                    } ==> index < width * height),
                width * height <= FRAME_CELLS,
                self@ == (DisplayState { front: self@.front, ..after_render }),
                self@.front == apply_ops(base, ops@.take(k as int)),
            decreases ops@.len() - k + if failure is Some { 0int } else { 1int },
        {
            proof {
                lemma_apply_ops_take_push(base, ops@, k as int);
            }
            let ghost f = self@.front;
            assert(calls_of(ops@.take(k + 1)) =~= calls_of(ops@.take(k as int)).push(
                (call_of(ops@[k as int]), true),
            ));
            assert(sent0 + calls_of(ops@.take(k + 1)) =~= (sent0 + calls_of(
                ops@.take(k as int),
            )).push((call_of(ops@[k as int]), true)));
            match ops.get(k) {
                DisplayOp::SetCursor { row, col } => {
                    match display.set_cursor(row, col) {
                        Err(e) => {
                            failure = Some(e);
                        },
                        Ok(_) => {
                            assert(seq![ops@[k as int]].drop_first() =~= Seq::<DisplayOp>::empty());
                            assert(apply_ops(f, seq![ops@[k as int]]) == apply_ops(
                                f,
                                Seq::<DisplayOp>::empty(),
                            ));
                            k += 1;
                        },
                    }
                },
                DisplayOp::WriteChar { index, byte } => {
                    match display.write_char(byte as char) {
                        Err(e) => {
                            failure = Some(e);
                        },
                        Ok(_) => {
                            assert(index < width * height);
                            self.front_buffer[index] = byte;
                            assert(seq![ops@[k as int]].drop_first() =~= Seq::<DisplayOp>::empty());
                            assert(apply_ops(f, seq![ops@[k as int]]) == apply_ops(
                                f.update(index as int, byte),
                                Seq::<DisplayOp>::empty(),
                            ));
                            k += 1;
                        },
                    }
                },
            }
        }
        if let Some(e) = failure {
            let ghost opsv = frame_ops(diff_base(v), self@.back, v.width as int, v.height as int);
            assert(opsv == ops@);
            assert(0 <= k < opsv.len());
            assert(self@.front == apply_ops(diff_base(v), opsv.take(k as int)));
            return Err(e);
        }
        self.needs_redraw = false;
        proof {
            assert(ops@.take(k as int) =~= ops@);
            lemma_frame_ops_reach_back(base, after_render.back, width as int, height as int);
            assert(width * height == height * width) by (nonlinear_arith);
        }
        Ok(())
    }
}

proof fn lemma_row_ops_agreeing(
    front: Seq<u8>,
    back: Seq<u8>,
    width: int,
    row: int,
    col: int,
    cursor: int,
)
    requires
        forall|c: int| col <= c < width ==> #[trigger] front[row * width + c] == back[row * width + c],
    ensures
        row_ops(front, back, width, row, col, cursor) == Seq::<DisplayOp>::empty(),
    decreases width - col,
{
    if col < width {
        lemma_row_ops_agreeing(front, back, width, row, col + 1, cursor);
    }
}

/// Frames that agree on every cell of the first `rows` rows need no calls.
pub proof fn lemma_agreeing_frames_need_no_ops(front: Seq<u8>, back: Seq<u8>, width: int, rows: int)
    requires
        forall|r: int, c: int|
            0 <= r < rows && 0 <= c < width ==> #[trigger] front[r * width + c] == back[r * width
                + c],
    ensures
        frame_ops(front, back, width, rows) == Seq::<DisplayOp>::empty(),
    decreases rows,
{
    if rows > 0 {
        assert forall|c: int| 0 <= c < width implies #[trigger] front[(rows - 1) * width + c]
            == back[(rows - 1) * width + c] by {
            assert(front[(rows - 1) * width + c] == back[(rows - 1) * width + c]);
        }
        lemma_row_ops_agreeing(front, back, width, rows - 1, 0, 255);
        lemma_agreeing_frames_need_no_ops(front, back, width, rows - 1);
        assert(Seq::<DisplayOp>::empty() + Seq::<DisplayOp>::empty() =~= Seq::<DisplayOp>::empty());
    }
}

/// Once a draw of `lines` has succeeded, drawing the same lines again sends the display
/// nothing: straight away (`w1 == w`), or after ticks (`w1` differs from `w` only in the
/// scroll positions) when every shown line fits its row.
pub proof fn lemma_redraw_sends_nothing(
    v: DisplayState,
    w: DisplayState,
    w1: DisplayState,
    w2: DisplayState,
    lines: Seq<Seq<u8>>,
    ok: bool,
    s0: DisplayCalls,
    s1: DisplayCalls,
    s2: DisplayCalls,
)
    requires
        sizes_ok(v),
        can_draw(v, lines),
        drawn(v, w, lines, true, s0, s1),
        w1 == (DisplayState { row_ticks: w1.row_ticks, ..w }),
        w1.row_ticks == w.row_ticks || forall|r: int|
            0 <= r < v.height && row_has_line(v, lines, r) ==> #[trigger] row_line(
                v,
                lines,
                r,
            ).len() <= v.width,
        drawn(w1, w2, lines, ok, s1, s2),
    ensures
        frame_ops(diff_base(w1), w2.back, w.width as int, w.height as int) == Seq::<
            DisplayOp,
        >::empty(),
        ok,
        s2 == s1,
        w2.top == w.top,
{
    let wd = v.width as int;
    let h = v.height as int;
    let n = lines.len() as int;
    assert(clamped_top(w, n) == clamped_top(v, n));
    assert(clamped_top(w1, n) == clamped_top(v, n));
    lemma_frame_ops_reach_back(diff_base(v), w.back, wd, h);
    assert forall|r: int, c: int| 0 <= r < h && 0 <= c < wd implies #[trigger] diff_base(w1)[r
        * wd + c] == w2.back[r * wd + c] by {
        lemma_row_fits(r, wd, h);
        assert(r * wd + c < h * wd) by (nonlinear_arith)
            requires
                r * wd + wd == (r + 1) * wd,
                (r + 1) * wd <= wd * h,
                c < wd,
        ;
        assert(row_has_line(w1, lines, r) == row_has_line(v, lines, r));
        if row_has_line(v, lines, r) {
            assert(r < MAX_ROWS);
            assert(w.row_hashes[r] == new_hash(v, lines, r));
            assert(w.row_ticks[r] == new_tick(v, lines, r));
            if w1.row_ticks == w.row_ticks {
                assert(new_tick(w1, lines, r) == new_tick(v, lines, r));
            } else {
                assert(row_line(v, lines, r).len() <= v.width);
            }
        }
        assert(cell(w1, lines, r, c) == cell(v, lines, r, c));
        assert(w2.back[r * wd + c] == cell(w1, lines, r, c));
        assert(w.back[r * wd + c] == cell(v, lines, r, c));
    }
    lemma_agreeing_frames_need_no_ops(diff_base(w1), w2.back, wd, h);
    assert(calls_of(Seq::<DisplayOp>::empty()) =~= Seq::<(DisplayCall, bool)>::empty());
    assert(s1 + Seq::<(DisplayCall, bool)>::empty() =~= s1);
}

proof fn lemma_row_ops_write(
    front: Seq<u8>,
    back: Seq<u8>,
    width: int,
    row: int,
    col: int,
    cursor: int,
    c: int,
)
    requires
        0 <= col <= c < width,
        0 <= row,
        front[row * width + c] != back[row * width + c],
    ensures
        exists|k: int|
            0 <= k < row_ops(front, back, width, row, col, cursor).len() && #[trigger] row_ops(
                front,
                back,
                width,
                row,
                col,
                cursor,
            )[k] == (DisplayOp::WriteChar {
                index: (row * width + c) as usize,
                byte: back[row * width + c],
            }),
    decreases width - col,
{
    let idx = row * width + col;
    let op = DisplayOp::WriteChar { index: (row * width + c) as usize, byte: back[row * width + c] };
    let all = row_ops(front, back, width, row, col, cursor);
    if front[idx] != back[idx] {
        let moves = if cursor != col {
            seq![DisplayOp::SetCursor { row: row as u8, col: col as u8 }]
        } else {
            Seq::<DisplayOp>::empty()
        };
        let w = seq![DisplayOp::WriteChar { index: idx as usize, byte: back[idx] }];
        let rest = row_ops(front, back, width, row, col + 1, col + 1);
        assert(all == moves + w + rest);
        if c == col {
            assert(all[moves.len() as int] == op);
        } else {
            lemma_row_ops_write(front, back, width, row, col + 1, col + 1, c);
            let k = choose|k: int| 0 <= k < rest.len() && #[trigger] rest[k] == op;
            assert(all[(moves.len() + 1 + k) as int] == op);
        }
    } else {
        lemma_row_ops_write(front, back, width, row, col + 1, cursor, c);
    }
}

/// Every cell of the first `rows` rows where `front` and `back` differ gets its write of the
/// `back` byte; in particular a draw from a blank front buffer (after `new`) writes every cell
/// whose byte is not zero.
pub proof fn lemma_changed_cells_are_written(
    front: Seq<u8>,
    back: Seq<u8>,
    width: int,
    rows: int,
    r: int,
    c: int,
)
    requires
        0 <= r < rows,
        0 <= c < width,
        front[r * width + c] != back[r * width + c],
    ensures
        exists|k: int|
            0 <= k < frame_ops(front, back, width, rows).len() && #[trigger] frame_ops(
                front,
                back,
                width,
                rows,
            )[k] == (DisplayOp::WriteChar {
                index: (r * width + c) as usize,
                byte: back[r * width + c],
            }),
    decreases rows,
{
    let op = DisplayOp::WriteChar { index: (r * width + c) as usize, byte: back[r * width + c] };
    let head = frame_ops(front, back, width, rows - 1);
    let tail = row_ops(front, back, width, rows - 1, 0, 255);
    assert(frame_ops(front, back, width, rows) == head + tail);
    if r == rows - 1 {
        lemma_row_ops_write(front, back, width, rows - 1, 0, 255, c);
        let k = choose|k: int| 0 <= k < tail.len() && #[trigger] tail[k] == op;
        assert((head + tail)[head.len() + k] == op);
    } else {
        lemma_changed_cells_are_written(front, back, width, rows - 1, r, c);
        let k = choose|k: int| 0 <= k < head.len() && #[trigger] head[k] == op;
        assert((head + tail)[k] == op);
    }
}

} // verus!
