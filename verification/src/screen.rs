use vstd::prelude::*;
use crate::display::{
    apply_ops, calls_of, can_draw, cell, diff_base, drawn, frame_ops, lemma_apply_ops_concat,
    lemma_frame_ops_effect, row_ops, sizes_ok, DisplayCall, DisplayCalls, DisplayOp, DisplayState,
    BLANK, FRAME_CELLS,
};

verus! {

/// What a character display shows: the byte of row `r`, column `c` at `cells[r * width + c]`,
/// and the cursor position.
pub struct Screen {
    pub cells: Seq<u8>,
    pub row: int,
    pub col: int,
}

/// The screen of a `width`-column display after one logged call: a failed call changes
/// nothing; `set_cursor` moves the cursor; `write_char` shows the character's byte at the
/// cursor (the low byte of its code point), when that is a cell of the screen, and moves the cursor one column right; `clear`
/// blanks every cell and homes the cursor.
pub open spec fn screen_after_call(s: Screen, width: int, entry: (DisplayCall, bool)) -> Screen {
    if !entry.1 {
        s
    } else {
        match entry.0 {
            DisplayCall::SetCursor(r, c) => Screen { row: r as int, col: c as int, ..s },
            DisplayCall::WriteChar(code) => {
                let i = s.row * width + s.col;
                Screen {
                    cells: if 0 <= s.row && 0 <= s.col < width && i < s.cells.len() {
                        s.cells.update(i, code as u8)
                    } else {
                        s.cells
                    },
                    col: s.col + 1,
                    ..s
                }
            },
            DisplayCall::Clear => Screen {
                cells: Seq::new(s.cells.len(), |i: int| BLANK),
                row: 0,
                col: 0,
            },
        }
    }
}

/// The screen after the logged calls `log`, in order.
pub open spec fn screen_after(s: Screen, width: int, log: DisplayCalls) -> Screen
    decreases log.len(),
{
    if log.len() == 0 {
        s
    } else {
        screen_after(screen_after_call(s, width, log[0]), width, log.drop_first())
    }
}

proof fn lemma_screen_after_concat(s: Screen, width: int, a: DisplayCalls, b: DisplayCalls)
    ensures
        screen_after(s, width, a + b) == screen_after(screen_after(s, width, a), width, b),
    decreases a.len(),
{
    if a.len() == 0 {
        assert(a + b =~= b);
    } else {
        assert((a + b).drop_first() =~= a.drop_first() + b);
        lemma_screen_after_concat(screen_after_call(s, width, a[0]), width, a.drop_first(), b);
    }
}

proof fn lemma_calls_of_concat(a: Seq<DisplayOp>, b: Seq<DisplayOp>)
    ensures
        calls_of(a + b) == calls_of(a) + calls_of(b),
{
    assert(calls_of(a + b) =~= calls_of(a) + calls_of(b));
}

/// Replaying the calls of one row on a screen whose cursor is where `row_ops` assumes it
/// (at `cursor` on the row, when `cursor` is the current column) makes the same writes as
/// the ops' own cell indices.
proof fn lemma_row_calls_write_cells(
    front: Seq<u8>,
    back: Seq<u8>,
    width: int,
    row: int,
    col: int,
    cursor: int,
    s: Screen,
)
    requires
        0 <= col <= width < 255,
        0 <= row < 256,
        (row + 1) * width <= s.cells.len(),
        s.cells.len() <= usize::MAX,
        front.len() == s.cells.len(),
        back.len() == s.cells.len(),
        cursor <= col || cursor > width,
        cursor == col ==> s.row == row && s.col == col,
    ensures
        screen_after(s, width, calls_of(row_ops(front, back, width, row, col, cursor))).cells
            == apply_ops(s.cells, row_ops(front, back, width, row, col, cursor)),
    decreases width - col,
{
    if col < width {
        let idx = row * width + col;
        assert(row * width + width == (row + 1) * width) by (nonlinear_arith);
        assert(0 <= row * width) by (nonlinear_arith)
            requires
                0 <= row,
                0 <= width,
        ;
        if front[idx] != back[idx] {
            let moves = if cursor != col {
                seq![DisplayOp::SetCursor { row: row as u8, col: col as u8 }]
            } else {
                Seq::<DisplayOp>::empty()
            };
            let w = seq![DisplayOp::WriteChar { index: idx as usize, byte: back[idx] }];
            let rest = row_ops(front, back, width, row, col + 1, col + 1);
            let all = row_ops(front, back, width, row, col, cursor);
            assert(all == moves + w + rest);
            lemma_calls_of_concat(moves + w, rest);
            lemma_calls_of_concat(moves, w);
            lemma_screen_after_concat(s, width, calls_of(moves + w), calls_of(rest));
            lemma_screen_after_concat(s, width, calls_of(moves), calls_of(w));
            lemma_apply_ops_concat(s.cells, moves + w, rest);
            lemma_apply_ops_concat(s.cells, moves, w);
            let s1 = screen_after(s, width, calls_of(moves));
            reveal_with_fuel(screen_after, 2);
            assert(s1.cells == s.cells && s1.row == row && s1.col == col) by {
                if cursor != col {
                    assert(calls_of(moves) =~= seq![(DisplayCall::SetCursor(row as u8, col as u8), true)]);
                    assert(calls_of(moves).drop_first() =~= Seq::<(DisplayCall, bool)>::empty());
                } else {
                    assert(calls_of(moves) =~= Seq::<(DisplayCall, bool)>::empty());
                }
            }
            assert(apply_ops(s.cells, moves) == s.cells) by {
                if cursor != col {
                    assert(moves.drop_first() =~= Seq::<DisplayOp>::empty());
                    assert(apply_ops(s.cells, moves.drop_first()) == s.cells);
                }
            }
            assert(calls_of(w) =~= seq![(DisplayCall::WriteChar(back[idx] as u32), true)]);
            assert(calls_of(w).drop_first() =~= Seq::<(DisplayCall, bool)>::empty());
            let f2 = s.cells.update(idx, back[idx]);
            let s2 = screen_after(s1, width, calls_of(w));
            assert(s2 == Screen { cells: f2, row, col: col + 1 });
            assert(w.drop_first() =~= Seq::<DisplayOp>::empty());
            assert((idx as usize) as int == idx);
            assert(apply_ops(f2, w.drop_first()) == f2);
            assert(apply_ops(s.cells, w) == f2);
            lemma_row_calls_write_cells(front, back, width, row, col + 1, col + 1, s2);
        } else {
            lemma_row_calls_write_cells(front, back, width, row, col + 1, cursor, s);
            assert(row_ops(front, back, width, row, col, cursor) == row_ops(
                front,
                back,
                width,
                row,
                col + 1,
                cursor,
            ));
        }
    } else {
        assert(calls_of(Seq::<DisplayOp>::empty()) =~= Seq::<(DisplayCall, bool)>::empty());
    }
}

/// Replaying the calls of `frame_ops` with cursor semantics, from any screen and cursor,
/// makes exactly the writes that the ops name by cell index.
pub proof fn lemma_frame_calls_write_cells(
    front: Seq<u8>,
    back: Seq<u8>,
    width: int,
    rows: int,
    s: Screen,
)
    requires
        0 <= rows <= 256,
        0 <= width,
        rows > 0 ==> width < 255,
        rows * width <= s.cells.len(),
        s.cells.len() <= usize::MAX,
        front.len() == s.cells.len(),
        back.len() == s.cells.len(),
    ensures
        screen_after(s, width, calls_of(frame_ops(front, back, width, rows))).cells == apply_ops(
            s.cells,
            frame_ops(front, back, width, rows),
        ),
    decreases rows,
{
    if rows > 0 {
        assert((rows - 1) * width + width == rows * width) by (nonlinear_arith);
        assert(0 <= (rows - 1) * width) by (nonlinear_arith)
            requires
                0 <= rows - 1,
                0 <= width,
        ;
        let head = frame_ops(front, back, width, rows - 1);
        let last = row_ops(front, back, width, rows - 1, 0, 255);
        lemma_frame_calls_write_cells(front, back, width, rows - 1, s);
        lemma_calls_of_concat(head, last);
        lemma_screen_after_concat(s, width, calls_of(head), calls_of(last));
        lemma_apply_ops_concat(s.cells, head, last);
        let s1 = screen_after(s, width, calls_of(head));
        lemma_frame_ops_effect(front, back, width, rows - 1, s.cells);
        lemma_row_calls_write_cells(front, back, width, rows - 1, 0, 255, s1);
    } else {
        assert(calls_of(Seq::<DisplayOp>::empty()) =~= Seq::<(DisplayCall, bool)>::empty());
    }
}


/// After a successful draw, a display that carries out the draw's calls as a character
/// display does (cursor moves, each write at the cursor, the cursor stepping right) shows the
/// composed frame on the window, row `r`, column `c` showing `cell(v, lines, r, c)`, and
/// keeps every other cell; this holds from any screen whose window cells that the draw
/// skipped (where its diff base already agreed with the frame) showed the frame's byte
/// before. After `new` the diff base is all zero, so a first draw writes every window cell
/// whose byte is not zero, whatever the screen showed.
pub proof fn lemma_draw_shows_frame(
    v: DisplayState,
    w: DisplayState,
    lines: Seq<Seq<u8>>,
    before: DisplayCalls,
    after: DisplayCalls,
    s: Screen,
)
    requires
        sizes_ok(v),
        can_draw(v, lines),
        drawn(v, w, lines, true, before, after),
        s.cells.len() == FRAME_CELLS,
        forall|i: int|
            0 <= i < v.height * v.width && #[trigger] diff_base(v)[i] == w.back[i] ==> s.cells[i]
                == w.back[i],
    ensures
        after.len() >= before.len(),
        ({
            let shown = screen_after(s, v.width as int, after.skip(before.len() as int)).cells;
            &&& shown.len() == FRAME_CELLS
            &&& forall|r: int, c: int|
                0 <= r < v.height && 0 <= c < v.width ==> shown[r * v.width + c] == #[trigger] cell(
                    v,
                    lines,
                    r,
                    c,
                )
            &&& forall|i: int| v.height * v.width <= i < FRAME_CELLS ==> #[trigger] shown[i] == s.cells[i]
        }),
{
    let wd = v.width as int;
    let h = v.height as int;
    let base = diff_base(v);
    let ops = frame_ops(base, w.back, wd, h);
    assert(h * wd == wd * h) by (nonlinear_arith);
    assert(h > 0 ==> wd < 255) by (nonlinear_arith)
        requires
            wd * h <= FRAME_CELLS,
            h >= 0,
            wd >= 0,
    ;
    assert(after.skip(before.len() as int) =~= calls_of(ops));
    lemma_frame_calls_write_cells(base, w.back, wd, h, s);
    lemma_frame_ops_effect(base, w.back, wd, h, s.cells);
    let shown = screen_after(s, wd, after.skip(before.len() as int)).cells;
    assert forall|r: int, c: int| 0 <= r < v.height && 0 <= c < v.width implies shown[r * v.width
        + c] == #[trigger] cell(v, lines, r, c) by {
        let i = r * wd + c;
        assert(0 <= i < h * wd) by (nonlinear_arith)
            requires
                0 <= r < h,
                0 <= c < wd,
                i == r * wd + c,
        ;
        assert(w.back[i] == cell(v, lines, r, c));
        if base[i] == w.back[i] {
            assert(s.cells[i] == w.back[i]);
        }
    }
}


/// The calls that a redraw makes for cell `i` of a `width`-column display (row `i / width`,
/// column `i % width`): none where `front` already shows the `back` byte; otherwise one
/// write of the `back` byte, preceded by a cursor move unless the cell is not the first of
/// its row and the cell before it was written too.
pub open spec fn cell_ops(front: Seq<u8>, back: Seq<u8>, width: int, i: int) -> Seq<DisplayOp> {
    if front[i] == back[i] {
        Seq::empty()
    } else {
        let moves = if i % width == 0 || front[i - 1] == back[i - 1] {
            seq![DisplayOp::SetCursor { row: (i / width) as u8, col: (i % width) as u8 }]
        } else {
            Seq::empty()
        };
        moves + seq![DisplayOp::WriteChar { index: i as usize, byte: back[i] }]
    }
}

/// The calls for cells `lo .. hi`, in order.
pub open spec fn cells_ops(front: Seq<u8>, back: Seq<u8>, width: int, lo: int, hi: int) -> Seq<
    DisplayOp,
>
    decreases hi - lo,
{
    if lo >= hi {
        Seq::empty()
    } else {
        cell_ops(front, back, width, lo) + cells_ops(front, back, width, lo + 1, hi)
    }
}

proof fn lemma_cells_ops_split(front: Seq<u8>, back: Seq<u8>, width: int, a: int, b: int, c: int)
    requires
        a <= b <= c,
    ensures
        cells_ops(front, back, width, a, c) == cells_ops(front, back, width, a, b) + cells_ops(
            front,
            back,
            width,
            b,
            c,
        ),
    decreases b - a,
{
    if a == b {
        assert(Seq::<DisplayOp>::empty() + cells_ops(front, back, width, b, c) =~= cells_ops(
            front,
            back,
            width,
            b,
            c,
        ));
    } else {
        lemma_cells_ops_split(front, back, width, a + 1, b, c);
        assert(cell_ops(front, back, width, a) + (cells_ops(front, back, width, a + 1, b)
            + cells_ops(front, back, width, b, c)) =~= (cell_ops(front, back, width, a)
            + cells_ops(front, back, width, a + 1, b)) + cells_ops(front, back, width, b, c));
    }
}

proof fn lemma_row_ops_cells(
    front: Seq<u8>,
    back: Seq<u8>,
    width: int,
    row: int,
    col: int,
    cursor: int,
)
    requires
        0 <= col <= width,
        0 <= row,
        cursor <= col || cursor > width,
        (cursor == col) <==> (col > 0 && front[row * width + col - 1] != back[row * width + col
            - 1]),
    ensures
        row_ops(front, back, width, row, col, cursor) == cells_ops(
            front,
            back,
            width,
            row * width + col,
            row * width + width,
        ),
    decreases width - col,
{
    let i = row * width + col;
    if col < width {
        assert(i / width == row && i % width == col) by (nonlinear_arith)
            requires
                i == row * width + col,
                0 <= col < width,
                0 <= row,
        ;
        if front[i] != back[i] {
            lemma_row_ops_cells(front, back, width, row, col + 1, col + 1);
            assert(row * width + (col + 1) == i + 1);
        } else {
            lemma_row_ops_cells(front, back, width, row, col + 1, cursor);
            assert(row * width + (col + 1) == i + 1);
            assert(cell_ops(front, back, width, i) + cells_ops(
                front,
                back,
                width,
                i + 1,
                row * width + width,
            ) =~= cells_ops(front, back, width, i + 1, row * width + width));
        }
    }
}

/// The calls of a redraw, cell by cell: for the cells of the first `rows` rows in row-major
/// order, each cell whose byte changes is written exactly once, and a cursor move to it comes
/// just before its write exactly when it starts its row or the cell before it was not
/// written; nothing else is sent.
pub proof fn lemma_redraw_calls_by_cell(front: Seq<u8>, back: Seq<u8>, width: int, rows: int)
    requires
        0 <= rows,
        0 <= width < 255,
    ensures
        frame_ops(front, back, width, rows) == cells_ops(front, back, width, 0, rows * width),
    decreases rows,
{
    if rows > 0 {
        lemma_redraw_calls_by_cell(front, back, width, rows - 1);
        assert((rows - 1) * width + width == rows * width) by (nonlinear_arith);
        assert(0 <= (rows - 1) * width) by (nonlinear_arith)
            requires
                0 <= rows - 1,
                0 <= width,
        ;
        lemma_row_ops_cells(front, back, width, rows - 1, 0, 255);
        lemma_cells_ops_split(front, back, width, 0, (rows - 1) * width, rows * width);
    } else {
        assert(rows * width == 0) by (nonlinear_arith)
            requires
                rows == 0,
        ;
    }
}

} // verus!
