//! What is written to the terminal for one frame, as a list of steps that
//! the caller carries out.

use vstd::prelude::*;

verus! {

/// One step of drawing a frame.
#[derive(Debug, Clone, PartialEq)]
pub enum FrameOp {
    /// Move the cursor to the top left corner.
    MoveHome,
    /// Clear the line that the cursor is on.
    ClearLine,
    /// Write the text at the cursor.
    Text(String),
    /// Move the cursor to the start of the next line.
    NewLine,
}

/// A step as plain values.
pub ghost enum OpModel {
    MoveHome,
    ClearLine,
    Text(Seq<char>),
    NewLine,
}

impl View for FrameOp {
    type V = OpModel;

    open spec fn view(&self) -> OpModel {
        match *self {
            FrameOp::MoveHome => OpModel::MoveHome,
            FrameOp::ClearLine => OpModel::ClearLine,
            FrameOp::Text(s) => OpModel::Text(s@),
            FrameOp::NewLine => OpModel::NewLine,
        }
    }
}

/// The models of a list of steps, in order.
pub open spec fn op_models(ops: Seq<FrameOp>) -> Seq<OpModel> {
    Seq::new(ops.len(), |i: int| ops[i]@)
}

/// The smaller of two numbers.
pub open spec fn least(a: int, b: int) -> int {
    if a < b {
        a
    } else {
        b
    }
}

/// The step that follows row `row` where the cursor may still go down: a
/// new line on every row but the last of the terminal.
pub open spec fn line_end(row: int, max_rows: int) -> Seq<OpModel> {
    if row < max_rows - 1 {
        seq![OpModel::NewLine]
    } else {
        Seq::empty()
    }
}

/// The steps that write the first `upto` lines: each row is cleared, then
/// written, then left by a new line unless it is the last of the terminal.
pub open spec fn line_ops(lines: Seq<Seq<char>>, upto: int, max_rows: int) -> Seq<OpModel>
    decreases upto,
{
    if upto <= 0 {
        Seq::empty()
    } else {
        line_ops(lines, upto - 1, max_rows) + seq![OpModel::ClearLine, OpModel::Text(lines[upto - 1])]
            + line_end(upto - 1, max_rows)
    }
}

/// The steps that clear the rows from `from` up to, but not including,
/// `upto`.
pub open spec fn clear_ops(from: int, upto: int, max_rows: int) -> Seq<OpModel>
    decreases upto - from,
{
    if upto <= from {
        Seq::empty()
    } else {
        clear_ops(from, upto - 1, max_rows) + seq![OpModel::ClearLine] + line_end(upto - 1, max_rows)
    }
}

/// The steps of one frame: home, the lines that fit, and the clearing of
/// what the frame before left below them.
pub open spec fn frame_ops(lines: Seq<Seq<char>>, prev_line_count: int, max_rows: int) -> Seq<
    OpModel,
> {
    let visible = least(lines.len() as int, max_rows);
    seq![OpModel::MoveHome] + line_ops(lines, visible, max_rows) + clear_ops(
        visible,
        least(prev_line_count, max_rows),
        max_rows,
    )
}

/// How many of the steps are new lines.
pub open spec fn new_lines(ops: Seq<OpModel>) -> nat
    decreases ops.len(),
{
    if ops.len() == 0 {
        0
    } else {
        new_lines(ops.drop_last()) + if ops.last() is NewLine {
            1nat
        } else {
            0nat
        }
    }
}

fn push_line_end(ops: &mut Vec<FrameOp>, row: usize, max_rows: usize)
    ensures
        op_models(final(ops)@) == op_models(old(ops)@) + line_end(row as int, max_rows as int),
{
    if max_rows > 0 && row < max_rows - 1 {
        ops.push(FrameOp::NewLine);
    }
    assert(op_models(ops@) =~= op_models(old(ops)@) + line_end(row as int, max_rows as int));
}

/// Plans one frame: the steps to draw `lines` from the top of the
/// terminal, and to clear what is left of a frame of `prev_line_count`
/// lines. No more than `max_rows` lines are written, and the cursor never
/// leaves the last row, so that the terminal does not scroll. Returns the
/// steps and the number of lines written.
pub fn render_frame(lines: &[String], prev_line_count: usize, max_rows: usize) -> (r: (
    Vec<FrameOp>,
    usize,
))
    ensures
        op_models(r.0@) == frame_ops(
            crate::text::texts(lines@),
            prev_line_count as int,
            max_rows as int,
        ),
        r.1 == least(lines@.len() as int, max_rows as int),
{
    let ghost texts = crate::text::texts(lines@);
    let mut ops: Vec<FrameOp> = Vec::new();
    ops.push(FrameOp::MoveHome);
    let visible = if lines.len() < max_rows {
        lines.len()
    } else {
        max_rows
    };
    assert(op_models(ops@) =~= seq![OpModel::MoveHome] + line_ops(texts, 0, max_rows as int));
    let mut i: usize = 0;
    while i < visible
        invariant
            i <= visible <= lines.len(),
            texts == crate::text::texts(lines@),
            op_models(ops@) == seq![OpModel::MoveHome] + line_ops(texts, i as int, max_rows as int),
        decreases visible - i,
    {
        let ghost before = op_models(ops@);
        ops.push(FrameOp::ClearLine);
        ops.push(FrameOp::Text(lines[i].clone()));
        assert(op_models(ops@) =~= before + seq![OpModel::ClearLine, OpModel::Text(texts[i as int])]);
        push_line_end(&mut ops, i, max_rows);
        i += 1;
        assert(op_models(ops@) =~= seq![OpModel::MoveHome] + line_ops(
            texts,
            i as int,
            max_rows as int,
        ));
    }
    let clear_up_to = if prev_line_count < max_rows {
        prev_line_count
    } else {
        max_rows
    };
    let ghost written = op_models(ops@);
    assert(written =~= written + clear_ops(visible as int, visible as int, max_rows as int));
    let mut j: usize = visible;
    while j < clear_up_to
        invariant
            visible <= j,
            j <= clear_up_to || j == visible,
            op_models(ops@) == written + clear_ops(visible as int, j as int, max_rows as int),
        decreases clear_up_to - j,
    {
        let ghost before = op_models(ops@);
        ops.push(FrameOp::ClearLine);
        assert(op_models(ops@) =~= before + seq![OpModel::ClearLine]);
        push_line_end(&mut ops, j, max_rows);
        j += 1;
        assert(op_models(ops@) =~= written + clear_ops(visible as int, j as int, max_rows as int));
    }
    assert(clear_ops(visible as int, clear_up_to as int, max_rows as int) =~= clear_ops(
        visible as int,
        j as int,
        max_rows as int,
    ));
    (ops, visible)
}

/// The size of the terminal in columns and rows: the measured one, or 80
/// by 24 where it could not be measured.
pub fn terminal_size(measured: Option<(u16, u16)>) -> (size: (u16, u16))
    ensures
        size == match measured {
            Some(s) => s,
            None => (80u16, 24u16),
        },
{
    match measured {
        Some(s) => s,
        None => (80, 24),
    }
}

/// The new lines of two lists of steps add up.
pub proof fn lemma_new_lines_add_up(a: Seq<OpModel>, b: Seq<OpModel>)
    ensures
        new_lines(a + b) == new_lines(a) + new_lines(b),
    decreases b.len(),
{
    if b.len() == 0 {
        assert(a + b =~= a);
    } else {
        lemma_new_lines_add_up(a, b.drop_last());
        assert((a + b).drop_last() =~= a + b.drop_last());
        assert((a + b).last() == b.last());
    }
}

/// The rows among the first `upto` that are not the last of the terminal:
/// as many as there are new lines after them.
pub open spec fn rows_left(upto: int, max_rows: int) -> int {
    if upto <= 0 || max_rows <= 1 {
        0
    } else {
        least(upto, max_rows - 1)
    }
}

proof fn lemma_short(ops: Seq<OpModel>)
    requires
        ops.len() <= 2,
    ensures
        new_lines(ops) == (if ops.len() >= 1 && ops[0] is NewLine {
            1nat
        } else {
            0nat
        }) + (if ops.len() >= 2 && ops[1] is NewLine {
            1nat
        } else {
            0nat
        }),
{
    reveal_with_fuel(new_lines, 3);
    if ops.len() == 2 {
        assert(ops.drop_last().drop_last().len() == 0);
        assert(ops.drop_last()[0] == ops[0]);
    }
}

proof fn lemma_line_ops_new_lines(lines: Seq<Seq<char>>, upto: int, max_rows: int)
    ensures
        new_lines(line_ops(lines, upto, max_rows)) == rows_left(upto, max_rows),
    decreases upto,
{
    if upto > 0 {
        lemma_line_ops_new_lines(lines, upto - 1, max_rows);
        let head = line_ops(lines, upto - 1, max_rows);
        let body = seq![OpModel::ClearLine, OpModel::Text(lines[upto - 1])];
        lemma_new_lines_add_up(head + body, line_end(upto - 1, max_rows));
        lemma_new_lines_add_up(head, body);
        lemma_short(body);
        lemma_short(line_end(upto - 1, max_rows));
    } else {
        lemma_short(line_ops(lines, upto, max_rows));
    }
}

proof fn lemma_clear_ops_new_lines(from: int, upto: int, max_rows: int)
    requires
        0 <= from,
    ensures
        new_lines(clear_ops(from, upto, max_rows)) == if upto <= from {
            0
        } else {
            rows_left(upto, max_rows) - rows_left(from, max_rows)
        },
    decreases upto - from,
{
    if upto > from {
        lemma_clear_ops_new_lines(from, upto - 1, max_rows);
        let head = clear_ops(from, upto - 1, max_rows);
        let body = seq![OpModel::ClearLine];
        lemma_new_lines_add_up(head + body, line_end(upto - 1, max_rows));
        lemma_new_lines_add_up(head, body);
        lemma_short(body);
        lemma_short(line_end(upto - 1, max_rows));
    } else {
        lemma_short(clear_ops(from, upto, max_rows));
    }
}

/// A frame never moves the cursor below the last row of the terminal, so
/// that the terminal does not scroll: it holds fewer new lines than the
/// terminal has rows, and none where there is no row to go down to.
pub proof fn lemma_frame_stays_on_screen(
    lines: Seq<Seq<char>>,
    prev_line_count: int,
    max_rows: int,
)
    requires
        0 <= prev_line_count,
        0 <= max_rows,
    ensures
        max_rows >= 1 ==> new_lines(frame_ops(lines, prev_line_count, max_rows)) <= max_rows - 1,
        max_rows == 0 ==> new_lines(frame_ops(lines, prev_line_count, max_rows)) == 0,
{
    let visible = least(lines.len() as int, max_rows);
    let upto = least(prev_line_count, max_rows);
    let home = seq![OpModel::MoveHome];
    lemma_short(home);
    lemma_line_ops_new_lines(lines, visible, max_rows);
    lemma_clear_ops_new_lines(visible, upto, max_rows);
    lemma_new_lines_add_up(home, line_ops(lines, visible, max_rows));
    lemma_new_lines_add_up(
        home + line_ops(lines, visible, max_rows),
        clear_ops(visible, upto, max_rows),
    );
}

} // verus!
