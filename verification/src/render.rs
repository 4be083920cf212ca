//! The line renderer: from a block of text to the plan that repaints the
//! screen with it.

use crate::session::Context;
use crate::term::{lemma_plan_view_push, plan_view, OpView, TermOp};
use vstd::prelude::*;
use vstd::utf8::{
    is_char_boundary_iff_not_is_continuation_byte, pop_first_scalar, valid_utf8, valid_utf8_split,
};

verus! {

/// The byte that ends a line.
pub const NEWLINE: u8 = 0x0A;

/// The lines of a text: the stretches between its newline bytes. Read from
/// left to right, a newline begins a new, empty line and every other byte
/// goes to the end of the line begun last. A text with n newlines has n + 1
/// lines; the empty text has one, which is empty.
pub open spec fn split_lines(text: Seq<u8>) -> Seq<Seq<u8>>
    decreases text.len(),
{
    if text.len() == 0 {
        seq![Seq::<u8>::empty()]
    } else {
        let before = split_lines(text.drop_last());
        if text.last() == NEWLINE {
            before.push(Seq::<u8>::empty())
        } else {
            before.update(before.len() - 1, before.last().push(text.last()))
        }
    }
}

/// Lines put together again, with a newline between each two.
pub open spec fn join_lines(lines: Seq<Seq<u8>>) -> Seq<u8>
    decreases lines.len(),
{
    if lines.len() == 0 {
        Seq::<u8>::empty()
    } else if lines.len() == 1 {
        lines[0]
    } else {
        join_lines(lines.drop_last()).push(NEWLINE) + lines.last()
    }
}

/// Lines as sequences of bytes.
pub open spec fn line_views(lines: Seq<Vec<u8>>) -> Seq<Seq<u8>> {
    lines.map_values(|line: Vec<u8>| line@)
}

/// The screen row of the line at `index`. Rows are 16 bits wide: the line
/// after row 65535 is drawn at row 0 again.
pub open spec fn row_of(index: int) -> u16 {
    (index % 0x1_0000) as u16
}

/// The operations that draw `lines`: for each line in turn, the cursor is
/// moved to column 0 of its row and the line is printed.
pub open spec fn line_ops(lines: Seq<Seq<u8>>) -> Seq<OpView> {
    Seq::new(
        2 * lines.len(),
        |k: int|
            if k % 2 == 0 {
                OpView::MoveTo { col: 0, row: row_of(k / 2) }
            } else {
                OpView::Print(lines[k / 2])
            },
    )
}

/// The plan of one frame: cursor to the top left, clear the whole screen,
/// draw the lines, flush.
pub open spec fn frame(lines: Seq<Seq<u8>>) -> Seq<OpView> {
    seq![OpView::MoveTo { col: 0, row: 0 }, OpView::ClearAll] + line_ops(lines)
        + seq![OpView::Flush]
}

/// How many of `total` lines are drawn under the limit `count`: as many as
/// there are, but no more than `count`, and none where `count` is zero or
/// negative.
pub open spec fn drawn_count(total: nat, count: i32) -> nat {
    if count <= 0 {
        0
    } else if count >= total {
        total
    } else {
        count as nat
    }
}

/// The lines of `text` that are drawn under the limit `count`: the first
/// `drawn_count` of them.
pub open spec fn drawn_lines(text: Seq<u8>, count: i32) -> Seq<Seq<u8>> {
    split_lines(text).take(drawn_count(split_lines(text).len(), count) as int)
}

/// What a render call does. Without a session, or with text that is not
/// well-formed UTF-8, nothing at all; else one frame with the lines drawn.
pub open spec fn render_plan(session: bool, text: Seq<u8>, count: i32) -> Seq<OpView> {
    if session && valid_utf8(text) {
        frame(drawn_lines(text, count))
    } else {
        Seq::<OpView>::empty()
    }
}

/// Calls `core::str::from_utf8` and says whether it accepted the bytes. The
/// contract claims that it accepts exactly the well-formed UTF-8 encodings,
/// as `vstd::utf8::valid_utf8` defines them.
#[verifier::external_body]
fn is_utf8(bytes: &[u8]) -> (ok: bool)
    ensures
        ok == valid_utf8(bytes@),
{
    core::str::from_utf8(bytes).is_ok()
}

/// Splits a text into its lines: the stretches between its newline bytes,
/// in order, the empty ones too.
pub fn split_lines_of(text: &[u8]) -> (lines: Vec<Vec<u8>>)
    ensures
        line_views(lines@) == split_lines(text@),
{
    let mut lines: Vec<Vec<u8>> = Vec::new();
    let mut current: Vec<u8> = Vec::new();
    let mut i: usize = 0;
    assert(text@.take(0) =~= Seq::<u8>::empty());
    assert(line_views(lines@).push(current@) =~= seq![Seq::<u8>::empty()]);
    while i < text.len()
        invariant
            i <= text.len(),
            line_views(lines@).push(current@) == split_lines(text@.take(i as int)),
        decreases text.len() - i,
    {
        let byte: u8 = text[i];
        proof {
            let next = text@.take(i + 1);
            assert(next.drop_last() =~= text@.take(i as int));
            assert(next.last() == byte);
        }
        let ghost before = line_views(lines@).push(current@);
        if byte == NEWLINE {
            lines.push(current);
            current = Vec::new();
            assert(line_views(lines@) =~= before);
        } else {
            current.push(byte);
            assert(line_views(lines@).push(current@) =~= before.update(
                before.len() - 1,
                before.last().push(byte),
            ));
        }
        i += 1;
    }
    assert(text@.take(i as int) =~= text@);
    let ghost whole = line_views(lines@).push(current@);
    lines.push(current);
    assert(line_views(lines@) =~= whole);
    lines
}

/// Makes the plan that repaints the screen with the lines of `text`, the
/// first `count` of them at most.
///
/// The plan is empty if there is no session or if `text` is not well-formed
/// UTF-8. Else it moves the cursor to the top left, clears the screen, draws
/// each line at column 0 of the row that is its index, and flushes. Lines
/// beyond `count` are dropped; with a `count` of zero or less no line is
/// drawn, and the plan only resets the screen and flushes.
pub fn rt_render_lines(session: Option<&Context>, text: &[u8], count: i32) -> (ops: Vec<TermOp>)
    ensures
        plan_view(ops@) == render_plan(session is Some, text@, count),
        session is None || !valid_utf8(text@) ==> ops@.len() == 0,
{
    let mut ops: Vec<TermOp> = Vec::new();
    if session.is_none() || !is_utf8(text) {
        assert(plan_view(ops@) =~= Seq::<OpView>::empty());
        return ops;
    }
    let lines = split_lines_of(text);
    let total: usize = lines.len();
    let drawn: usize = if count <= 0 {
        0
    } else if count as usize >= total {
        total
    } else {
        count as usize
    };
    assert(line_views(lines@).len() == total);
    assert(drawn == drawn_count(total as nat, count));
    let ghost all = line_views(lines@);
    ops.push(TermOp::MoveTo { col: 0, row: 0 });
    ops.push(TermOp::ClearAll);
    let ghost head = seq![OpView::MoveTo { col: 0, row: 0 }, OpView::ClearAll];
    assert(plan_view(ops@) =~= head + line_ops(all.take(0)));
    let mut j: usize = 0;
    while j < drawn
        invariant
            j <= drawn <= lines.len(),
            all == line_views(lines@),
            plan_view(ops@) == head + line_ops(all.take(j as int)),
        decreases drawn - j,
    {
        let row: u16 = (j % 0x1_0000) as u16;
        let line: Vec<u8> = lines[j].clone();
        assert(line@ =~= lines[j as int]@);
        let ghost so_far = ops@;
        ops.push(TermOp::MoveTo { col: 0, row });
        ops.push(TermOp::Print(line));
        proof {
            lemma_plan_view_push(so_far, TermOp::MoveTo { col: 0, row });
            lemma_plan_view_push(so_far.push(TermOp::MoveTo { col: 0, row }), TermOp::Print(line));
            lemma_line_ops_push(all.take(j as int), all[j as int]);
            assert(all.take(j as int).push(all[j as int]) =~= all.take(j + 1));
            assert(plan_view(ops@) =~= head + line_ops(all.take(j + 1)));
        }
        j += 1;
    }
    let ghost body = ops@;
    ops.push(TermOp::Flush);
    proof {
        lemma_plan_view_push(body, TermOp::Flush);
        assert(plan_view(ops@) =~= frame(all.take(drawn as int)));
    }
    ops
}

/// Drawing one more line adds two operations: the move to its row and the
/// print.
pub proof fn lemma_line_ops_push(lines: Seq<Seq<u8>>, line: Seq<u8>)
    ensures
        line_ops(lines.push(line)) == line_ops(lines).push(
            OpView::MoveTo { col: 0, row: row_of(lines.len() as int) },
        ).push(OpView::Print(line)),
{
    assert(line_ops(lines.push(line)) =~= line_ops(lines).push(
        OpView::MoveTo { col: 0, row: row_of(lines.len() as int) },
    ).push(OpView::Print(line)));
}

/// A text has at least one line, and no more lines than bytes and one.
pub proof fn lemma_split_lines_len(text: Seq<u8>)
    ensures
        1 <= split_lines(text).len() <= text.len() + 1,
    decreases text.len(),
{
    if text.len() > 0 {
        lemma_split_lines_len(text.drop_last());
    }
}

/// No line holds a newline.
pub proof fn lemma_split_lines_have_no_newline(text: Seq<u8>)
    ensures
        forall|i: int, k: int|
            0 <= i < split_lines(text).len() && 0 <= k < split_lines(text)[i].len()
                ==> split_lines(text)[i][k] != NEWLINE,
    decreases text.len(),
{
    if text.len() > 0 {
        lemma_split_lines_len(text.drop_last());
        lemma_split_lines_have_no_newline(text.drop_last());
    }
}

/// A byte at the end of the last line goes to the end of the joined text.
pub proof fn lemma_join_lines_extend_last(lines: Seq<Seq<u8>>, byte: u8)
    requires
        lines.len() >= 1,
    ensures
        join_lines(lines.update(lines.len() - 1, lines.last().push(byte))) == join_lines(
            lines,
        ).push(byte),
{
    let longer = lines.update(lines.len() - 1, lines.last().push(byte));
    if lines.len() > 1 {
        assert(longer.drop_last() =~= lines.drop_last());
        assert(join_lines(longer) =~= join_lines(lines).push(byte));
    }
}

/// The lines of a text, joined with newlines, are the text again.
pub proof fn lemma_split_lines_join_back(text: Seq<u8>)
    ensures
        join_lines(split_lines(text)) == text,
    decreases text.len(),
{
    if text.len() == 0 {
        assert(join_lines(split_lines(text)) =~= text);
    } else {
        let before = split_lines(text.drop_last());
        lemma_split_lines_len(text.drop_last());
        lemma_split_lines_join_back(text.drop_last());
        if text.last() == NEWLINE {
            let after = before.push(Seq::<u8>::empty());
            assert(after.drop_last() =~= before);
            assert(join_lines(after) =~= join_lines(before).push(NEWLINE));
        } else {
            lemma_join_lines_extend_last(before, text.last());
        }
        assert(text.drop_last().push(text.last()) =~= text);
    }
}

/// Bytes without a newline, put behind a text, lengthen its last line.
pub proof fn lemma_split_lines_append(text: Seq<u8>, tail: Seq<u8>)
    requires
        forall|k: int| 0 <= k < tail.len() ==> tail[k] != NEWLINE,
    ensures
        split_lines(text + tail) == split_lines(text).update(
            split_lines(text).len() - 1,
            split_lines(text).last() + tail,
        ),
    decreases tail.len(),
{
    lemma_split_lines_len(text);
    let lines = split_lines(text);
    if tail.len() == 0 {
        assert(text + tail =~= text);
        assert(lines.last() + tail =~= lines.last());
        assert(lines.update(lines.len() - 1, lines.last()) =~= lines);
    } else {
        lemma_split_lines_append(text, tail.drop_last());
        assert((text + tail).drop_last() =~= text + tail.drop_last());
        assert((text + tail).last() == tail.last());
        let shorter = lines.update(lines.len() - 1, lines.last() + tail.drop_last());
        assert((lines.last() + tail.drop_last()).push(tail.last()) =~= lines.last() + tail);
        assert(shorter.update(shorter.len() - 1, shorter.last().push(tail.last())) =~= lines.update(
            lines.len() - 1,
            lines.last() + tail,
        ));
    }
}

/// Splitting undoes joining: lines without a newline, one at least, joined
/// with newlines and split again, are the same lines. With
/// `lemma_split_lines_join_back` this says that `split_lines` cuts a text at
/// its newlines and nowhere else.
pub proof fn lemma_split_lines_of_join(lines: Seq<Seq<u8>>)
    requires
        lines.len() >= 1,
        forall|i: int, k: int|
            0 <= i < lines.len() && 0 <= k < lines[i].len() ==> lines[i][k] != NEWLINE,
    ensures
        split_lines(join_lines(lines)) == lines,
    decreases lines.len(),
{
    let none = Seq::<u8>::empty();
    if lines.len() == 1 {
        lemma_split_lines_append(none, lines[0]);
        assert(none + lines[0] =~= lines[0]);
        assert(split_lines(none) =~= seq![none]);
        assert(seq![none].update(0, none + lines[0]) =~= lines);
    } else {
        let front = lines.drop_last();
        lemma_split_lines_of_join(front);
        let head = join_lines(front).push(NEWLINE);
        assert(head.drop_last() =~= join_lines(front));
        assert(split_lines(head) == front.push(none));
        lemma_split_lines_append(head, lines.last());
        assert(none + lines.last() =~= lines.last());
        assert(front.push(none).update(front.len() as int, lines.last()) =~= lines);
    }
}

/// Lines whose joined text is well-formed UTF-8 are each well-formed UTF-8:
/// a newline never falls inside a character.
pub proof fn lemma_joined_lines_are_text(lines: Seq<Seq<u8>>)
    requires
        lines.len() >= 1,
        valid_utf8(join_lines(lines)),
    ensures
        forall|i: int| 0 <= i < lines.len() ==> valid_utf8(#[trigger] lines[i]),
    decreases lines.len(),
{
    if lines.len() > 1 {
        let front = join_lines(lines.drop_last());
        let whole = join_lines(lines);
        let cut = front.len() as int;
        assert(whole[cut] == NEWLINE);
        is_char_boundary_iff_not_is_continuation_byte(whole, cut);
        valid_utf8_split(whole, cut);
        assert(whole.subrange(0, cut) =~= front);
        let rest = whole.subrange(cut, whole.len() as int);
        assert(rest =~= seq![NEWLINE] + lines.last());
        assert(valid_utf8(rest));
        assert(pop_first_scalar(rest) =~= lines.last()) by {
            assert(rest[0] == NEWLINE);
        }
        lemma_joined_lines_are_text(lines.drop_last());
        assert forall|i: int| 0 <= i < lines.len() implies valid_utf8(#[trigger] lines[i]) by {
            if i < lines.len() - 1 {
                assert(lines[i] == lines.drop_last()[i]);
            }
        }
    }
}

/// Every line of a well-formed text is well-formed.
pub proof fn lemma_lines_of_text_are_text(text: Seq<u8>)
    requires
        valid_utf8(text),
    ensures
        forall|i: int|
            0 <= i < split_lines(text).len() ==> valid_utf8(#[trigger] split_lines(text)[i]),
{
    lemma_split_lines_len(text);
    lemma_split_lines_join_back(text);
    lemma_joined_lines_are_text(split_lines(text));
}

/// The shape of a frame: two operations that reset the screen, two for each
/// line, and the flush. The screen is cleared once, before anything is
/// printed; line `j` is printed at column 0 of row `j`, straight after the
/// move there; and nothing else is printed.
pub proof fn lemma_frame_shape(lines: Seq<Seq<u8>>)
    ensures
        frame(lines).len() == 2 * lines.len() + 3,
        frame(lines)[0] == (OpView::MoveTo { col: 0, row: 0 }),
        frame(lines)[1] == OpView::ClearAll,
        frame(lines).last() == OpView::Flush,
        forall|j: int|
            0 <= j < lines.len() ==> #[trigger] frame(lines)[2 * j + 2] == (OpView::MoveTo {
                col: 0,
                row: row_of(j),
            }),
        forall|j: int|
            0 <= j < lines.len() ==> #[trigger] frame(lines)[2 * j + 3] == OpView::Print(lines[j]),
        forall|k: int|
            0 <= k < frame(lines).len() && #[trigger] frame(lines)[k] is Print ==> k >= 3 && k % 2
                == 1 && frame(lines)[k] == OpView::Print(lines[(k - 3) / 2]),
        forall|k: int|
            0 <= k < frame(lines).len() && #[trigger] frame(lines)[k] is ClearAll ==> k == 1,
{
    let n = lines.len() as int;
    let mid = line_ops(lines);
    assert forall|k: int| 0 <= k < frame(lines).len() implies (#[trigger] frame(lines)[k]) == (if k
        == 0 {
        OpView::MoveTo { col: 0, row: 0 }
    } else if k == 1 {
        OpView::ClearAll
    } else if k == 2 * n + 2 {
        OpView::Flush
    } else {
        mid[k - 2]
    }) by {}
    assert forall|j: int| 0 <= j < n implies #[trigger] frame(lines)[2 * j + 2] == (OpView::MoveTo {
        col: 0,
        row: row_of(j),
    }) by {
        assert(mid[2 * j] == (OpView::MoveTo { col: 0, row: row_of((2 * j) / 2) }));
    }
    assert forall|j: int| 0 <= j < n implies #[trigger] frame(lines)[2 * j + 3] == OpView::Print(
        lines[j],
    ) by {
        assert(mid[2 * j + 1] == OpView::Print(lines[(2 * j + 1) / 2]));
    }
}

/// No more lines are drawn than the limit allows, none under a limit of zero
/// or less, and those drawn are the first of the text, in order.
pub proof fn lemma_drawn_lines_within_count(text: Seq<u8>, count: i32)
    ensures
        count >= 0 ==> drawn_lines(text, count).len() <= count,
        count <= 0 ==> drawn_lines(text, count).len() == 0,
        drawn_lines(text, count).len() <= split_lines(text).len(),
        forall|j: int|
            0 <= j < drawn_lines(text, count).len() ==> drawn_lines(text, count)[j] == split_lines(
                text,
            )[j],
{
}

/// With a limit that is no less than the number of lines, every line is
/// drawn: the frame is that of all the lines of the text. It clears the
/// whole screen before the first line is printed and prints nothing but
/// those lines, so a row that gets no line stays blank.
pub proof fn lemma_count_beyond_lines_draws_all(text: Seq<u8>, count: i32)
    requires
        valid_utf8(text),
        count >= split_lines(text).len(),
    ensures
        drawn_lines(text, count) == split_lines(text),
        render_plan(true, text, count) == frame(split_lines(text)),
        render_plan(true, text, count).len() == 2 * split_lines(text).len() + 3,
        render_plan(true, text, count)[1] == OpView::ClearAll,
        forall|k: int|
            0 <= k < render_plan(true, text, count).len() && #[trigger] render_plan(
                true,
                text,
                count,
            )[k] is Print ==> k >= 3 && render_plan(true, text, count)[k] == OpView::Print(
                split_lines(text)[(k - 3) / 2],
            ) && render_plan(true, text, count)[k - 1] == (OpView::MoveTo {
                col: 0,
                row: row_of((k - 3) / 2),
            }),
{
    let lines = split_lines(text);
    assert(lines.take(lines.len() as int) =~= lines);
    lemma_frame_shape(lines);
    assert forall|k: int|
        0 <= k < frame(lines).len() && #[trigger] frame(lines)[k] is Print implies frame(lines)[k
            - 1] == (OpView::MoveTo { col: 0, row: row_of((k - 3) / 2) }) by {
        let j = (k - 3) / 2;
        assert(2 * j + 2 == k - 1);
        assert(frame(lines)[2 * j + 2] == (OpView::MoveTo { col: 0, row: row_of(j) }));
    }
}

/// Whatever is printed by a render call is well-formed UTF-8.
pub proof fn lemma_render_prints_text(session: bool, text: Seq<u8>, count: i32)
    ensures
        forall|k: int|
            0 <= k < render_plan(session, text, count).len() && #[trigger] render_plan(
                session,
                text,
                count,
            )[k] is Print ==> valid_utf8(render_plan(session, text, count)[k]->Print_0),
{
    if session && valid_utf8(text) {
        let lines = drawn_lines(text, count);
        lemma_split_lines_len(text);
        lemma_lines_of_text_are_text(text);
        lemma_frame_shape(lines);
        assert forall|k: int|
            0 <= k < frame(lines).len() && #[trigger] frame(lines)[k] is Print implies valid_utf8(
            frame(lines)[k]->Print_0,
        ) by {
            let j = (k - 3) / 2;
            assert(lines[j] == split_lines(text)[j]);
        }
    }
}

} // verus!
