//! Terminal operations as values.
//!
//! The library never touches the terminal. It says what is to be done as a
//! list of [`TermOp`]s, a plan, which the caller carries out in order.

use vstd::prelude::*;

verus! {

/// One operation on the terminal.
#[derive(Clone, Debug, PartialEq, Eq)]
pub enum TermOp {
    /// Deliver keys at once and unprocessed: no line buffering, no echo, no
    /// signals from control characters.
    EnableRawMode,
    /// Give the terminal back its usual input mode.
    DisableRawMode,
    /// Show the alternate screen buffer.
    EnterAlternateScreen,
    /// Show the normal screen buffer again.
    LeaveAlternateScreen,
    /// Clear the whole visible screen.
    ClearAll,
    /// Move the cursor; column and row count from 0.
    MoveTo { col: u16, row: u16 },
    /// Write these bytes at the cursor, as they are.
    Print(Vec<u8>),
    /// Flush the output stream.
    Flush,
}

/// A terminal operation as a mathematical value: the bytes to print are a
/// sequence.
pub enum OpView {
    EnableRawMode,
    DisableRawMode,
    EnterAlternateScreen,
    LeaveAlternateScreen,
    ClearAll,
    MoveTo { col: u16, row: u16 },
    Print(Seq<u8>),
    Flush,
}

impl View for TermOp {
    type V = OpView;

    open spec fn view(&self) -> OpView {
        match *self {
            TermOp::EnableRawMode => OpView::EnableRawMode,
            TermOp::DisableRawMode => OpView::DisableRawMode,
            TermOp::EnterAlternateScreen => OpView::EnterAlternateScreen,
            TermOp::LeaveAlternateScreen => OpView::LeaveAlternateScreen,
            TermOp::ClearAll => OpView::ClearAll,
            TermOp::MoveTo { col, row } => OpView::MoveTo { col, row },
            TermOp::Print(bytes) => OpView::Print(bytes@),
            TermOp::Flush => OpView::Flush,
        }
    }
}

/// A plan as a sequence of mathematical values.
pub open spec fn plan_view(ops: Seq<TermOp>) -> Seq<OpView> {
    ops.map_values(|op: TermOp| op@)
}

/// The view of a plan with one more operation is the view of the plan with
/// one more view.
pub proof fn lemma_plan_view_push(ops: Seq<TermOp>, op: TermOp)
    ensures
        plan_view(ops.push(op)) == plan_view(ops).push(op@),
{
    assert(plan_view(ops.push(op)) =~= plan_view(ops).push(op@));
}

} // verus!
