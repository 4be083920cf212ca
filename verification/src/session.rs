//! The terminal session: a token for "the terminal is in raw mode and shows
//! the alternate screen", the plans that begin and end it, and the size
//! report.

use crate::term::{plan_view, OpView, TermOp};
use vstd::prelude::*;

verus! {

/// The session handle. It holds nothing: to have one is to have started a
/// session. At most one should be live in a process, since the terminal is a
/// single device; that is left to the caller.
#[derive(Debug)]
pub struct Context {}

/// The plan that begins a session: raw mode on, alternate screen, clear.
pub open spec fn start_plan() -> Seq<OpView> {
    seq![OpView::EnableRawMode, OpView::EnterAlternateScreen, OpView::ClearAll]
}

/// The plan that ends a session: normal screen, clear, raw mode off. Where
/// there is no session there is nothing to end, and the plan is empty.
pub open spec fn end_plan(session: bool) -> Seq<OpView> {
    if session {
        seq![OpView::LeaveAlternateScreen, OpView::ClearAll, OpView::DisableRawMode]
    } else {
        Seq::<OpView>::empty()
    }
}

/// The size that is reported: the size measured, widened, where there is a
/// session and the terminal could be measured; else none.
pub open spec fn reported_size(session: bool, measured: Option<(u16, u16)>) -> Option<(u32, u32)> {
    if session && measured is Some {
        Some((measured->Some_0.0 as u32, measured->Some_0.1 as u32))
    } else {
        None
    }
}

/// Begins a session: hands out the handle and the plan that sets the
/// terminal up. The handle is good whether or not the operations of the plan
/// succeed; the caller carries them out and goes on if one fails.
pub fn rt_init() -> (started: (Context, Vec<TermOp>))
    ensures
        plan_view(started.1@) == start_plan(),
{
    let mut ops: Vec<TermOp> = Vec::new();
    ops.push(TermOp::EnableRawMode);
    ops.push(TermOp::EnterAlternateScreen);
    ops.push(TermOp::ClearAll);
    assert(plan_view(ops@) =~= start_plan());
    (Context {  }, ops)
}

/// Ends a session: takes the handle back and gives the plan that restores
/// the terminal. Without a handle the plan is empty. The caller carries the
/// operations out and goes on if one fails.
pub fn rt_shutdown(session: Option<Context>) -> (ops: Vec<TermOp>)
    ensures
        plan_view(ops@) == end_plan(session is Some),
        session is None ==> ops@.len() == 0,
{
    let mut ops: Vec<TermOp> = Vec::new();
    if session.is_some() {
        ops.push(TermOp::LeaveAlternateScreen);
        ops.push(TermOp::ClearAll);
        ops.push(TermOp::DisableRawMode);
    }
    assert(plan_view(ops@) =~= end_plan(session is Some));
    ops
}

/// Reports the terminal's size as (columns, rows), from what the caller
/// measured: `None` where the terminal could not be measured, and where
/// there is no session.
pub fn rt_size(session: Option<&Context>, measured: Option<(u16, u16)>) -> (size: Option<(u32, u32)>)
    ensures
        size == reported_size(session is Some, measured),
{
    if session.is_none() {
        return None;
    }
    match measured {
        Some((cols, rows)) => Some((cols as u32, rows as u32)),
        None => None,
    }
}

} // verus!
