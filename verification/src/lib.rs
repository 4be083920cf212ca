//! A minimal terminal control layer, split into decisions and effects.
//!
//! The library decides; the caller performs. Every operation that touches the
//! terminal is described as a value: a list of terminal operations to carry
//! out, or the next action of an input poll. The functions here compute those
//! values and turn what the terminal reported into the fixed event
//! record, each under a contract that is proved of it.

pub mod event;
pub mod observe;
pub mod poll;
pub mod render;
pub mod session;
pub mod term;

pub use event::{decode, key_code_of, modifier_bits_of, Key, KeyInput, KeyPhase, Modifiers, RtEvent, TerminalEvent};
pub use observe::observe;
pub use poll::{rt_poll_event, PollAction, PollSignal, PollState};
pub use render::{rt_render_lines, split_lines_of};
pub use session::{rt_init, rt_shutdown, rt_size, Context};
pub use term::TermOp;
