//! Breakpoint bookkeeping, resume decisions, stack-walk steps and session
//! state of a native-process tracer. The kernel calls on the traced process
//! are made by the caller, which hands their results to these functions.

pub mod breakpoint;
pub mod status;
pub mod word;
pub mod inferior;
pub mod text;
pub mod command;
pub mod backtrace;
pub mod debugger;
