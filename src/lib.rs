//! Invoking a function inside a running process through the kernel's
//! process-tracing interface: classification of tracing errors, the trace
//! session state machine, the symbol-address parser and the process handle.

pub mod outcome;
pub mod session;
pub mod guarantees;
pub mod symbol;
pub mod process;
