//! Resource-management and coordination substrate of a multi-server
//! operating-system personality on a capability microkernel: the IPC message
//! codec, the capability-slot allocator, per-task address-space bookkeeping,
//! demand paging decisions, initial stack layout and the syscall relay.
//!
//! Every kernel invocation is performed by the caller; the functions here
//! decide what to invoke and keep the records that the decisions rest on.

pub mod label;
pub mod allocator;
pub mod page;
pub mod task;
pub mod fault;
pub mod syscall;
pub mod stack;
pub mod dispatch;
pub mod elf;
pub mod logging;
pub mod net;
