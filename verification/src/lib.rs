//! The verified core of a small kernel for one processor.
//!
//! At its centre stand the tasks: `task` holds their model and the laws of
//! the scheduler, `scheduler` the task manager, `message` the messages that
//! tasks send each other, `timer` the tick counter and the pending timers,
//! `kernel` the handler of the timer interrupt, and `sync` the locks.
//!
//! Around them stand what the kernel computes for the hardware and for the
//! applications: `graphics` and `mouse` draw, `segment`, `x86_descriptor`
//! and `paging` build the tables of the processor, `syscall` decides the
//! system calls and `main_task` what the main task does. `loader` is the
//! computing part of the boot loader, `custom_attribute` that of the
//! attributes for entry points, and `readfile` that of an application.

pub mod bitfield;
pub mod custom_attribute;
pub mod errno;
pub mod frame_buffer_config;
pub mod graphics;
pub mod kernel;
pub mod loader;
pub mod main_task;
pub mod message;
pub mod mouse;
pub mod paging;
pub mod queue;
pub mod readfile;
pub mod scheduler;
pub mod segment;
pub mod sync;
pub mod syscall;
pub mod task;
pub mod text;
pub mod timer;
pub mod x86_descriptor;
