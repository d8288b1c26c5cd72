//! Scheduling and synchronisation core of a small uniprocessor kernel.
//!
//! The ready queue orders runnable threads by stride, the processor record
//! holds the thread that is running, and the lock primitives park and wake
//! threads in FIFO order. Every operation is a step on explicit state: the
//! caller owns the single scheduler and processor and performs the actual
//! control-flow switch that a step asks for.

pub mod config;
pub mod manager;
pub mod processor;
pub mod sync;
pub mod syscall;
pub mod task;
pub mod tid_set;
