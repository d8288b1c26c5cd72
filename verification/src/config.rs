//! Constants shared by the scheduler and the system-call layer.

use vstd::prelude::*;

verus! {

/// Number of distinct system calls whose invocations are counted per thread.
pub const MAX_SYSCALL_NUM: usize = 500;

/// Ticks of the hardware clock per second.
pub const CLOCK_FREQ: usize = 12500000;

/// Microseconds per second.
pub const MICRO_PER_SEC: usize = 1000000;

/// Stride distance shared out among threads in inverse proportion to priority.
pub const BIG_STRIDE: usize = 1073741824;

/// Smallest priority a thread may have.
pub const MIN_PRIORITY: usize = 2;

/// Priority given to a freshly created thread.
pub const DEFAULT_PRIORITY: usize = 16;

} // verus!
