//! The rules that compiled programs follow at run time: reference counts,
//! strings, printing, tasks and threads. What they say of memory, clocks and
//! threads is stated over plain values; callers hold the real ones.
use vstd::prelude::*;

pub mod arc;
pub mod io;
pub mod string;
pub mod task;
pub mod thread;

verus! {

} // verus!
