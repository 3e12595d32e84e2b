//! A decoder for processor traces.
//!
//! The decoder turns the packets that the processor has written while a
//! thread ran into the sequence of basic blocks that the thread has
//! executed. For code of the main object it follows the control flow that
//! the compiler has described, and reads from the packets only which
//! branches were taken; for any other code it has to disassemble the
//! instructions.

pub mod decode;
pub mod foreign;
pub mod maps;
pub mod model;
pub mod packets;

use vstd::prelude::*;

verus! {

} // verus!
