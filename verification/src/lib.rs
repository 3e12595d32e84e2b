//! A meta-tracing JIT runtime: the control-point state machine, the hardware
//! trace decoder, the linear-scan register allocator and the stopgap
//! interpreter, with their behaviour stated as contracts.

pub mod block;
pub mod jit_ir;
pub mod location;
pub mod lsregalloc;
pub mod memory;
pub mod mt;
pub mod ykpt;
pub mod regs;
pub mod sir;
pub mod tir;
pub mod ykbh;
pub mod ykcompile;
pub mod ykpack;
pub mod yksg;
