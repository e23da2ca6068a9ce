//! Interpreter core of a handheld console's ARM7TDMI processor: decode tables,
//! condition evaluation, barrel shifter and ALU, register banking, status
//! register transfer, the instruction handlers and the two-stage pipeline,
//! with the memory bus, event scheduler and video timing around it.
pub mod arm7;
pub mod gba;
pub mod memory;
pub mod scheduler;
pub mod video;
