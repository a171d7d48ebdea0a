pub mod channel;
pub mod position;
pub mod shared_mem;
pub mod ring_math;
pub mod rounding;
pub mod sync;
pub mod vmcircbuffer;
