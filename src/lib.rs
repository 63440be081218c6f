//! A CHIP-8 interpreter core: the machine state, the fetch/decode/execute
//! cycle and the timers, each operation with a proved contract over an
//! abstract model of the machine.

pub mod cpu;
pub mod laws;
pub mod machine;
