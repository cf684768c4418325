//! A CHIP-8 interpreter core: machine state, instruction execution and the
//! display/timer/keypad logic around it, with its behaviour stated over an
//! abstract model of the machine.
pub mod model;
pub mod machine;
mod entropy;
mod execute;
pub mod peripherals;
pub mod laws;
pub mod semantics;
