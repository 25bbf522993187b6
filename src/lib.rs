//! An interpreter for the CHIP-8 virtual machine: machine state, the
//! fetch-decode-execute step and the timer tick, each with a contract
//! over an abstract model of the machine.
pub mod machine;
pub mod model;
pub mod laws;
