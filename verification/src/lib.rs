pub mod events;
pub mod grid;
pub mod math;
pub mod pad;
pub mod sysex;
