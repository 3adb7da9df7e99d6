pub mod flags;
pub mod keyboard;
pub mod bus;
pub mod cpu;
pub mod display;
pub mod machine;

pub use machine::ZxSpectrum;
