//! Output devices: the modeled VGA text screen.

pub mod vga;
