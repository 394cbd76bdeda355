pub mod idt;
pub mod keyboard;
pub mod pic;
pub mod port;
pub mod vga_buffer;
