pub mod emu_data;
pub mod error;
pub mod frame_buffer;
pub mod frequency;
pub mod registers;
