//! A CHIP-8 virtual CPU with a pattern-based instruction decoder, its memory,
//! and the capability interfaces through which it reaches its peripherals.
//!
//! The CPU's behaviour is stated over [`semantics::ChipState`], the machine
//! state as a mathematical value: [`semantics::execute`] gives what each
//! instruction does, and [`Chip::cycle`] and [`Chip::frame`] are proved to
//! follow it for whatever the peripherals answer, making exactly the
//! peripheral calls that [`semantics::cycle_calls`] and
//! [`semantics::frame_calls`] list.

pub mod chip;
pub mod decoder;
pub mod fault;
pub mod isa;
pub mod keymap;
pub mod laws;
pub mod layout;
pub mod modulo;
pub mod peripheral;
pub mod ram;
pub mod screen;
pub mod semantics;
pub mod timing;

pub use chip::Chip;
pub use decoder::{decode, decoder_match, OpcodeMetadata};
pub use fault::Fault;
pub use isa::{chip_table, decode_instruction, Instruction};
pub use keymap::{key_from_char, select};
pub use modulo::Modulo;
pub use peripheral::{Audio, Call, CallLog, Input, Record, Timer, Video};
pub use ram::{Ram, Read, Slice, Write, RAM_SIZE};
pub use layout::{box_outline, centre_column, centre_line, centre_text, grid_origin, shorten, Placed};
pub use screen::{awaited_key, FrameBuffer, Key, KeyState};
pub use timing::{split_nanos, time_left, NANOS_PER_FRAME};
pub use semantics::{Inputs, PROGRAM_START};
