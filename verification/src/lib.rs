//! A verified CHIP-8 virtual-machine core: instruction decoding, the
//! fetch/decode/execute engine, the 4 KiB memory with its aliased
//! monochrome framebuffer, registers and timers, and a host-I/O
//! capability boundary for randomness, keys and sound.

mod addr;
mod context;
mod decode;
mod disasm;
mod font;
mod memory;
mod nibble;
mod op;
mod pool;
mod registers;
mod syscalls;
mod v;

pub use addr::Addr;
pub use addr::DISPLAY_START;
pub use addr::FONT_END;
pub use addr::FONT_START;
pub use addr::FONT_TYPICAL_START;
pub use addr::MEM_SIZE;
pub use addr::PROGRAM_START;
pub use addr::PROGRAM_START_ETI_660;
pub use addr::STACK_REGION_START;
pub use context::Context;
pub use context::HostAnswers;
pub use context::can_step_err;
pub use context::can_step_ok;
pub use context::goto_self;
pub use context::is_run;
pub use context::ticked;
pub use context::ticked_after_steps;
pub use context::MachineView;
pub use context::StepError;
pub use context::bcd;
pub use context::step_rel;
pub use decode::Instruction;
pub use font::default_font;
pub use memory::Memory4K;
pub use nibble::Nibble;
pub use op::Op;
pub use pool::ContextId;
pub use pool::ContextPool;
pub use pool::schedule_ticks;
pub use registers::Registers;
pub use syscalls::Syscalls;
pub use v::V;
