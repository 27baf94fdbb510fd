//! The execution engine: one machine owning memory, registers and a
//! host-I/O capability, with single-instruction stepping and the
//! fixed-rate timer tick.

use vstd::prelude::*;

use crate::addr::Addr;
use crate::addr::FONT_START;
use crate::addr::PROGRAM_START;
use crate::decode::Instruction;
use crate::decode::spec_decode;
use crate::font::default_font;
use crate::font::spec_font;
use crate::memory::Memory4K;
use crate::memory::display_cleared;
use crate::memory::lemma_wrap_index;
use crate::memory::lemma_wrap_index_distinct;
use crate::memory::pixel_at;
use crate::memory::sprite_covers;
use crate::memory::wadd16;
use crate::memory::word_at;
use crate::memory::wrap_index;
use crate::op::Op;
use crate::registers::Registers;
use crate::syscalls::Syscalls;

verus! {

/// The whole machine state a step can observe or change, with the
/// host-I/O capability left out: it is opaque to the engine.
#[verifier::ext_equal]
pub ghost struct MachineView {
    /// General registers `V0..=VF`.
    pub v: Seq<u8>,
    /// Address register `I`.
    pub i: u16,
    /// Program counter.
    pub pc: u16,
    /// Call stack, bottom first.
    pub stack: Seq<Addr>,
    /// Delay timer.
    pub delay: u8,
    /// Sound timer.
    pub sound: u8,
    /// Whether sound is currently playing.
    pub playing: bool,
    /// All 4096 memory bytes.
    pub mem: Seq<u8>,
}

/// Why a step made no progress.  `AwaitingKey` is a retry signal; the
/// other three are fatal program errors: the engine refuses to guess at
/// malformed programs and stops instead.
#[derive(Clone, Copy, PartialEq, Eq, Structural, Debug)]
pub enum StepError {
    /// The key-wait instruction found no key available.  Nothing was
    /// mutated; retry once the host has a key.
    AwaitingKey,
    /// The fetched word is not in the instruction table.
    InvalidInstruction(u16),
    /// The legacy native-call instruction, which has no supported
    /// semantics.
    NativeCall(u16),
    /// Return was executed with an empty call stack.
    StackUnderflow,
}

impl StepError {
    /// Whether this error ends the program, as opposed to asking the
    /// caller to retry.
    pub fn is_fatal(&self) -> (r: bool)
        ensures
            r == (*self != StepError::AwaitingKey),
    {
        match self {
            StepError::AwaitingKey => false,
            _ => true,
        }
    }
}

/// `m` with the program counter replaced.
pub open spec fn with_pc(m: MachineView, pc: u16) -> MachineView {
    MachineView { pc, ..m }
}

/// `m` with the program counter advanced past the current instruction:
/// by 4 when a skip condition held, else by 2.
pub open spec fn advanced(m: MachineView, skip: bool) -> MachineView {
    MachineView { pc: wadd16(m.pc, if skip { 4 } else { 2 }), ..m }
}

/// `m` with one general register replaced.
pub open spec fn with_v(m: MachineView, x: u8, value: u8) -> MachineView {
    MachineView { v: m.v.update(x as int, value), ..m }
}

/// A byte wrapped back into `0..=255`.
pub open spec fn wrap8(n: int) -> u8 {
    (n % 256) as u8
}

/// The sprite rows a draw instruction reads: `h` bytes starting at `I`,
/// wrapping at the 12-bit boundary.
pub open spec fn sprite_rows(mem: Seq<u8>, i: u16, h: u8) -> Seq<u8> {
    Seq::new(h as nat, |k: int| mem[wrap_index(i, k)])
}

/// Whether blitting `sprite` at `(sx, sy)` turns any lit pixel off.
pub open spec fn draw_collides(mem: Seq<u8>, sx: u8, sy: u8, sprite: Seq<u8>) -> bool {
    exists|px: int, py: int|
        0 <= px < 64 && 0 <= py < 32 && sprite_covers(sx as int, sy as int, sprite, px, py)
            && pixel_at(mem, px, py)
}

/// What the host answered during one step.  At most one of the fields
/// is consulted, by the instruction that queries for it: the random
/// byte, the key report of the blocking key-wait, or the key-down
/// report of the skip instructions.
#[derive(Clone, Copy, Debug)]
pub struct HostAnswers {
    /// What `rand` returned.
    pub rand: u8,
    /// What `get_key` returned.
    pub key: Option<u8>,
    /// What `is_pressed` returned.
    pub pressed: bool,
}

/// Everything one instruction step does: how the state after (`post`)
/// and the result relate to the state before (`pre`), for the word
/// fetched at `pre.pc`, given the answers `h` the host gave.  With the
/// answers fixed the step is deterministic; which answers the host
/// actually gives is outside the model, so `try_step_single` promises
/// this relation for some `h`.
pub open spec fn step_rel(
    pre: MachineView,
    post: MachineView,
    r: Result<(), StepError>,
    h: HostAnswers,
) -> bool {
    let w = word_at(pre.mem, pre.pc);
    match spec_decode(w) {
        Instruction::CallMcs { addr } => r == Err::<(), StepError>(StepError::NativeCall(addr))
            && post == pre,
        Instruction::DisplayClear => r is Ok && post == (MachineView {
            pc: wadd16(pre.pc, 2),
            mem: display_cleared(pre.mem),
            ..pre
        }),
        Instruction::FlowReturn => if pre.stack.len() == 0 {
            r == Err::<(), StepError>(StepError::StackUnderflow) && post == pre
        } else {
            r is Ok && post == (MachineView {
                pc: pre.stack.last().0,
                stack: pre.stack.drop_last(),
                ..pre
            })
        },
        Instruction::FlowGoto { addr } => r is Ok && post == with_pc(pre, addr),
        Instruction::FlowCall { addr } => r is Ok && post == (MachineView {
            pc: addr,
            stack: pre.stack.push(Addr(wadd16(pre.pc, 2))),
            ..pre
        }),
        Instruction::SkipIfVEqC { x, c } => r is Ok && post == advanced(pre, pre.v[x as int] == c),
        Instruction::SkipIfVNeC { x, c } => r is Ok && post == advanced(pre, pre.v[x as int] != c),
        Instruction::SkipIfVEqV { x, y } => r is Ok && post == advanced(
            pre,
            pre.v[x as int] == pre.v[y as int],
        ),
        Instruction::SetVC { x, c } => r is Ok && post == advanced(with_v(pre, x, c), false),
        Instruction::AddVC { x, c } => r is Ok && post == advanced(
            with_v(pre, x, wrap8(pre.v[x as int] + c)),
            false,
        ),
        Instruction::SetVV { x, y } => r is Ok && post == advanced(
            with_v(pre, x, pre.v[y as int]),
            false,
        ),
        Instruction::BitOrVV { x, y } => r is Ok && post == advanced(
            with_v(pre, x, pre.v[x as int] | pre.v[y as int]),
            false,
        ),
        Instruction::BitAndVV { x, y } => r is Ok && post == advanced(
            with_v(pre, x, pre.v[x as int] & pre.v[y as int]),
            false,
        ),
        Instruction::BitXorVV { x, y } => r is Ok && post == advanced(
            with_v(pre, x, pre.v[x as int] ^ pre.v[y as int]),
            false,
        ),
        Instruction::AddVV { x, y } => r is Ok && post == advanced(
            with_v(
                with_v(pre, x, wrap8(pre.v[x as int] + pre.v[y as int])),
                15,
                (if pre.v[x as int] + pre.v[y as int] > 255 {
                    1u8
                } else {
                    0u8
                }),
            ),
            false,
        ),
        Instruction::SubVV { x, y } => r is Ok && post == advanced(
            with_v(
                with_v(pre, x, wrap8(pre.v[x as int] - pre.v[y as int])),
                15,
                (if pre.v[x as int] >= pre.v[y as int] {
                    1u8
                } else {
                    0u8
                }),
            ),
            false,
        ),
        Instruction::Shr1V { x, y } => r is Ok && post == advanced(
            with_v(with_v(pre, x, pre.v[y as int] >> 1u8), 15, pre.v[y as int] & 1),
            false,
        ),
        Instruction::SubVVAlt { x, y } => r is Ok && post == advanced(
            with_v(
                with_v(pre, x, wrap8(pre.v[y as int] - pre.v[x as int])),
                15,
                (if pre.v[y as int] >= pre.v[x as int] {
                    1u8
                } else {
                    0u8
                }),
            ),
            false,
        ),
        Instruction::Shl1V { x, y } => r is Ok && post == advanced(
            with_v(with_v(pre, x, wrap8(pre.v[y as int] * 2)), 15, pre.v[y as int] & 0x80),
            false,
        ),
        Instruction::SkipIfVNeV { x, y } => r is Ok && post == advanced(
            pre,
            pre.v[x as int] != pre.v[y as int],
        ),
        Instruction::SetIC { addr } => r is Ok && post == (MachineView {
            i: addr,
            pc: wadd16(pre.pc, 2),
            ..pre
        }),
        Instruction::SetPcV0PlusC { addr } => r is Ok && post == with_pc(
            pre,
            (((pre.v[0] + addr) as u16) & 0xFFF) as u16,
        ),
        Instruction::SetVRandMask { x, mask } => r is Ok && post == advanced(
            with_v(pre, x, h.rand & mask),
            false,
        ),
        Instruction::DrawXYH { x, y, h } => {
            let sx = pre.v[x as int];
            let sy = pre.v[y as int];
            let sprite = sprite_rows(pre.mem, pre.i, h);
            let hit = draw_collides(pre.mem, sx, sy, sprite);
            &&& r is Ok
            &&& post.v == pre.v.update(15, if hit { 1u8 } else { 0u8 })
            &&& post.i == pre.i
            &&& post.pc == wadd16(pre.pc, 2)
            &&& post.stack == pre.stack
            &&& post.delay == pre.delay
            &&& post.sound == pre.sound
            &&& post.playing == pre.playing
            &&& post.mem.len() == 4096
            &&& forall|a: int|
                0 <= a < 4096 && !(0xF00 <= a < 4096) ==> post.mem[a] == pre.mem[a]
            &&& forall|px: int, py: int|
                0 <= px < 64 && 0 <= py < 32 ==> pixel_at(post.mem, px, py) == (pixel_at(
                    pre.mem,
                    px,
                    py,
                ) != sprite_covers(sx as int, sy as int, sprite, px, py))
        },
        Instruction::SkipIfPressed { x } => r is Ok && post == advanced(pre, h.pressed),
        Instruction::SkipUnlessPressed { x } => r is Ok && post == advanced(pre, !h.pressed),
        Instruction::GetDelayTimer { x } => r is Ok && post == advanced(
            with_v(pre, x, pre.delay),
            false,
        ),
        Instruction::AwaitKey { x } => match h.key {
            None => r == Err::<(), StepError>(StepError::AwaitingKey) && post == pre,
            Some(k) => r is Ok && post == advanced(with_v(pre, x, k), false),
        },
        Instruction::SetDelayTimer { x } => r is Ok && post == (MachineView {
            delay: pre.v[x as int],
            pc: wadd16(pre.pc, 2),
            ..pre
        }),
        Instruction::SetSoundTimer { x } => r is Ok && post == (MachineView {
            sound: pre.v[x as int],
            pc: wadd16(pre.pc, 2),
            ..pre
        }),
        Instruction::AddIV { x } => r is Ok && post == (MachineView {
            i: wadd16(pre.i, pre.v[x as int] as u16),
            pc: wadd16(pre.pc, 2),
            ..pre
        }),
        Instruction::SetISprite { x } => r is Ok && post == (MachineView {
            i: (pre.v[x as int] * 5) as u16,
            pc: wadd16(pre.pc, 2),
            ..pre
        }),
        Instruction::SetIBcd { x } => {
            let val = pre.v[x as int];
            r is Ok && post == (MachineView {
                pc: wadd16(pre.pc, 2),
                mem: pre.mem.update(wrap_index(pre.i, 0), val / 100).update(
                    wrap_index(pre.i, 1),
                    (val / 10) % 10,
                ).update(wrap_index(pre.i, 2), val % 10),
                ..pre
            })
        },
        Instruction::RegDump { x } => {
            &&& r is Ok
            &&& post.v == pre.v
            &&& post.i == pre.i
            &&& post.pc == wadd16(pre.pc, 2)
            &&& post.stack == pre.stack
            &&& post.delay == pre.delay
            &&& post.sound == pre.sound
            &&& post.playing == pre.playing
            &&& post.mem.len() == 4096
            &&& forall|k: int| 0 <= k <= x ==> post.mem[wrap_index(pre.i, k)] == pre.v[k]
            &&& forall|a: int|
                0 <= a < 4096 && !(exists|k: int| 0 <= k <= x && a == wrap_index(pre.i, k))
                    ==> post.mem[a] == pre.mem[a]
        },
        Instruction::RegLoad { x } => {
            &&& r is Ok
            &&& post.v.len() == 16
            &&& forall|k: int| 0 <= k <= x ==> post.v[k] == pre.mem[wrap_index(pre.i, k)]
            &&& forall|k: int| x < k < 16 ==> post.v[k] == pre.v[k]
            &&& post.i == pre.i
            &&& post.pc == wadd16(pre.pc, 2)
            &&& post.stack == pre.stack
            &&& post.delay == pre.delay
            &&& post.sound == pre.sound
            &&& post.playing == pre.playing
            &&& post.mem == pre.mem
        },
        Instruction::Invalid { word } => r == Err::<(), StepError>(
            StepError::InvalidInstruction(word),
        ) && post == pre,
    }
}

/// Some host answers let one step go from `pre` to `post` successfully.
pub open spec fn can_step_ok(pre: MachineView, post: MachineView) -> bool {
    exists|h: HostAnswers| step_rel(pre, post, Ok(()), h)
}

/// For some host answers the next step of `m` makes no progress: it is
/// blocked on a key or fatally stuck, and mutates nothing.
pub open spec fn can_step_err(m: MachineView) -> bool {
    exists|e: StepError, h: HostAnswers| step_rel(m, m, Err::<(), StepError>(e), h)
}

/// `trace` is a run: each entry steps to the next successfully.
pub open spec fn is_run(trace: Seq<MachineView>) -> bool {
    forall|i: int| 0 <= i < trace.len() - 1 ==> #[trigger] can_step_ok(trace[i], trace[i + 1])
}

/// One timer tick, exactly as `step_clocks` performs it: both timers
/// decremented saturating at zero, the playing flag recomputed from the
/// decremented sound timer, everything else untouched.
pub open spec fn ticked(pre: MachineView, post: MachineView) -> bool {
    &&& post.delay == (if pre.delay == 0 {
        0u8
    } else {
        (pre.delay - 1) as u8
    })
    &&& post.sound == (if pre.sound == 0 {
        0u8
    } else {
        (pre.sound - 1) as u8
    })
    &&& post.playing == (post.sound > 0)
    &&& post.v == pre.v
    &&& post.i == pre.i
    &&& post.pc == pre.pc
    &&& post.stack == pre.stack
    &&& post.mem == pre.mem
}

/// `post` follows from `pre` by a full batch of `n` successful
/// instruction steps — or fewer only if the machine then stands blocked
/// or fatally stuck — and then exactly one timer tick.
pub open spec fn ticked_after_steps(pre: MachineView, post: MachineView, n: nat) -> bool {
    exists|trace: Seq<MachineView>|
        1 <= trace.len() <= n + 1 && trace.first() == pre && is_run(trace) && (trace.len() < n + 1
            ==> can_step_err(trace.last())) && ticked(trace.last(), post)
}

/// A step that fails leaves the machine exactly as it was.
pub proof fn lemma_step_err_unchanged(
    pre: MachineView,
    post: MachineView,
    e: StepError,
    h: HostAnswers,
)
    requires
        step_rel(pre, post, Err::<(), StepError>(e), h),
    ensures
        post == pre,
        step_rel(post, post, Err::<(), StepError>(e), h),
{
}

/// A machine whose next instruction is a jump to its own address: the
/// tightest infinite loop a program can write.
pub open spec fn goto_self(m: MachineView) -> bool {
    spec_decode(word_at(m.mem, m.pc)) == (Instruction::FlowGoto { addr: m.pc })
}

/// The decimal digits of a byte: hundreds, tens, ones.
pub fn bcd(b: u8) -> (r: [u8; 3])
    ensures
        r@[0] == b / 100,
        r@[1] == (b / 10) % 10,
        r@[2] == b % 10,
{
    [b / 100, (b / 10) % 10, b % 10]
}

/// An execution context: memory, registers, and the host capability it
/// calls through.
pub struct Context<S: Syscalls> {
    /// The register file.
    pub registers: Registers,
    /// The 4 KiB memory, framebuffer included.
    pub memory: Memory4K,
    /// The host-I/O capability.
    pub syscalls: S,
}

impl<S: Syscalls> View for Context<S> {
    type V = MachineView;

    open spec fn view(&self) -> MachineView {
        MachineView {
            v: self.registers.v@,
            i: self.registers.i.0,
            pc: self.registers.pc.0,
            stack: self.registers.stack@,
            delay: self.registers.delay_timer,
            sound: self.registers.sound_timer,
            playing: self.registers.sound_playing,
            mem: self.memory@,
        }
    }
}

/// The state of a freshly created machine: everything zero except the
/// program counter at the load address and the font in low memory.
pub open spec fn initial_view(m: MachineView) -> bool {
    &&& m.v == Seq::new(16, |k: int| 0u8)
    &&& m.i == 0
    &&& m.pc == PROGRAM_START
    &&& m.stack.len() == 0
    &&& m.delay == 0
    &&& m.sound == 0
    &&& !m.playing
    &&& m.mem.len() == 4096
    &&& forall|a: int| 0 <= a < 80 ==> m.mem[a] == spec_font()[a]
    &&& forall|a: int| 80 <= a < 4096 ==> m.mem[a] == 0
}

impl<S: Syscalls> Context<S> {
    /// A machine in its power-on state, owning the given host
    /// capability: zeroed memory with the font seeded at its base, and
    /// the program counter at the load address.
    pub fn new(syscalls: S) -> (r: Context<S>)
        ensures
            initial_view(r@),
    {
        let mut memory = Memory4K::new();
        let font = default_font();
        let loaded = memory.copy_from_slice(Addr(FONT_START), font.as_slice());
        proof {
            assert(loaded is Ok);
        }
        let registers = Registers::new();
        Context { registers, memory, syscalls }
    }

    /// Read a general register.
    fn get_vreg(&self, x: u8) -> (r: u8)
        requires
            x < 16,
        ensures
            r == self@.v[x as int],
    {
        self.registers.v[x as usize]
    }

    /// Write a general register; nothing else changes.
    fn set_vreg(&mut self, x: u8, value: u8)
        requires
            x < 16,
        ensures
            final(self)@ == with_v(old(self)@, x, value),
            final(self).syscalls == old(self).syscalls,
    {
        self.registers.v[x as usize] = value;
        proof {
            assert(self@ =~= with_v(old(self)@, x, value));
        }
    }

    /// Advance the program counter past the current instruction.
    fn advance_pc(&mut self, skip: bool)
        ensures
            final(self)@ == advanced(old(self)@, skip),
            final(self).syscalls == old(self).syscalls,
    {
        let n: u16 = if skip {
            4
        } else {
            2
        };
        self.registers.pc = Addr(self.registers.pc.0.wrapping_add(n));
        proof {
            assert(self@ =~= advanced(old(self)@, skip));
        }
    }

    /// Fetch, decode and execute exactly one instruction, with the
    /// host's answers already in hand as plain values.  Given those
    /// answers the outcome is fully determined: `step_rel` says, case
    /// by case, what is returned and what the state becomes — in
    /// particular that the key-wait blocks exactly when no key was
    /// reported, and that the two key-skip forms test opposite
    /// polarities of the key-down report.
    #[verifier::rlimit(100)]
    #[verifier::spinoff_prover]
    pub fn step_with_answers(&mut self, answers: HostAnswers) -> (r: Result<(), StepError>)
        ensures
            step_rel(old(self)@, final(self)@, r, answers),
            final(self).syscalls == old(self).syscalls,
    {
        let w = self.memory.read16(self.registers.pc);
        match Op(w).decode() {
            Instruction::CallMcs { addr } => Err(StepError::NativeCall(addr)),
            Instruction::DisplayClear => {
                self.memory.clear_display();
                self.advance_pc(false);
                Ok(())
            },
            Instruction::FlowReturn => {
                match self.registers.stack.pop() {
                    Some(a) => {
                        self.registers.pc = a;
                        proof {
                            assert(self@ =~= (MachineView {
                                pc: old(self)@.stack.last().0,
                                stack: old(self)@.stack.drop_last(),
                                ..old(self)@
                            }));
                        }
                        Ok(())
                    },
                    None => Err(StepError::StackUnderflow),
                }
            },
            Instruction::FlowGoto { addr } => {
                self.registers.pc = Addr(addr);
                proof {
                    assert(self@ =~= with_pc(old(self)@, addr));
                }
                Ok(())
            },
            Instruction::FlowCall { addr } => {
                let ret = Addr(self.registers.pc.0.wrapping_add(2));
                self.registers.stack.push(ret);
                self.registers.pc = Addr(addr);
                proof {
                    assert(self@ =~= (MachineView {
                        pc: addr,
                        stack: old(self)@.stack.push(Addr(wadd16(old(self)@.pc, 2))),
                        ..old(self)@
                    }));
                }
                Ok(())
            },
            Instruction::SkipIfVEqC { x, c } => {
                let skip = self.get_vreg(x) == c;
                self.advance_pc(skip);
                Ok(())
            },
            Instruction::SkipIfVNeC { x, c } => {
                let skip = self.get_vreg(x) != c;
                self.advance_pc(skip);
                Ok(())
            },
            Instruction::SkipIfVEqV { x, y } => {
                let skip = self.get_vreg(x) == self.get_vreg(y);
                self.advance_pc(skip);
                Ok(())
            },
            Instruction::SetVC { x, c } => {
                self.set_vreg(x, c);
                self.advance_pc(false);
                Ok(())
            },
            Instruction::AddVC { x, c } => {
                let v = self.get_vreg(x).wrapping_add(c);
                self.set_vreg(x, v);
                self.advance_pc(false);
                Ok(())
            },
            Instruction::SetVV { x, y } => {
                let v = self.get_vreg(y);
                self.set_vreg(x, v);
                self.advance_pc(false);
                Ok(())
            },
            Instruction::BitOrVV { x, y } => {
                let v = self.get_vreg(x) | self.get_vreg(y);
                self.set_vreg(x, v);
                self.advance_pc(false);
                Ok(())
            },
            Instruction::BitAndVV { x, y } => {
                let v = self.get_vreg(x) & self.get_vreg(y);
                self.set_vreg(x, v);
                self.advance_pc(false);
                Ok(())
            },
            Instruction::BitXorVV { x, y } => {
                let v = self.get_vreg(x) ^ self.get_vreg(y);
                self.set_vreg(x, v);
                self.advance_pc(false);
                Ok(())
            },
            Instruction::AddVV { x, y } => {
                let a = self.get_vreg(x);
                let b = self.get_vreg(y);
                let carry: u8 = if a as u16 + b as u16 > 255 {
                    1
                } else {
                    0
                };
                self.set_vreg(x, a.wrapping_add(b));
                self.set_vreg(15, carry);
                self.advance_pc(false);
                Ok(())
            },
            Instruction::SubVV { x, y } => {
                let a = self.get_vreg(x);
                let b = self.get_vreg(y);
                let no_borrow: u8 = if a >= b {
                    1
                } else {
                    0
                };
                self.set_vreg(x, a.wrapping_sub(b));
                self.set_vreg(15, no_borrow);
                self.advance_pc(false);
                Ok(())
            },
            Instruction::Shr1V { x, y } => {
                let b = self.get_vreg(y);
                self.set_vreg(x, b >> 1u8);
                self.set_vreg(15, b & 1);
                self.advance_pc(false);
                Ok(())
            },
            Instruction::SubVVAlt { x, y } => {
                let a = self.get_vreg(x);
                let b = self.get_vreg(y);
                let no_borrow: u8 = if b >= a {
                    1
                } else {
                    0
                };
                self.set_vreg(x, b.wrapping_sub(a));
                self.set_vreg(15, no_borrow);
                self.advance_pc(false);
                Ok(())
            },
            Instruction::Shl1V { x, y } => {
                let b = self.get_vreg(y);
                self.set_vreg(x, b.wrapping_mul(2));
                self.set_vreg(15, b & 0x80);
                self.advance_pc(false);
                Ok(())
            },
            Instruction::SkipIfVNeV { x, y } => {
                let skip = self.get_vreg(x) != self.get_vreg(y);
                self.advance_pc(skip);
                Ok(())
            },
            Instruction::SetIC { addr } => {
                self.registers.i = Addr(addr);
                self.advance_pc(false);
                proof {
                    assert(self@ =~= (MachineView {
                        i: addr,
                        pc: wadd16(old(self)@.pc, 2),
                        ..old(self)@
                    }));
                }
                Ok(())
            },
            Instruction::SetPcV0PlusC { addr } => {
                let v0 = self.get_vreg(0);
                self.registers.pc = Addr((v0 as u16 + addr) & 0xFFF);
                proof {
                    assert(self@ =~= with_pc(
                        old(self)@,
                        (((old(self)@.v[0] + addr) as u16) & 0xFFF) as u16,
                    ));
                }
                Ok(())
            },
            Instruction::SetVRandMask { x, mask } => {
                self.set_vreg(x, answers.rand & mask);
                self.advance_pc(false);
                Ok(())
            },
            Instruction::DrawXYH { x, y, h } => {
                let sx = self.get_vreg(x);
                let sy = self.get_vreg(y);
                let mut sprite: Vec<u8> = Vec::new();
                let mut k: u8 = 0;
                while k < h
                    invariant
                        k <= h,
                        sprite@.len() == k as int,
                        self == old(self),
                        forall|j: int|
                            0 <= j < k as int ==> sprite@[j] == self@.mem[wrap_index(self@.i, j)],
                    decreases h - k,
                {
                    proof {
                        lemma_wrap_index(self@.i, k as int);
                    }
                    let b = self.memory.read(Addr(self.registers.i.0.wrapping_add(k as u16)));
                    sprite.push(b);
                    k = k + 1;
                }
                proof {
                    assert(sprite@ =~= sprite_rows(old(self)@.mem, old(self)@.i, h));
                }
                let hit = self.memory.draw_sprite(sx as usize, sy as usize, sprite.as_slice());
                self.set_vreg(15, if hit {
                    1
                } else {
                    0
                });
                self.advance_pc(false);
                Ok(())
            },
            Instruction::SkipIfPressed { x } => {
                self.advance_pc(answers.pressed);
                Ok(())
            },
            Instruction::SkipUnlessPressed { x } => {
                self.advance_pc(!answers.pressed);
                Ok(())
            },
            Instruction::GetDelayTimer { x } => {
                let d = self.registers.delay_timer;
                self.set_vreg(x, d);
                self.advance_pc(false);
                Ok(())
            },
            Instruction::AwaitKey { x } => {
                match answers.key {
                    Some(k) => {
                        self.set_vreg(x, k);
                        self.advance_pc(false);
                        Ok(())
                    },
                    None => Err(StepError::AwaitingKey),
                }
            },
            Instruction::SetDelayTimer { x } => {
                self.registers.delay_timer = self.get_vreg(x);
                self.advance_pc(false);
                proof {
                    assert(self@ =~= (MachineView {
                        delay: old(self)@.v[x as int],
                        pc: wadd16(old(self)@.pc, 2),
                        ..old(self)@
                    }));
                }
                Ok(())
            },
            Instruction::SetSoundTimer { x } => {
                self.registers.sound_timer = self.get_vreg(x);
                self.advance_pc(false);
                proof {
                    assert(self@ =~= (MachineView {
                        sound: old(self)@.v[x as int],
                        pc: wadd16(old(self)@.pc, 2),
                        ..old(self)@
                    }));
                }
                Ok(())
            },
            Instruction::AddIV { x } => {
                let v = self.get_vreg(x);
                self.registers.i = Addr(self.registers.i.0.wrapping_add(v as u16));
                self.advance_pc(false);
                proof {
                    assert(self@ =~= (MachineView {
                        i: wadd16(old(self)@.i, old(self)@.v[x as int] as u16),
                        pc: wadd16(old(self)@.pc, 2),
                        ..old(self)@
                    }));
                }
                Ok(())
            },
            Instruction::SetISprite { x } => {
                let v = self.get_vreg(x);
                self.registers.i = Addr(v as u16 * 5);
                self.advance_pc(false);
                proof {
                    assert(self@ =~= (MachineView {
                        i: (old(self)@.v[x as int] * 5) as u16,
                        pc: wadd16(old(self)@.pc, 2),
                        ..old(self)@
                    }));
                }
                Ok(())
            },
            Instruction::SetIBcd { x } => {
                let digits = bcd(self.get_vreg(x));
                let i0 = self.registers.i;
                proof {
                    lemma_wrap_index(old(self)@.i, 0);
                    lemma_wrap_index(old(self)@.i, 1);
                    lemma_wrap_index(old(self)@.i, 2);
                }
                self.memory.write(i0, digits[0]);
                self.memory.write(Addr(i0.0.wrapping_add(1)), digits[1]);
                self.memory.write(Addr(i0.0.wrapping_add(2)), digits[2]);
                self.advance_pc(false);
                proof {
                    let val = old(self)@.v[x as int];
                    assert(self@ =~= (MachineView {
                        pc: wadd16(old(self)@.pc, 2),
                        mem: old(self)@.mem.update(wrap_index(old(self)@.i, 0), val / 100).update(
                            wrap_index(old(self)@.i, 1),
                            (val / 10) % 10,
                        ).update(wrap_index(old(self)@.i, 2), val % 10),
                        ..old(self)@
                    }));
                }
                Ok(())
            },
            Instruction::RegDump { x } => {
                let mut k: u8 = 0;
                while k <= x
                    invariant
                        x < 16,
                        k <= x + 1,
                        self@.v == old(self)@.v,
                        self@.i == old(self)@.i,
                        self@.pc == old(self)@.pc,
                        self@.stack == old(self)@.stack,
                        self@.delay == old(self)@.delay,
                        self@.sound == old(self)@.sound,
                        self@.playing == old(self)@.playing,
                        self.syscalls == old(self).syscalls,
                        self@.mem.len() == 4096,
                        forall|j: int|
                            0 <= j < k as int ==> self@.mem[wrap_index(old(self)@.i, j)]
                                == old(self)@.v[j],
                        forall|a: int|
                            0 <= a < 4096 && !(exists|j: int|
                                0 <= j < k as int && a == wrap_index(old(self)@.i, j))
                                ==> self@.mem[a] == old(self)@.mem[a],
                    decreases x + 1 - k,
                {
                    proof {
                        lemma_wrap_index(old(self)@.i, k as int);
                    }
                    let v = self.get_vreg(k);
                    self.memory.write(Addr(self.registers.i.0.wrapping_add(k as u16)), v);
                    proof {
                        assert forall|j: int|
                            0 <= j < k as int + 1 implies self@.mem[wrap_index(old(self)@.i, j)]
                            == old(self)@.v[j] by {
                            if j < k as int {
                                lemma_wrap_index(old(self)@.i, j);
                                lemma_wrap_index_distinct(old(self)@.i, j, k as int);
                            }
                        }
                    }
                    k = k + 1;
                }
                self.advance_pc(false);
                Ok(())
            },
            Instruction::RegLoad { x } => {
                let mut k: u8 = 0;
                while k <= x
                    invariant
                        x < 16,
                        k <= x + 1,
                        self@.v.len() == 16,
                        forall|j: int|
                            0 <= j < k as int ==> self@.v[j] == old(self)@.mem[wrap_index(
                                old(self)@.i,
                                j,
                            )],
                        forall|j: int| k as int <= j < 16 ==> self@.v[j] == old(self)@.v[j],
                        self@.i == old(self)@.i,
                        self@.pc == old(self)@.pc,
                        self@.stack == old(self)@.stack,
                        self@.delay == old(self)@.delay,
                        self@.sound == old(self)@.sound,
                        self@.playing == old(self)@.playing,
                        self@.mem == old(self)@.mem,
                        self.syscalls == old(self).syscalls,
                    decreases x + 1 - k,
                {
                    proof {
                        lemma_wrap_index(old(self)@.i, k as int);
                    }
                    let b = self.memory.read(Addr(self.registers.i.0.wrapping_add(k as u16)));
                    self.set_vreg(k, b);
                    k = k + 1;
                }
                self.advance_pc(false);
                Ok(())
            },
            Instruction::Invalid { word } => Err(StepError::InvalidInstruction(word)),
        }
    }

    /// Fetch, decode and execute exactly one instruction, querying the
    /// host for the one answer the instruction needs, if any.
    ///
    /// The outcome satisfies `step_rel` for the answers the host gave;
    /// since those are outside the model, the contract binds them
    /// existentially.  `step_with_answers` carries the exact per-answer
    /// contract.  On `Err`, nothing has changed: a blocked key-wait can
    /// be retried freely, and a fatal error leaves the machine at the
    /// offending instruction.
    pub fn try_step_single(&mut self) -> (r: Result<(), StepError>)
        ensures
            exists|h: HostAnswers| step_rel(old(self)@, final(self)@, r, h),
            r is Err ==> final(self)@ == old(self)@,
            final(self).syscalls == old(self).syscalls,
    {
        let w = self.memory.read16(self.registers.pc);
        let answers = match Op(w).decode() {
            Instruction::SetVRandMask { x, mask } => HostAnswers {
                rand: self.syscalls.rand(),
                key: None,
                pressed: false,
            },
            Instruction::AwaitKey { x } => HostAnswers {
                rand: 0,
                key: self.syscalls.get_key(),
                pressed: false,
            },
            Instruction::SkipIfPressed { x } => {
                let key = self.get_vreg(x);
                HostAnswers { rand: 0, key: None, pressed: self.syscalls.is_pressed(key) }
            },
            Instruction::SkipUnlessPressed { x } => {
                let key = self.get_vreg(x);
                HostAnswers { rand: 0, key: None, pressed: self.syscalls.is_pressed(key) }
            },
            _ => HostAnswers { rand: 0, key: None, pressed: false },
        };
        let r = self.step_with_answers(answers);
        proof {
            assert(step_rel(old(self)@, self@, r, answers));
            if let Err(e) = r {
                lemma_step_err_unchanged(old(self)@, self@, e, answers);
            }
        }
        r
    }

    /// Run up to `steps` instructions, stopping early the first time a
    /// step makes no progress.  Returns how many steps completed, which
    /// may be zero; no instruction is ever partially executed.
    ///
    /// The result is a run: a chain of exactly `r` successful steps
    /// leads from the old state to the new one, and when fewer than
    /// `steps` completed, the next step fails without mutating.  A
    /// program that sits in a jump-to-itself loop never fails and never
    /// changes state, however many steps are asked for.
    pub fn try_step_many(&mut self, steps: usize) -> (r: usize)
        ensures
            r <= steps,
            final(self).syscalls == old(self).syscalls,
            exists|trace: Seq<MachineView>|
                trace.len() == r + 1 && trace.first() == old(self)@ && is_run(trace)
                    && trace.last() == final(self)@,
            r < steps ==> can_step_err(final(self)@),
            goto_self(old(self)@) ==> r == steps && final(self)@ == old(self)@,
    {
        let mut done: usize = 0;
        let ghost mut trace: Seq<MachineView> = seq![self@];
        while done < steps
            invariant
                done <= steps,
                self.syscalls == old(self).syscalls,
                goto_self(old(self)@) ==> self@ == old(self)@,
                trace.len() == done + 1,
                trace.first() == old(self)@,
                trace.last() == self@,
                is_run(trace),
            decreases steps - done,
        {
            let ghost pre = self@;
            let res = self.try_step_single();
            match res {
                Ok(_) => {
                    proof {
                        let h = choose|h: HostAnswers| step_rel(pre, self@, res, h);
                        assert(step_rel(pre, self@, Ok::<(), StepError>(()), h));
                        assert(can_step_ok(pre, self@));
                        if goto_self(old(self)@) {
                            assert(with_pc(pre, pre.pc) =~= pre);
                        }
                        trace = trace.push(self@);
                    }
                },
                Err(e) => {
                    proof {
                        let h = choose|h: HostAnswers| step_rel(pre, self@, res, h);
                        lemma_step_err_unchanged(pre, self@, e, h);
                        assert(can_step_err(self@));
                        if goto_self(old(self)@) {
                            assert(false);
                        }
                    }
                    return done;
                },
            }
            done = done + 1;
        }
        done
    }

    /// One clock tick: decrement both timers, saturating at zero, then
    /// recompute whether sound should play from the decremented value
    /// (so a timer of 1 never becomes audible) and fire the host's
    /// start/stop callback only when that answer changes.
    pub fn step_clocks(&mut self)
        ensures
            ticked(old(self)@, final(self)@),
            final(self).syscalls == old(self).syscalls,
    {
        self.registers.delay_timer = self.registers.delay_timer.saturating_sub(1);
        self.registers.sound_timer = self.registers.sound_timer.saturating_sub(1);
        let should_play = self.registers.sound_timer > 0;
        if self.registers.sound_playing && !should_play {
            self.syscalls.sound_stop();
        } else if !self.registers.sound_playing && should_play {
            self.syscalls.sound_play();
        }
        self.registers.sound_playing = should_play;
    }

    /// Hand the host a render snapshot of the framebuffer.
    pub fn render_screen(&self)
    {
        let screen = self.memory.screen_bytes();
        self.syscalls.render(screen.as_slice());
    }
}

} // verus!
