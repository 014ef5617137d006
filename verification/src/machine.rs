//! The execution engine: fetch, decode, execute.
//!
//! The machine owns the register bank, the memory, the framebuffer and the
//! input latch. One `step` reads the word at the program counter, decodes it
//! and executes it; the instruction reports how the program counter moves
//! (advance one word, skip one, already jumped, or wait for a key).
//!
//! The effect of every instruction is stated by [`exec_post`], and the effect
//! of a whole cycle by [`step_post`].

use vstd::prelude::*;

use crate::cpu::{same_flow, same_regs, same_regs_except, same_rng, same_timers, Cpu, CpuError};
use crate::decoder::{accepted, decodes_to, DecodeError, Instruction};
use crate::display::{col_of, draw_post, row_of, sprite_bit, Display, DisplayError};
use crate::keypad::{Keypad, KeypadError};
use crate::memory::{word_at, Memory, MemoryError, PROGRAM_START};
use crate::types::Index;

verus! {

/// How the program counter moves after an instruction executes.
#[derive(Debug, Clone, Copy, PartialEq, Eq, Structural)]
pub enum ExecResult {
    /// Move to the next instruction word.
    Advance,
    /// The instruction set the program counter itself; leave it.
    Jumped,
    /// Waiting on a key; leave the program counter so the instruction runs
    /// again next cycle.
    Wait,
    /// Skip over the next instruction word.
    Skip,
}

/// Every way a cycle can fail, each sub-component's errors wrapped verbatim.
#[derive(Debug, Clone, Copy, PartialEq, Eq, Structural)]
pub enum Chip8Error {
    /// A register-bank error.
    CpuError(CpuError),
    /// A memory error.
    MemoryError(MemoryError),
    /// A framebuffer error.
    DisplayError(DisplayError),
    /// An input-latch error.
    KeypadError(KeypadError),
    /// An instruction-decoding error.
    DecodeError(DecodeError),
    /// A legacy native-routine call: never supported, by design.
    UnsupportedInstruction,
}

/// The whole machine.
pub struct Chip8 {
    /// The register and stack bank.
    pub cpu: Cpu,
    /// The 4096-byte memory.
    pub memory: Memory,
    /// The 64x32 framebuffer.
    pub display: Display,
    /// The sixteen-key input latch.
    pub keypad: Keypad,
}

/// Both machines hold the same memory contents.
pub open spec fn same_mem(a: Chip8, b: Chip8) -> bool {
    b.memory@ == a.memory@
}

/// Both machines light the same framebuffer cells.
pub open spec fn same_display(a: Chip8, b: Chip8) -> bool {
    forall|x: int, y: int|
        0 <= x < 64 && 0 <= y < 32 ==> b.display.pixel(x, y) == a.display.pixel(x, y)
}

/// Both machines hold the same key states.
pub open spec fn same_keys(a: Chip8, b: Chip8) -> bool {
    forall|k: int| 0 <= k < 16 ==> b.keypad.pressed(k) == a.keypad.pressed(k)
}

/// Nothing outside the register bank differs.
pub open spec fn non_cpu_unchanged(a: Chip8, b: Chip8) -> bool {
    same_mem(a, b) && same_display(a, b) && same_keys(a, b)
}

/// Nothing observable differs at all.
pub open spec fn machine_unchanged(a: Chip8, b: Chip8) -> bool {
    &&& same_regs(a.cpu, b.cpu)
    &&& same_flow(a.cpu, b.cpu)
    &&& same_timers(a.cpu, b.cpu)
    &&& same_rng(a.cpu, b.cpu)
    &&& non_cpu_unchanged(a, b)
}

/// Nothing observable differs, except that the program counter is not
/// constrained: the form of "unchanged" for outcomes whose program-counter
/// move is applied by the caller of `execute`.
pub open spec fn machine_same_but_pc(a: Chip8, b: Chip8) -> bool {
    &&& same_regs(a.cpu, b.cpu)
    &&& same_addr_stack(a, b)
    &&& same_timers(a.cpu, b.cpu)
    &&& same_rng(a.cpu, b.cpu)
    &&& non_cpu_unchanged(a, b)
}

/// Register `x` now holds `v`; every other register is untouched.
pub open spec fn regs_set1(a: Chip8, b: Chip8, x: int, v: u8) -> bool {
    forall|i: int|
        0 <= i < 16 ==> b.cpu.reg(i) == (if i == x {
            v
        } else {
            a.cpu.reg(i)
        })
}

/// Register `x` received `v`, then the flag register VF received `f`: when
/// `x` is 15 the flag write wins, as the flag is always written last.
pub open spec fn regs_set_with_flag(a: Chip8, b: Chip8, x: int, v: u8, f: u8) -> bool {
    forall|i: int|
        0 <= i < 16 ==> b.cpu.reg(i) == (if i == 15 {
            f
        } else if i == x {
            v
        } else {
            a.cpu.reg(i)
        })
}

/// The address register and the stack are untouched.
pub open spec fn same_addr_stack(a: Chip8, b: Chip8) -> bool {
    b.cpu.addr() == a.cpu.addr() && b.cpu.stack_seq() == a.cpu.stack_seq()
}

/// Everything but the sixteen registers is untouched; the program counter is
/// governed separately by the caller of `execute`.
pub open spec fn only_regs_changed(a: Chip8, b: Chip8) -> bool {
    &&& same_addr_stack(a, b)
    &&& same_timers(a.cpu, b.cpu)
    &&& same_rng(a.cpu, b.cpu)
    &&& non_cpu_unchanged(a, b)
}

/// Whether drawing `spr` at `(vx, vy)` over the framebuffer of `pre` turns
/// some lit cell dark.
pub open spec fn draw_collides(pre: Chip8, spr: Seq<u8>, vx: u8, vy: u8) -> bool {
    exists|r: int, j: int|
        0 <= r < spr.len() && 0 <= j < 8 && pre.display.pixel(col_of(vx, j), row_of(vy, r))
            && sprite_bit(spr[r], j)
}

/// The exact effect of executing one instruction: how `post` and the outcome
/// `r` relate to `pre`, variant by variant.
///
/// For an outcome of `Ok(Advance)`, `Ok(Skip)` or `Ok(Wait)` the program
/// counter is not constrained here; `execute` promises separately that it is
/// untouched, and `step` applies the move.
pub open spec fn exec_post(
    pre: Chip8,
    instruction: Instruction,
    post: Chip8,
    r: Result<ExecResult, Chip8Error>,
) -> bool {
    match instruction {
        Instruction::CallMachineCode { address } => r == Err::<ExecResult, Chip8Error>(
            Chip8Error::UnsupportedInstruction,
        ) && machine_unchanged(pre, post),
        Instruction::ClearDisplay => {
            &&& r == Ok::<ExecResult, Chip8Error>(ExecResult::Advance)
            &&& forall|x: int, y: int|
                0 <= x < 64 && 0 <= y < 32 ==> !post.display.pixel(x, y)
            &&& same_regs(pre.cpu, post.cpu)
            &&& same_addr_stack(pre, post)
            &&& same_timers(pre.cpu, post.cpu)
            &&& same_rng(pre.cpu, post.cpu)
            &&& same_mem(pre, post)
            &&& same_keys(pre, post)
        },
        Instruction::Return => {
            if pre.cpu.stack_seq().len() == 0 {
                r == Err::<ExecResult, Chip8Error>(Chip8Error::CpuError(CpuError::StackEmpty))
                    && machine_unchanged(pre, post)
            } else if pre.cpu.stack_seq().last() >= 4096 {
                &&& r == Err::<ExecResult, Chip8Error>(Chip8Error::CpuError(CpuError::PCOutOfRange))
                &&& post.cpu.stack_seq() == pre.cpu.stack_seq().drop_last()
                &&& post.cpu.pc() == pre.cpu.pc()
                &&& post.cpu.addr() == pre.cpu.addr()
                &&& same_regs(pre.cpu, post.cpu)
                &&& same_timers(pre.cpu, post.cpu)
                &&& same_rng(pre.cpu, post.cpu)
                &&& non_cpu_unchanged(pre, post)
            } else {
                &&& r == Ok::<ExecResult, Chip8Error>(ExecResult::Jumped)
                &&& post.cpu.pc() == pre.cpu.stack_seq().last()
                &&& post.cpu.stack_seq() == pre.cpu.stack_seq().drop_last()
                &&& post.cpu.addr() == pre.cpu.addr()
                &&& same_regs(pre.cpu, post.cpu)
                &&& same_timers(pre.cpu, post.cpu)
                &&& same_rng(pre.cpu, post.cpu)
                &&& non_cpu_unchanged(pre, post)
            }
        },
        Instruction::Goto { address } => {
            &&& r == Ok::<ExecResult, Chip8Error>(ExecResult::Jumped)
            &&& post.cpu.pc() == address@
            &&& post.cpu.addr() == pre.cpu.addr()
            &&& post.cpu.stack_seq() == pre.cpu.stack_seq()
            &&& same_regs(pre.cpu, post.cpu)
            &&& same_timers(pre.cpu, post.cpu)
            &&& same_rng(pre.cpu, post.cpu)
            &&& non_cpu_unchanged(pre, post)
        },
        Instruction::CallSubroutine { address } => {
            if pre.cpu.stack_seq().len() >= 16 {
                r == Err::<ExecResult, Chip8Error>(
                    Chip8Error::CpuError(CpuError::StackLimitReached),
                ) && machine_unchanged(pre, post)
            } else {
                &&& r == Ok::<ExecResult, Chip8Error>(ExecResult::Jumped)
                &&& post.cpu.pc() == address@
                &&& post.cpu.stack_seq() == pre.cpu.stack_seq().push(pre.cpu.pc())
                &&& post.cpu.addr() == pre.cpu.addr()
                &&& same_regs(pre.cpu, post.cpu)
                &&& same_timers(pre.cpu, post.cpu)
                &&& same_rng(pre.cpu, post.cpu)
                &&& non_cpu_unchanged(pre, post)
            }
        },
        Instruction::EqConst { x, value } => r == Ok::<ExecResult, Chip8Error>(
            if pre.cpu.reg(x@ as int) == value {
                ExecResult::Skip
            } else {
                ExecResult::Advance
            },
        ) && machine_same_but_pc(pre, post),
        Instruction::NeqConst { x, value } => r == Ok::<ExecResult, Chip8Error>(
            if pre.cpu.reg(x@ as int) != value {
                ExecResult::Skip
            } else {
                ExecResult::Advance
            },
        ) && machine_same_but_pc(pre, post),
        Instruction::EqReg { x, y } => r == Ok::<ExecResult, Chip8Error>(
            if pre.cpu.reg(x@ as int) == pre.cpu.reg(y@ as int) {
                ExecResult::Skip
            } else {
                ExecResult::Advance
            },
        ) && machine_same_but_pc(pre, post),
        Instruction::NeqReg { x, y } => r == Ok::<ExecResult, Chip8Error>(
            if pre.cpu.reg(x@ as int) != pre.cpu.reg(y@ as int) {
                ExecResult::Skip
            } else {
                ExecResult::Advance
            },
        ) && machine_same_but_pc(pre, post),
        Instruction::AssignConst { x, value } => {
            &&& r == Ok::<ExecResult, Chip8Error>(ExecResult::Advance)
            &&& regs_set1(pre, post, x@ as int, value)
            &&& only_regs_changed(pre, post)
        },
        Instruction::AddAssignConst { x, value } => {
            &&& r == Ok::<ExecResult, Chip8Error>(ExecResult::Advance)
            &&& regs_set1(pre, post, x@ as int, ((pre.cpu.reg(x@ as int) + value) % 256) as u8)
            &&& only_regs_changed(pre, post)
        },
        Instruction::AssignReg { x, y } => {
            &&& r == Ok::<ExecResult, Chip8Error>(ExecResult::Advance)
            &&& regs_set1(pre, post, x@ as int, pre.cpu.reg(y@ as int))
            &&& only_regs_changed(pre, post)
        },
        Instruction::OrReg { x, y } => {
            &&& r == Ok::<ExecResult, Chip8Error>(ExecResult::Advance)
            &&& regs_set1(pre, post, x@ as int, pre.cpu.reg(x@ as int) | pre.cpu.reg(y@ as int))
            &&& only_regs_changed(pre, post)
        },
        Instruction::AndReg { x, y } => {
            &&& r == Ok::<ExecResult, Chip8Error>(ExecResult::Advance)
            &&& regs_set1(pre, post, x@ as int, pre.cpu.reg(x@ as int) & pre.cpu.reg(y@ as int))
            &&& only_regs_changed(pre, post)
        },
        Instruction::XorReg { x, y } => {
            &&& r == Ok::<ExecResult, Chip8Error>(ExecResult::Advance)
            &&& regs_set1(pre, post, x@ as int, pre.cpu.reg(x@ as int) ^ pre.cpu.reg(y@ as int))
            &&& only_regs_changed(pre, post)
        },
        Instruction::AddAssignReg { x, y } => {
            let sum = pre.cpu.reg(x@ as int) + pre.cpu.reg(y@ as int);
            &&& r == Ok::<ExecResult, Chip8Error>(ExecResult::Advance)
            &&& regs_set_with_flag(
                pre,
                post,
                x@ as int,
                (sum % 256) as u8,
                if sum > 255 {
                    1
                } else {
                    0
                },
            )
            &&& only_regs_changed(pre, post)
        },
        Instruction::SubAssignReg { x, y } => {
            let vx = pre.cpu.reg(x@ as int);
            let vy = pre.cpu.reg(y@ as int);
            &&& r == Ok::<ExecResult, Chip8Error>(ExecResult::Advance)
            &&& regs_set_with_flag(
                pre,
                post,
                x@ as int,
                (if vx >= vy {
                    vx - vy
                } else {
                    vx + 256 - vy
                }) as u8,
                if vx >= vy {
                    1
                } else {
                    0
                },
            )
            &&& only_regs_changed(pre, post)
        },
        Instruction::SubAssignRegInverse { x, y } => {
            let vx = pre.cpu.reg(x@ as int);
            let vy = pre.cpu.reg(y@ as int);
            &&& r == Ok::<ExecResult, Chip8Error>(ExecResult::Advance)
            &&& regs_set_with_flag(
                pre,
                post,
                x@ as int,
                (if vy >= vx {
                    vy - vx
                } else {
                    vy + 256 - vx
                }) as u8,
                if vy >= vx {
                    1
                } else {
                    0
                },
            )
            &&& only_regs_changed(pre, post)
        },
        Instruction::RShift { x, y } => {
            // The flag receives bit 0 first; the halving then reads the
            // register again, so with x = 15 it halves the fresh flag.
            let bit = pre.cpu.reg(x@ as int) % 2;
            let mid = if x@ == 15 {
                bit
            } else {
                pre.cpu.reg(x@ as int)
            };
            &&& r == Ok::<ExecResult, Chip8Error>(ExecResult::Advance)
            &&& forall|i: int|
                0 <= i < 16 ==> post.cpu.reg(i) == (if i == x@ as int {
                    mid / 2
                } else if i == 15 {
                    bit
                } else {
                    pre.cpu.reg(i)
                })
            &&& only_regs_changed(pre, post)
        },
        Instruction::LShift { x, y } => {
            // The flag receives bit 7 first; the doubling then reads the
            // register again, so with x = 15 it doubles the fresh flag.
            let bit = pre.cpu.reg(x@ as int) / 128;
            let mid = if x@ == 15 {
                bit
            } else {
                pre.cpu.reg(x@ as int)
            };
            &&& r == Ok::<ExecResult, Chip8Error>(ExecResult::Advance)
            &&& forall|i: int|
                0 <= i < 16 ==> post.cpu.reg(i) == (if i == x@ as int {
                    ((mid * 2) % 256) as u8
                } else if i == 15 {
                    bit
                } else {
                    pre.cpu.reg(i)
                })
            &&& only_regs_changed(pre, post)
        },
        Instruction::SetI { address } => {
            &&& r == Ok::<ExecResult, Chip8Error>(ExecResult::Advance)
            &&& post.cpu.addr() == address@
            &&& post.cpu.stack_seq() == pre.cpu.stack_seq()
            &&& same_regs(pre.cpu, post.cpu)
            &&& same_timers(pre.cpu, post.cpu)
            &&& same_rng(pre.cpu, post.cpu)
            &&& non_cpu_unchanged(pre, post)
        },
        Instruction::GotoPlusV0 { address } => {
            let target = address@ + pre.cpu.reg(0);
            if target < 4096 {
                &&& r == Ok::<ExecResult, Chip8Error>(ExecResult::Jumped)
                &&& post.cpu.pc() == target
                &&& post.cpu.addr() == pre.cpu.addr()
                &&& post.cpu.stack_seq() == pre.cpu.stack_seq()
                &&& same_regs(pre.cpu, post.cpu)
                &&& same_timers(pre.cpu, post.cpu)
                &&& same_rng(pre.cpu, post.cpu)
                &&& non_cpu_unchanged(pre, post)
            } else {
                r == Err::<ExecResult, Chip8Error>(Chip8Error::CpuError(CpuError::PCOutOfRange))
                    && machine_unchanged(pre, post)
            }
        },
        Instruction::Rand { x, value } => {
            // The drawn byte is unconstrained; only the mask is promised.
            &&& r == Ok::<ExecResult, Chip8Error>(ExecResult::Advance)
            &&& post.cpu.reg(x@ as int) & value == post.cpu.reg(x@ as int)
            &&& same_regs_except(pre.cpu, post.cpu, x@ as int)
            &&& same_addr_stack(pre, post)
            &&& same_timers(pre.cpu, post.cpu)
            &&& non_cpu_unchanged(pre, post)
        },
        Instruction::DrawSprite { x, y, height } => {
            let i0 = pre.cpu.addr() as int;
            let h = height@ as int;
            if i0 + h > 4096 {
                r == Err::<ExecResult, Chip8Error>(
                    Chip8Error::MemoryError(MemoryError::OutOfRange(4096)),
                ) && machine_unchanged(pre, post)
            } else {
                let spr = pre.memory@.subrange(i0, i0 + h);
                let vx = pre.cpu.reg(x@ as int);
                let vy = pre.cpu.reg(y@ as int);
                let col = draw_collides(pre, spr, vx, vy);
                &&& r == Ok::<ExecResult, Chip8Error>(ExecResult::Advance)
                &&& draw_post(pre.display, spr, vx, vy, post.display, col)
                &&& regs_set1(
                    pre,
                    post,
                    15,
                    if col {
                        1
                    } else {
                        0
                    },
                )
                &&& same_addr_stack(pre, post)
                &&& same_timers(pre.cpu, post.cpu)
                &&& same_rng(pre.cpu, post.cpu)
                &&& same_mem(pre, post)
                &&& same_keys(pre, post)
            }
        },
        Instruction::KeyPressedSkip { x } => {
            let k = pre.cpu.reg(x@ as int);
            if k > 15 {
                r == Err::<ExecResult, Chip8Error>(Chip8Error::KeypadError(KeypadError::NoSuchKey))
                    && machine_unchanged(pre, post)
            } else {
                r == Ok::<ExecResult, Chip8Error>(
                    if pre.keypad.pressed(k as int) {
                        ExecResult::Skip
                    } else {
                        ExecResult::Advance
                    },
                ) && machine_same_but_pc(pre, post)
            }
        },
        Instruction::KeyReleasedSkip { x } => {
            let k = pre.cpu.reg(x@ as int);
            if k > 15 {
                r == Err::<ExecResult, Chip8Error>(Chip8Error::KeypadError(KeypadError::NoSuchKey))
                    && machine_unchanged(pre, post)
            } else {
                r == Ok::<ExecResult, Chip8Error>(
                    if !pre.keypad.pressed(k as int) {
                        ExecResult::Skip
                    } else {
                        ExecResult::Advance
                    },
                ) && machine_same_but_pc(pre, post)
            }
        },
        Instruction::GetDelayTimer { x } => {
            &&& r == Ok::<ExecResult, Chip8Error>(ExecResult::Advance)
            &&& regs_set1(pre, post, x@ as int, pre.cpu.delay())
            &&& only_regs_changed(pre, post)
        },
        Instruction::AwaitKeyPress { x } => {
            if pre.keypad.some_pressed() {
                &&& r == Ok::<ExecResult, Chip8Error>(ExecResult::Advance)
                &&& exists|k: u8|
                    k < 16 && pre.keypad.pressed(k as int) && (forall|j: int|
                        0 <= j < k ==> !pre.keypad.pressed(j)) && regs_set1(pre, post, x@ as int, k)
                &&& only_regs_changed(pre, post)
            } else {
                r == Ok::<ExecResult, Chip8Error>(ExecResult::Wait) && machine_unchanged(pre, post)
            }
        },
        Instruction::SetDelayTimer { x } => {
            &&& r == Ok::<ExecResult, Chip8Error>(ExecResult::Advance)
            &&& post.cpu.delay() == pre.cpu.reg(x@ as int)
            &&& post.cpu.sound() == pre.cpu.sound()
            &&& same_regs(pre.cpu, post.cpu)
            &&& same_addr_stack(pre, post)
            &&& same_rng(pre.cpu, post.cpu)
            &&& non_cpu_unchanged(pre, post)
        },
        Instruction::SetSoundTimer { x } => {
            &&& r == Ok::<ExecResult, Chip8Error>(ExecResult::Advance)
            &&& post.cpu.sound() == pre.cpu.reg(x@ as int)
            &&& post.cpu.delay() == pre.cpu.delay()
            &&& same_regs(pre.cpu, post.cpu)
            &&& same_addr_stack(pre, post)
            &&& same_rng(pre.cpu, post.cpu)
            &&& non_cpu_unchanged(pre, post)
        },
        Instruction::AddAssignAddress { x } => {
            let target = pre.cpu.addr() + pre.cpu.reg(x@ as int);
            if target < 4096 {
                &&& r == Ok::<ExecResult, Chip8Error>(ExecResult::Advance)
                &&& post.cpu.addr() == target
                &&& post.cpu.stack_seq() == pre.cpu.stack_seq()
                &&& same_regs(pre.cpu, post.cpu)
                &&& same_timers(pre.cpu, post.cpu)
                &&& same_rng(pre.cpu, post.cpu)
                &&& non_cpu_unchanged(pre, post)
            } else {
                r == Err::<ExecResult, Chip8Error>(
                    Chip8Error::CpuError(CpuError::AddressOutOfRange),
                ) && machine_unchanged(pre, post)
            }
        },
        Instruction::SetSpriteAddr { x } => {
            let digit = pre.cpu.reg(x@ as int);
            if digit > 15 {
                r == Err::<ExecResult, Chip8Error>(
                    Chip8Error::MemoryError(MemoryError::IncorrectSprite),
                ) && machine_unchanged(pre, post)
            } else {
                &&& r == Ok::<ExecResult, Chip8Error>(ExecResult::Advance)
                &&& post.cpu.addr() == digit * 5
                &&& post.cpu.stack_seq() == pre.cpu.stack_seq()
                &&& same_regs(pre.cpu, post.cpu)
                &&& same_timers(pre.cpu, post.cpu)
                &&& same_rng(pre.cpu, post.cpu)
                &&& non_cpu_unchanged(pre, post)
            }
        },
        Instruction::SetBCD { x } => {
            let i0 = pre.cpu.addr() as int;
            let v = pre.cpu.reg(x@ as int);
            if i0 < PROGRAM_START {
                r == Err::<ExecResult, Chip8Error>(
                    Chip8Error::MemoryError(MemoryError::PermissionDenied),
                ) && machine_unchanged(pre, post)
            } else if i0 + 3 > 4096 {
                r == Err::<ExecResult, Chip8Error>(
                    Chip8Error::MemoryError(MemoryError::OutOfRange((i0 + 3) as u16)),
                ) && machine_unchanged(pre, post)
            } else {
                &&& r == Ok::<ExecResult, Chip8Error>(ExecResult::Advance)
                &&& post.memory@.len() == pre.memory@.len()
                &&& forall|a: int|
                    0 <= a < pre.memory@.len() ==> post.memory@[a] == (if a == i0 {
                        v / 100
                    } else if a == i0 + 1 {
                        (v / 10) % 10
                    } else if a == i0 + 2 {
                        v % 10
                    } else {
                        pre.memory@[a]
                    })
                &&& same_regs(pre.cpu, post.cpu)
                &&& same_addr_stack(pre, post)
                &&& same_timers(pre.cpu, post.cpu)
                &&& same_rng(pre.cpu, post.cpu)
                &&& same_display(pre, post)
                &&& same_keys(pre, post)
            }
        },
        Instruction::DumpRegisters { x } => {
            let i0 = pre.cpu.addr() as int;
            let n = x@ as int + 1;
            if i0 < PROGRAM_START {
                r == Err::<ExecResult, Chip8Error>(
                    Chip8Error::MemoryError(MemoryError::PermissionDenied),
                ) && machine_unchanged(pre, post)
            } else {
                let written = if i0 + n <= 4096 {
                    n
                } else {
                    4096 - i0
                };
                &&& (if i0 + n <= 4096 {
                    r == Ok::<ExecResult, Chip8Error>(ExecResult::Advance)
                } else {
                    r == Err::<ExecResult, Chip8Error>(
                        Chip8Error::MemoryError(MemoryError::OutOfRange(4097)),
                    )
                })
                &&& post.memory@.len() == pre.memory@.len()
                &&& forall|a: int|
                    0 <= a < pre.memory@.len() ==> post.memory@[a] == (if i0 <= a < i0 + written {
                        pre.cpu.reg(a - i0)
                    } else {
                        pre.memory@[a]
                    })
                &&& same_regs(pre.cpu, post.cpu)
                &&& same_addr_stack(pre, post)
                &&& same_timers(pre.cpu, post.cpu)
                &&& same_rng(pre.cpu, post.cpu)
                &&& same_display(pre, post)
                &&& same_keys(pre, post)
            }
        },
        Instruction::LoadRegisters { x } => {
            let i0 = pre.cpu.addr() as int;
            let n = x@ as int + 1;
            let loaded = if i0 + n <= 4096 {
                n
            } else {
                4096 - i0
            };
            &&& (if i0 + n <= 4096 {
                r == Ok::<ExecResult, Chip8Error>(ExecResult::Advance)
            } else {
                r == Err::<ExecResult, Chip8Error>(
                    Chip8Error::MemoryError(MemoryError::OutOfRange(4096)),
                )
            })
            &&& forall|i: int|
                0 <= i < 16 ==> post.cpu.reg(i) == (if 0 <= i < loaded {
                    pre.memory@[i0 + i]
                } else {
                    pre.cpu.reg(i)
                })
            &&& same_addr_stack(pre, post)
            &&& same_timers(pre.cpu, post.cpu)
            &&& same_rng(pre.cpu, post.cpu)
            &&& non_cpu_unchanged(pre, post)
        },
    }
}

/// The effect of the execute-and-move-on part of a cycle, once `instruction`
/// has been fetched and decoded: either the instruction failed and the
/// program counter is untouched, or it succeeded and the program counter
/// moved as its outcome directs, or the move itself fell out of range.
pub open spec fn step_effect(
    pre: Chip8,
    post: Chip8,
    instruction: Instruction,
    r: Result<(), Chip8Error>,
) -> bool {
    ||| exists|e: Chip8Error|
        r == Err::<(), Chip8Error>(e) && #[trigger] exec_post(
            pre,
            instruction,
            post,
            Err::<ExecResult, Chip8Error>(e),
        )
    ||| (r == Ok::<(), Chip8Error>(()) && exec_post(
        pre,
        instruction,
        post,
        Ok::<ExecResult, Chip8Error>(ExecResult::Jumped),
    ))
    ||| (r == Ok::<(), Chip8Error>(()) && exec_post(
        pre,
        instruction,
        post,
        Ok::<ExecResult, Chip8Error>(ExecResult::Wait),
    ) && post.cpu.pc() == pre.cpu.pc())
    ||| (r == Ok::<(), Chip8Error>(()) && exec_post(
        pre,
        instruction,
        post,
        Ok::<ExecResult, Chip8Error>(ExecResult::Advance),
    ) && post.cpu.pc() == pre.cpu.pc() + 2)
    ||| (r == Ok::<(), Chip8Error>(()) && exec_post(
        pre,
        instruction,
        post,
        Ok::<ExecResult, Chip8Error>(ExecResult::Skip),
    ) && post.cpu.pc() == pre.cpu.pc() + 4)
    ||| (exec_post(pre, instruction, post, Ok::<ExecResult, Chip8Error>(ExecResult::Advance))
        && pre.cpu.pc() + 2 >= 4096 && post.cpu.pc() == pre.cpu.pc() && r == Err::<(), Chip8Error>(
        Chip8Error::CpuError(CpuError::PCOutOfRange),
    ))
    ||| (exec_post(pre, instruction, post, Ok::<ExecResult, Chip8Error>(ExecResult::Skip))
        && pre.cpu.pc() + 4 >= 4096 && post.cpu.pc() == pre.cpu.pc() && r == Err::<(), Chip8Error>(
        Chip8Error::CpuError(CpuError::PCOutOfRange),
    ))
}

/// The effect of one whole fetch-decode-execute cycle.
pub open spec fn step_post(pre: Chip8, post: Chip8, r: Result<(), Chip8Error>) -> bool {
    if pre.cpu.pc() >= 4095 {
        r == Err::<(), Chip8Error>(Chip8Error::MemoryError(MemoryError::OutOfRange(pre.cpu.pc())))
            && machine_unchanged(pre, post)
    } else {
        let w = word_at(pre.memory@, pre.cpu.pc() as int) as u16;
        if !accepted(w) {
            r == Err::<(), Chip8Error>(Chip8Error::DecodeError(DecodeError::NoSuchInstruction(w)))
                && machine_unchanged(pre, post)
        } else {
            exists|instruction: Instruction|
                #[trigger] decodes_to(w, instruction) && step_effect(pre, post, instruction, r)
        }
    }
}

impl Chip8 {
    /// Create a machine in its reset state: cleared registers, timers, stack,
    /// framebuffer and keys, the font table in low memory, and the program
    /// counter at 512.
    pub fn new() -> (r: Chip8)
        ensures
            r.cpu.pc() == 0x200,
            r.cpu.addr() == 0,
            r.cpu.delay() == 0,
            r.cpu.sound() == 0,
            r.cpu.stack_seq() == Seq::<u16>::empty(),
            forall|i: int| 0 <= i < 16 ==> r.cpu.reg(i) == 0,
            r.memory@.len() == 4096,
            forall|i: int| 0 <= i < 80 ==> r.memory@[i] == crate::memory::font()[i],
            forall|i: int| 80 <= i < 4096 ==> r.memory@[i] == 0,
            forall|x: int, y: int| 0 <= x < 64 && 0 <= y < 32 ==> !r.display.pixel(x, y),
            forall|k: int| 0 <= k < 16 ==> !r.keypad.pressed(k),
    {
        Chip8 {
            cpu: Cpu::new(),
            memory: Memory::new(),
            display: Display::new(),
            keypad: Keypad::new(),
        }
    }

    /// Copy a program into memory at address 512 and point the program
    /// counter there, ready for execution. Loading again resets and reloads.
    ///
    /// Fails, changing nothing, if the program overruns memory.
    pub fn load_program(&mut self, program: &[u8]) -> (r: Result<(), Chip8Error>)
        ensures
            r is Ok <==> PROGRAM_START + program@.len() <= 4096,
            r is Err ==> r == Err::<(), Chip8Error>(
                Chip8Error::MemoryError(
                    MemoryError::OutOfRange(((PROGRAM_START + program@.len()) % 0x10000) as u16),
                ),
            ) && machine_unchanged(*old(self), *final(self)),
            r is Ok ==> {
                &&& final(self).memory@.len() == old(self).memory@.len()
                &&& forall|a: int|
                    0 <= a < old(self).memory@.len() ==> final(self).memory@[a] == (if PROGRAM_START
                        <= a < PROGRAM_START + program@.len() {
                        program@[a - PROGRAM_START]
                    } else {
                        old(self).memory@[a]
                    })
                &&& final(self).cpu.pc() == PROGRAM_START
                &&& final(self).cpu.addr() == old(self).cpu.addr()
                &&& final(self).cpu.stack_seq() == old(self).cpu.stack_seq()
                &&& same_regs(old(self).cpu, final(self).cpu)
                &&& same_timers(old(self).cpu, final(self).cpu)
                &&& same_rng(old(self).cpu, final(self).cpu)
                &&& same_display(*old(self), *final(self))
                &&& same_keys(*old(self), *final(self))
            },
    {
        match self.memory.load(PROGRAM_START, program) {
            Ok(()) => {},
            Err(e) => {
                return Err(Chip8Error::MemoryError(e));
            },
        }
        match self.cpu.set_program_counter(PROGRAM_START) {
            Ok(()) => {},
            Err(_) => {
                // The program start address is 12-bit, so the reset cannot
                // fail.
                proof {
                    assert(false);
                }
            },
        }
        Ok(())
    }

    /// Run one fetch-decode-execute cycle: read the word at the program
    /// counter, decode it, execute it, and move the program counter as the
    /// instruction directs. Any failure aborts the cycle, leaves the program
    /// counter where it was, and is surfaced verbatim.
    pub fn step(&mut self) -> (r: Result<(), Chip8Error>)
        ensures
            step_post(*old(self), *final(self), r),
    {
        let pc = self.cpu.program_counter();
        let opcode = match self.memory.read_word(pc) {
            Ok(w) => w,
            Err(e) => {
                return Err(Chip8Error::MemoryError(e));
            },
        };
        let instruction = match Instruction::decode(opcode) {
            Ok(i) => i,
            Err(e) => {
                return Err(Chip8Error::DecodeError(e));
            },
        };
        proof {
            // The decoded register nibble is below 16, so quantified
            // register facts cover it.
            crate::decoder::lemma_word_structure(opcode);
        }
        let ghost pre = *self;
        let exec_result = match self.execute(instruction) {
            Ok(er) => er,
            Err(e) => {
                proof {
                    assert(step_effect(pre, *self, instruction, Err::<(), Chip8Error>(e)));
                }
                return Err(e);
            },
        };
        match exec_result {
            ExecResult::Advance => {
                match self.cpu.advance_program_counter(2) {
                    Ok(()) => {
                        proof {
                            assert(exec_post(
                                pre,
                                instruction,
                                *self,
                                Ok::<ExecResult, Chip8Error>(ExecResult::Advance),
                            ));
                        }
                    },
                    Err(e) => {
                        proof {
                            assert(step_effect(
                                pre,
                                *self,
                                instruction,
                                Err::<(), Chip8Error>(Chip8Error::CpuError(e)),
                            ));
                        }
                        return Err(Chip8Error::CpuError(e));
                    },
                }
            },
            ExecResult::Skip => {
                match self.cpu.advance_program_counter(4) {
                    Ok(()) => {
                        proof {
                            assert(exec_post(
                                pre,
                                instruction,
                                *self,
                                Ok::<ExecResult, Chip8Error>(ExecResult::Skip),
                            ));
                        }
                    },
                    Err(e) => {
                        proof {
                            assert(step_effect(
                                pre,
                                *self,
                                instruction,
                                Err::<(), Chip8Error>(Chip8Error::CpuError(e)),
                            ));
                        }
                        return Err(Chip8Error::CpuError(e));
                    },
                }
            },
            ExecResult::Jumped => {},
            ExecResult::Wait => {},
        }
        proof {
            assert(step_effect(pre, *self, instruction, Ok::<(), Chip8Error>(())));
        }
        Ok(())
    }

    /// Execute one decoded instruction against the machine state and report
    /// how the program counter should move; the program counter itself is
    /// touched only by the jumping instructions.
    #[verifier::loop_isolation(false)]
    pub fn execute(&mut self, instruction: Instruction) -> (r: Result<ExecResult, Chip8Error>)
        ensures
            exec_post(*old(self), instruction, *final(self), r),
            (r matches Ok(er) && er != ExecResult::Jumped) ==> final(self).cpu.pc() == old(
                self,
            ).cpu.pc(),
    {
        let vf = Index::from_nibble(0xF);
        let result = match instruction {
            Instruction::CallMachineCode { address: _ } => {
                return Err(Chip8Error::UnsupportedInstruction);
            },
            Instruction::ClearDisplay => {
                self.display.clear();
                ExecResult::Advance
            },
            Instruction::Return => {
                let new_pc = match self.cpu.stack_pop() {
                    Ok(v) => v,
                    Err(e) => {
                        return Err(Chip8Error::CpuError(e));
                    },
                };
                match self.cpu.set_program_counter(new_pc) {
                    Ok(()) => {},
                    Err(e) => {
                        return Err(Chip8Error::CpuError(e));
                    },
                }
                ExecResult::Jumped
            },
            Instruction::Goto { address } => {
                match self.cpu.set_program_counter(address.into_inner()) {
                    Ok(()) => {},
                    Err(e) => {
                        // A decoded address is 12-bit, so the set cannot fail.
                        proof {
                            assert(false);
                        }
                        return Err(Chip8Error::CpuError(e));
                    },
                }
                ExecResult::Jumped
            },
            Instruction::CallSubroutine { address } => {
                let pc_now = self.cpu.program_counter();
                match self.cpu.stack_push(pc_now) {
                    Ok(()) => {},
                    Err(e) => {
                        return Err(Chip8Error::CpuError(e));
                    },
                }
                match self.cpu.set_program_counter(address.into_inner()) {
                    Ok(()) => {},
                    Err(e) => {
                        // A decoded address is 12-bit, so the set cannot fail.
                        proof {
                            assert(false);
                        }
                        return Err(Chip8Error::CpuError(e));
                    },
                }
                ExecResult::Jumped
            },
            Instruction::EqConst { x, value } => {
                if self.cpu.vx(x) == value {
                    ExecResult::Skip
                } else {
                    ExecResult::Advance
                }
            },
            Instruction::NeqConst { x, value } => {
                if self.cpu.vx(x) != value {
                    ExecResult::Skip
                } else {
                    ExecResult::Advance
                }
            },
            Instruction::EqReg { x, y } => {
                if self.cpu.vx(x) == self.cpu.vx(y) {
                    ExecResult::Skip
                } else {
                    ExecResult::Advance
                }
            },
            Instruction::NeqReg { x, y } => {
                if self.cpu.vx(x) != self.cpu.vx(y) {
                    ExecResult::Skip
                } else {
                    ExecResult::Advance
                }
            },
            Instruction::AssignConst { x, value } => {
                self.cpu.set_vx(x, value);
                ExecResult::Advance
            },
            Instruction::AddAssignConst { x, value } => {
                let vx = self.cpu.vx(x);
                let sum = vx as u16 + value as u16;
                self.cpu.set_vx(x, (sum % 256) as u8);
                ExecResult::Advance
            },
            Instruction::AssignReg { x, y } => {
                let vy = self.cpu.vx(y);
                self.cpu.set_vx(x, vy);
                ExecResult::Advance
            },
            Instruction::OrReg { x, y } => {
                let vx = self.cpu.vx(x);
                let vy = self.cpu.vx(y);
                self.cpu.set_vx(x, vx | vy);
                ExecResult::Advance
            },
            Instruction::AndReg { x, y } => {
                let vx = self.cpu.vx(x);
                let vy = self.cpu.vx(y);
                self.cpu.set_vx(x, vx & vy);
                ExecResult::Advance
            },
            Instruction::XorReg { x, y } => {
                let vx = self.cpu.vx(x);
                let vy = self.cpu.vx(y);
                self.cpu.set_vx(x, vx ^ vy);
                ExecResult::Advance
            },
            Instruction::AddAssignReg { x, y } => {
                let vx = self.cpu.vx(x);
                let vy = self.cpu.vx(y);
                let sum = vx as u16 + vy as u16;
                self.cpu.set_vx(x, (sum % 256) as u8);
                self.cpu.set_vx(
                    vf,
                    if sum > 255 {
                        1
                    } else {
                        0
                    },
                );
                ExecResult::Advance
            },
            Instruction::SubAssignReg { x, y } => {
                let vx = self.cpu.vx(x);
                let vy = self.cpu.vx(y);
                let diff = if vx >= vy {
                    vx - vy
                } else {
                    (vx as u16 + 256 - vy as u16) as u8
                };
                self.cpu.set_vx(x, diff);
                self.cpu.set_vx(
                    vf,
                    if vx >= vy {
                        1
                    } else {
                        0
                    },
                );
                ExecResult::Advance
            },
            Instruction::SubAssignRegInverse { x, y } => {
                let vx = self.cpu.vx(x);
                let vy = self.cpu.vx(y);
                let diff = if vy >= vx {
                    vy - vx
                } else {
                    (vy as u16 + 256 - vx as u16) as u8
                };
                self.cpu.set_vx(x, diff);
                self.cpu.set_vx(
                    vf,
                    if vy >= vx {
                        1
                    } else {
                        0
                    },
                );
                ExecResult::Advance
            },
            Instruction::RShift { x, y: _ } => {
                let vx = self.cpu.vx(x);
                self.cpu.set_vx(vf, vx % 2);
                let mid = self.cpu.vx(x);
                self.cpu.set_vx(x, mid / 2);
                ExecResult::Advance
            },
            Instruction::LShift { x, y: _ } => {
                let vx = self.cpu.vx(x);
                self.cpu.set_vx(vf, vx / 128);
                let mid = self.cpu.vx(x);
                self.cpu.set_vx(x, ((mid as u16 * 2) % 256) as u8);
                ExecResult::Advance
            },
            Instruction::SetI { address } => {
                match self.cpu.set_address(address.into_inner()) {
                    Ok(()) => {},
                    Err(e) => {
                        // A decoded address is 12-bit, so the set cannot fail.
                        proof {
                            assert(false);
                        }
                        return Err(Chip8Error::CpuError(e));
                    },
                }
                ExecResult::Advance
            },
            Instruction::GotoPlusV0 { address } => {
                let v0 = self.cpu.vx(Index::from_nibble(0));
                let target = address.into_inner() + v0 as u16;
                match self.cpu.set_program_counter(target) {
                    Ok(()) => {},
                    Err(e) => {
                        return Err(Chip8Error::CpuError(e));
                    },
                }
                ExecResult::Jumped
            },
            Instruction::Rand { x, value } => {
                let drawn = self.cpu.random();
                let masked = drawn & value;
                proof {
                    assert((drawn & value) & value == drawn & value) by (bit_vector);
                }
                self.cpu.set_vx(x, masked);
                ExecResult::Advance
            },
            Instruction::DrawSprite { x, y, height } => {
                let h = height.into_inner();
                let i0 = self.cpu.address();
                proof {
                    self.memory.lemma_len();
                }
                let mut sprite: Vec<u8> = Vec::new();
                let mut k: u8 = 0;
                while k < h
                    invariant
                        k <= h,
                        h < 16,
                        i0 < 4096,
                        i0 as int + k as int <= 4096,
                        self == old(self),
                        i0 == self.cpu.addr(),
                        self.memory@.len() == 4096,
                        sprite@.len() == k as int,
                        forall|t: int| 0 <= t < k ==> sprite@[t] == self.memory@[i0 + t],
                    decreases h - k,
                {
                    let byte = match self.memory.read_byte(i0 + k as u16) {
                        Ok(b) => b,
                        Err(e) => {
                            return Err(Chip8Error::MemoryError(e));
                        },
                    };
                    sprite.push(byte);
                    k = k + 1;
                }
                proof {
                    assert(sprite@ =~= old(self).memory@.subrange(i0 as int, i0 as int + h as int));
                }
                let vx = self.cpu.vx(x);
                let vy = self.cpu.vx(y);
                let collision = match self.display.draw_sprite(sprite.as_slice(), vx, vy) {
                    Ok(c) => c,
                    Err(e) => {
                        // A sprite height is below 16, never taller than the
                        // display, so the draw cannot fail.
                        proof {
                            assert(false);
                        }
                        return Err(Chip8Error::DisplayError(e));
                    },
                };
                self.cpu.set_vx(
                    vf,
                    if collision {
                        1
                    } else {
                        0
                    },
                );
                ExecResult::Advance
            },
            Instruction::KeyPressedSkip { x } => {
                let k = self.cpu.vx(x);
                match self.keypad.is_pressed(k) {
                    Ok(true) => ExecResult::Skip,
                    Ok(false) => ExecResult::Advance,
                    Err(e) => {
                        return Err(Chip8Error::KeypadError(e));
                    },
                }
            },
            Instruction::KeyReleasedSkip { x } => {
                let k = self.cpu.vx(x);
                match self.keypad.is_pressed(k) {
                    Ok(true) => ExecResult::Advance,
                    Ok(false) => ExecResult::Skip,
                    Err(e) => {
                        return Err(Chip8Error::KeypadError(e));
                    },
                }
            },
            Instruction::GetDelayTimer { x } => {
                let d = self.cpu.delay_timer();
                self.cpu.set_vx(x, d);
                ExecResult::Advance
            },
            Instruction::AwaitKeyPress { x } => {
                match self.keypad.any_pressed() {
                    Some(k) => {
                        self.cpu.set_vx(x, k);
                        ExecResult::Advance
                    },
                    None => ExecResult::Wait,
                }
            },
            Instruction::SetDelayTimer { x } => {
                let vx = self.cpu.vx(x);
                self.cpu.set_delay_timer(vx);
                ExecResult::Advance
            },
            Instruction::SetSoundTimer { x } => {
                let vx = self.cpu.vx(x);
                self.cpu.set_sound_timer(vx);
                ExecResult::Advance
            },
            Instruction::AddAssignAddress { x } => {
                let vx = self.cpu.vx(x);
                match self.cpu.advance_address(vx as u16) {
                    Ok(()) => {},
                    Err(e) => {
                        return Err(Chip8Error::CpuError(e));
                    },
                }
                ExecResult::Advance
            },
            Instruction::SetSpriteAddr { x } => {
                let digit = self.cpu.vx(x);
                let sprite_addr = match self.memory.read_sprite_address(digit) {
                    Ok(a) => a,
                    Err(e) => {
                        return Err(Chip8Error::MemoryError(e));
                    },
                };
                match self.cpu.set_address(sprite_addr) {
                    Ok(()) => {},
                    Err(e) => {
                        // A glyph address is at most 75, so the set cannot
                        // fail.
                        proof {
                            assert(false);
                        }
                        return Err(Chip8Error::CpuError(e));
                    },
                }
                ExecResult::Advance
            },
            Instruction::SetBCD { x } => {
                let vx = self.cpu.vx(x);
                let mut digits: Vec<u8> = Vec::new();
                digits.push(vx / 100);
                digits.push((vx / 10) % 10);
                digits.push(vx % 10);
                let i0 = self.cpu.address();
                match self.memory.load(i0, digits.as_slice()) {
                    Ok(()) => {},
                    Err(e) => {
                        return Err(Chip8Error::MemoryError(e));
                    },
                }
                ExecResult::Advance
            },
            Instruction::DumpRegisters { x } => {
                let n = x.into_inner();
                let i0 = self.cpu.address();
                proof {
                    self.memory.lemma_len();
                }
                let mut i: u8 = 0;
                while i <= n
                    invariant
                        n < 16,
                        i <= n + 1,
                        i0 < 4096,
                        i0 as int + i as int <= 4096,
                        i0 >= PROGRAM_START || i == 0,
                        self.cpu == old(self).cpu,
                        self.display == old(self).display,
                        self.keypad == old(self).keypad,
                        i0 == self.cpu.addr(),
                        self.memory@.len() == old(self).memory@.len(),
                        self.memory@.len() == 4096,
                        forall|a: int|
                            0 <= a < 4096 ==> self.memory@[a] == (if i0 <= a < i0 + i {
                                old(self).cpu.reg(a - i0)
                            } else {
                                old(self).memory@[a]
                            }),
                    decreases n + 1 - i,
                {
                    let byte = self.cpu.vx(Index::from_nibble(i));
                    let mut one: Vec<u8> = Vec::new();
                    one.push(byte);
                    match self.memory.load(i0 + i as u16, one.as_slice()) {
                        Ok(()) => {},
                        Err(e) => {
                            proof {
                                if i0 < PROGRAM_START {
                                    assert(self.memory@ =~= old(self).memory@);
                                }
                            }
                            return Err(Chip8Error::MemoryError(e));
                        },
                    }
                    i = i + 1;
                }
                ExecResult::Advance
            },
            Instruction::LoadRegisters { x } => {
                let n = x.into_inner();
                let i0 = self.cpu.address();
                proof {
                    self.memory.lemma_len();
                }
                let mut i: u8 = 0;
                while i <= n
                    invariant
                        n < 16,
                        i <= n + 1,
                        i0 < 4096,
                        i0 as int + i as int <= 4096,
                        self.memory == old(self).memory,
                        self.memory@.len() == 4096,
                        self.display == old(self).display,
                        self.keypad == old(self).keypad,
                        i0 == self.cpu.addr(),
                        i0 == old(self).cpu.addr(),
                        self.cpu.pc() == old(self).cpu.pc(),
                        self.cpu.stack_seq() == old(self).cpu.stack_seq(),
                        same_timers(old(self).cpu, self.cpu),
                        same_rng(old(self).cpu, self.cpu),
                        forall|j: int|
                            0 <= j < 16 ==> self.cpu.reg(j) == (if j < i {
                                old(self).memory@[i0 + j]
                            } else {
                                old(self).cpu.reg(j)
                            }),
                    decreases n + 1 - i,
                {
                    let byte = match self.memory.read_byte(i0 + i as u16) {
                        Ok(b) => b,
                        Err(e) => {
                            return Err(Chip8Error::MemoryError(e));
                        },
                    };
                    self.cpu.set_vx(Index::from_nibble(i), byte);
                    i = i + 1;
                }
                ExecResult::Advance
            },
        };
        Ok(result)
    }

    /// A read-only snapshot of the framebuffer for an external renderer.
    pub fn display_snapshot(&self) -> (r: &[[bool; 64]; 32])
        ensures
            forall|x: int, y: int|
                0 <= x < 64 && 0 <= y < 32 ==> r@[y]@[x] == self.display.pixel(x, y),
    {
        self.display.state()
    }

    /// Count each nonzero timer down by one.
    pub fn tick_timers(&mut self)
        ensures
            final(self).cpu.delay() == (if old(self).cpu.delay() > 0 {
                (old(self).cpu.delay() - 1) as u8
            } else {
                0u8
            }),
            final(self).cpu.sound() == (if old(self).cpu.sound() > 0 {
                (old(self).cpu.sound() - 1) as u8
            } else {
                0u8
            }),
            same_regs(old(self).cpu, final(self).cpu),
            same_flow(old(self).cpu, final(self).cpu),
            same_rng(old(self).cpu, final(self).cpu),
            non_cpu_unchanged(*old(self), *final(self)),
    {
        self.cpu.tick_timers()
    }

    /// Record that a key went down or up, forwarded to the input latch.
    ///
    /// Rejects key indices outside 0..=15 and changes nothing for them.
    pub fn set_key_state(&mut self, key: u8, pressed: bool) -> (r: Result<(), Chip8Error>)
        ensures
            r is Ok <==> key <= 15,
            key <= 15 ==> forall|k: int|
                0 <= k < 16 ==> final(self).keypad.pressed(k) == (if k == key {
                    pressed
                } else {
                    old(self).keypad.pressed(k)
                }),
            key > 15 ==> r == Err::<(), Chip8Error>(Chip8Error::KeypadError(KeypadError::NoSuchKey))
                && machine_unchanged(*old(self), *final(self)),
            same_regs(old(self).cpu, final(self).cpu),
            same_flow(old(self).cpu, final(self).cpu),
            same_timers(old(self).cpu, final(self).cpu),
            same_rng(old(self).cpu, final(self).cpu),
            same_mem(*old(self), *final(self)),
            same_display(*old(self), *final(self)),
    {
        match self.keypad.set_key_state(key, pressed) {
            Ok(()) => Ok(()),
            Err(e) => Err(Chip8Error::KeypadError(e)),
        }
    }

    /// Whether the external audio driver should be playing the tone: true
    /// while the sound timer is nonzero.
    pub fn is_sound_playing(&self) -> (r: bool)
        ensures
            r == (self.cpu.sound() > 0),
    {
        self.cpu.sound_timer() > 0
    }
}

/// A `goto` leaves the program counter exactly at the decoded address.
pub proof fn lemma_goto_sets_pc(
    pre: Chip8,
    post: Chip8,
    address: crate::types::Address,
    r: Result<ExecResult, Chip8Error>,
)
    requires
        exec_post(pre, Instruction::Goto { address }, post, r),
    ensures
        r == Ok::<ExecResult, Chip8Error>(ExecResult::Jumped),
        post.cpu.pc() == address@,
{
}

/// A jump through `goto + register 0` lands exactly at the decoded address
/// plus register 0, whenever that target satisfies the 12-bit bound.
pub proof fn lemma_goto_plus_v0_sets_pc(
    pre: Chip8,
    post: Chip8,
    address: crate::types::Address,
    r: Result<ExecResult, Chip8Error>,
)
    requires
        exec_post(pre, Instruction::GotoPlusV0 { address }, post, r),
        address@ + pre.cpu.reg(0) < 4096,
    ensures
        r == Ok::<ExecResult, Chip8Error>(ExecResult::Jumped),
        post.cpu.pc() == address@ + pre.cpu.reg(0),
{
}

/// A successful `call` jumps to the decoded address, and the matching
/// `return` restores the pre-call program counter and stack exactly.
pub proof fn lemma_call_return_restores_pc(
    m0: Chip8,
    m1: Chip8,
    m2: Chip8,
    address: crate::types::Address,
    r1: Result<ExecResult, Chip8Error>,
    r2: Result<ExecResult, Chip8Error>,
)
    requires
        exec_post(m0, Instruction::CallSubroutine { address }, m1, r1),
        r1 is Ok,
        exec_post(m1, Instruction::Return, m2, r2),
        r2 is Ok,
    ensures
        m1.cpu.pc() == address@,
        m2.cpu.pc() == m0.cpu.pc(),
        m2.cpu.stack_seq() == m0.cpu.stack_seq(),
{
    assert(m1.cpu.stack_seq() == m0.cpu.stack_seq().push(m0.cpu.pc()));
    assert(m1.cpu.stack_seq().last() == m0.cpu.pc());
    assert(m2.cpu.stack_seq() =~= m0.cpu.stack_seq());
}

/// Register addition reports a carry in VF: 1 exactly when the true sum
/// exceeds 255, with the register receiving the wrapped sum.
pub proof fn lemma_add_sets_carry(
    pre: Chip8,
    post: Chip8,
    x: Index,
    y: Index,
    r: Result<ExecResult, Chip8Error>,
)
    requires
        exec_post(pre, Instruction::AddAssignReg { x, y }, post, r),
        x@ < 16,
    ensures
        r == Ok::<ExecResult, Chip8Error>(ExecResult::Advance),
        post.cpu.reg(15) == (if pre.cpu.reg(x@ as int) + pre.cpu.reg(y@ as int) > 255 {
            1u8
        } else {
            0u8
        }),
        x@ != 15 ==> post.cpu.reg(x@ as int) == ((pre.cpu.reg(x@ as int) + pre.cpu.reg(
            y@ as int,
        )) % 256) as u8,
{
}

/// Register subtraction reports "no borrow" in VF: 1 exactly when the
/// minuend is at least the subtrahend.
pub proof fn lemma_sub_sets_no_borrow(
    pre: Chip8,
    post: Chip8,
    x: Index,
    y: Index,
    r: Result<ExecResult, Chip8Error>,
)
    requires
        exec_post(pre, Instruction::SubAssignReg { x, y }, post, r),
        x@ < 16,
    ensures
        r == Ok::<ExecResult, Chip8Error>(ExecResult::Advance),
        post.cpu.reg(15) == (if pre.cpu.reg(x@ as int) >= pre.cpu.reg(y@ as int) {
            1u8
        } else {
            0u8
        }),
{
}

/// A right shift captures bit 0 of the register into VF before halving.
/// With VF itself as the target the flag write is immediately halved away,
/// so that register is left out.
pub proof fn lemma_rshift_captures_bit0(
    pre: Chip8,
    post: Chip8,
    x: Index,
    y: Index,
    r: Result<ExecResult, Chip8Error>,
)
    requires
        exec_post(pre, Instruction::RShift { x, y }, post, r),
        x@ < 15,
    ensures
        r == Ok::<ExecResult, Chip8Error>(ExecResult::Advance),
        post.cpu.reg(15) == pre.cpu.reg(x@ as int) % 2,
        post.cpu.reg(x@ as int) == pre.cpu.reg(x@ as int) / 2,
{
}

/// A left shift captures bit 7 of the register into VF before doubling.
/// With VF itself as the target the flag write is immediately doubled over,
/// so that register is left out.
pub proof fn lemma_lshift_captures_bit7(
    pre: Chip8,
    post: Chip8,
    x: Index,
    y: Index,
    r: Result<ExecResult, Chip8Error>,
)
    requires
        exec_post(pre, Instruction::LShift { x, y }, post, r),
        x@ < 15,
    ensures
        r == Ok::<ExecResult, Chip8Error>(ExecResult::Advance),
        post.cpu.reg(15) == pre.cpu.reg(x@ as int) / 128,
        post.cpu.reg(x@ as int) == ((pre.cpu.reg(x@ as int) * 2) % 256) as u8,
{
}

/// A BCD store writes the hundreds, tens and ones digits of the register to
/// three consecutive addresses starting at I.
pub proof fn lemma_bcd_digits(pre: Chip8, post: Chip8, x: Index, r: Result<ExecResult, Chip8Error>)
    requires
        exec_post(pre, Instruction::SetBCD { x }, post, r),
        PROGRAM_START <= pre.cpu.addr(),
        pre.cpu.addr() + 3 <= 4096,
    ensures
        r == Ok::<ExecResult, Chip8Error>(ExecResult::Advance),
        post.memory@[pre.cpu.addr() as int] == pre.cpu.reg(x@ as int) / 100,
        post.memory@[pre.cpu.addr() as int + 1] == (pre.cpu.reg(x@ as int) / 10) % 10,
        post.memory@[pre.cpu.addr() as int + 2] == pre.cpu.reg(x@ as int) % 10,
{
    pre.memory.lemma_len();
}

/// Dumping registers 0 through X and then loading through the same address
/// register and the same X restores every register, and neither operation
/// moves the address register.
pub proof fn lemma_dump_load_roundtrip(
    m0: Chip8,
    m1: Chip8,
    m2: Chip8,
    x: Index,
    r1: Result<ExecResult, Chip8Error>,
    r2: Result<ExecResult, Chip8Error>,
)
    requires
        exec_post(m0, Instruction::DumpRegisters { x }, m1, r1),
        r1 is Ok,
        exec_post(m1, Instruction::LoadRegisters { x }, m2, r2),
        r2 is Ok,
        x@ < 16,
    ensures
        forall|i: int| 0 <= i < 16 ==> m2.cpu.reg(i) == m0.cpu.reg(i),
        m1.cpu.addr() == m0.cpu.addr(),
        m2.cpu.addr() == m0.cpu.addr(),
{
    m0.memory.lemma_len();
    m1.memory.lemma_len();
}

/// While no key is down, `await key press` reports `Wait` on every cycle and
/// leaves the machine exactly as it was.
pub proof fn lemma_await_key_waits(
    m0: Chip8,
    m1: Chip8,
    m2: Chip8,
    x: Index,
    r1: Result<ExecResult, Chip8Error>,
    r2: Result<ExecResult, Chip8Error>,
)
    requires
        exec_post(m0, Instruction::AwaitKeyPress { x }, m1, r1),
        exec_post(m1, Instruction::AwaitKeyPress { x }, m2, r2),
        forall|k: int| 0 <= k < 16 ==> !m0.keypad.pressed(k),
    ensures
        r1 == Ok::<ExecResult, Chip8Error>(ExecResult::Wait),
        r2 == Ok::<ExecResult, Chip8Error>(ExecResult::Wait),
        machine_unchanged(m0, m2),
{
}

/// Once some key is down, `await key press` advances and stores the
/// lowest-numbered key that is down into the target register.
pub proof fn lemma_await_key_advances(
    pre: Chip8,
    post: Chip8,
    x: Index,
    r: Result<ExecResult, Chip8Error>,
)
    requires
        exec_post(pre, Instruction::AwaitKeyPress { x }, post, r),
        pre.keypad.some_pressed(),
        x@ < 16,
    ensures
        r == Ok::<ExecResult, Chip8Error>(ExecResult::Advance),
        post.cpu.reg(x@ as int) < 16,
        pre.keypad.pressed(post.cpu.reg(x@ as int) as int),
        forall|j: int| 0 <= j < post.cpu.reg(x@ as int) ==> !pre.keypad.pressed(j),
{
    let k = choose|k: u8|
        k < 16 && pre.keypad.pressed(k as int) && (forall|j: int|
            0 <= j < k ==> !pre.keypad.pressed(j)) && regs_set1(pre, post, x@ as int, k);
    assert(post.cpu.reg(x@ as int) == k);
}


} // verus!
