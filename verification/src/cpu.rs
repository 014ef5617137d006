//! The register and stack bank.
//!
//! Sixteen byte registers, a 12-bit address register, a 12-bit program
//! counter starting at 512, a bounded call stack of sixteen return addresses,
//! two countdown timers and a seedable pseudo-random byte source.
//!
//! Invariant: the program counter and the address register never reach 4096,
//! and the stack never holds more than sixteen entries.

use vstd::prelude::*;

use crate::rng;
use crate::types::Index;

verus! {

/// The register, stack and timer state of the machine.
pub struct Cpu {
    /// General purpose byte registers V0 through VF.
    general: [u8; 16],
    /// The address register I.
    address: u16,
    /// The delay timer.
    delay_timer: u8,
    /// The sound timer.
    sound_timer: u8,
    /// The program counter.
    program_counter: u16,
    /// The number of live stack entries.
    stack_pointer: usize,
    /// The call stack; entries at or past `stack_pointer` are dead.
    stack: [u16; 16],
    /// The pseudo-random byte source.
    random_engine: rand::rngs::SmallRng,
}

/// The ways a register-bank operation can fail.
#[derive(Debug, Clone, Copy, PartialEq, Eq, Structural)]
pub enum CpuError {
    /// A seventeenth push onto the full call stack.
    StackLimitReached,
    /// A pop from the empty call stack.
    StackEmpty,
    /// An address-register value that does not fit in 12 bits.
    AddressOutOfRange,
    /// A program-counter value that does not fit in 12 bits.
    PCOutOfRange,
}

/// Both banks hold the same sixteen register values.
pub open spec fn same_regs(a: Cpu, b: Cpu) -> bool {
    forall|i: int| 0 <= i < 16 ==> b.reg(i) == a.reg(i)
}

/// Both banks agree on every register except `x`.
pub open spec fn same_regs_except(a: Cpu, b: Cpu, x: int) -> bool {
    forall|i: int| 0 <= i < 16 && i != x ==> b.reg(i) == a.reg(i)
}

/// Both banks hold the same program counter, address register and stack.
pub open spec fn same_flow(a: Cpu, b: Cpu) -> bool {
    b.pc() == a.pc() && b.addr() == a.addr() && b.stack_seq() == a.stack_seq()
}

/// Both banks hold the same timer values.
pub open spec fn same_timers(a: Cpu, b: Cpu) -> bool {
    b.delay() == a.delay() && b.sound() == a.sound()
}

/// Both banks hold the same randomness state.
pub open spec fn same_rng(a: Cpu, b: Cpu) -> bool {
    b.rng_state() == a.rng_state()
}

impl Cpu {
    /// The value of register `i`.
    pub closed spec fn reg(self, i: int) -> u8 {
        self.general[i]
    }

    /// The program counter.
    pub closed spec fn pc(self) -> u16 {
        self.program_counter
    }

    /// The address register I.
    pub closed spec fn addr(self) -> u16 {
        self.address
    }

    /// The delay timer.
    pub closed spec fn delay(self) -> u8 {
        self.delay_timer
    }

    /// The sound timer.
    pub closed spec fn sound(self) -> u8 {
        self.sound_timer
    }

    /// The live stack entries, oldest first.
    pub closed spec fn stack_seq(self) -> Seq<u16> {
        self.stack@.take(self.stack_pointer as int)
    }

    /// The state of the randomness source.
    pub closed spec fn rng_state(self) -> rand::rngs::SmallRng {
        self.random_engine
    }

    #[verifier::type_invariant]
    spec fn inv(self) -> bool {
        self.program_counter < 4096 && self.address < 4096 && self.stack_pointer <= 16
    }

    /// Create a bank with all registers, timers and the stack cleared and the
    /// program counter at 512, where programs start.
    pub fn new() -> (r: Cpu)
        ensures
            r.pc() == 0x200,
            r.addr() == 0,
            r.delay() == 0,
            r.sound() == 0,
            r.stack_seq() == Seq::<u16>::empty(),
            forall|i: int| 0 <= i < 16 ==> r.reg(i) == 0,
    {
        let mut parent = rng::entropy_handle();
        let r = Cpu {
            general: [0;16],
            address: 0,
            delay_timer: 0,
            sound_timer: 0,
            program_counter: 0x200,
            stack_pointer: 0,
            stack: [0;16],
            random_engine: rng::small_rng_from(&mut parent),
        };
        proof {
            assert(r.stack_seq() =~= Seq::<u16>::empty());
        }
        r
    }

    /// The program counter; always below 4096.
    pub fn program_counter(&self) -> (r: u16)
        ensures
            r == self.pc(),
            r < 4096,
    {
        proof {
            use_type_invariant(&*self);
        }
        self.program_counter
    }

    /// Move the program counter forward by `step`.
    ///
    /// Fails, changing nothing, if the result would reach 4096.
    pub fn advance_program_counter(&mut self, step: u16) -> (r: Result<(), CpuError>)
        ensures
            r is Ok <==> old(self).pc() + step < 4096,
            r is Err ==> *final(self) == *old(self) && r == Err::<(), CpuError>(
                CpuError::PCOutOfRange,
            ),
            r is Ok ==> {
                &&& final(self).pc() == old(self).pc() + step
                &&& final(self).addr() == old(self).addr()
                &&& final(self).stack_seq() == old(self).stack_seq()
                &&& same_regs(*old(self), *final(self))
                &&& same_timers(*old(self), *final(self))
                &&& same_rng(*old(self), *final(self))
            },
    {
        proof {
            use_type_invariant(&*self);
        }
        if step >= 4096 || self.program_counter + step >= 4096 {
            Err(CpuError::PCOutOfRange)
        } else {
            self.program_counter = self.program_counter + step;
            Ok(())
        }
    }

    /// Set the program counter.
    ///
    /// Fails, changing nothing, if the value does not fit in 12 bits.
    pub fn set_program_counter(&mut self, new_pc: u16) -> (r: Result<(), CpuError>)
        ensures
            r is Ok <==> new_pc < 4096,
            r is Err ==> *final(self) == *old(self) && r == Err::<(), CpuError>(
                CpuError::PCOutOfRange,
            ),
            r is Ok ==> {
                &&& final(self).pc() == new_pc
                &&& final(self).addr() == old(self).addr()
                &&& final(self).stack_seq() == old(self).stack_seq()
                &&& same_regs(*old(self), *final(self))
                &&& same_timers(*old(self), *final(self))
                &&& same_rng(*old(self), *final(self))
            },
    {
        proof {
            use_type_invariant(&*self);
        }
        if new_pc >= 4096 {
            Err(CpuError::PCOutOfRange)
        } else {
            self.program_counter = new_pc;
            Ok(())
        }
    }

    /// The address register I; always below 4096.
    pub fn address(&self) -> (r: u16)
        ensures
            r == self.addr(),
            r < 4096,
    {
        proof {
            use_type_invariant(&*self);
        }
        self.address
    }

    /// Set the address register I.
    ///
    /// Fails, changing nothing, if the value does not fit in 12 bits.
    pub fn set_address(&mut self, value: u16) -> (r: Result<(), CpuError>)
        ensures
            r is Ok <==> value < 4096,
            r is Err ==> *final(self) == *old(self) && r == Err::<(), CpuError>(
                CpuError::AddressOutOfRange,
            ),
            r is Ok ==> {
                &&& final(self).addr() == value
                &&& final(self).pc() == old(self).pc()
                &&& final(self).stack_seq() == old(self).stack_seq()
                &&& same_regs(*old(self), *final(self))
                &&& same_timers(*old(self), *final(self))
                &&& same_rng(*old(self), *final(self))
            },
    {
        proof {
            use_type_invariant(&*self);
        }
        if value >= 4096 {
            Err(CpuError::AddressOutOfRange)
        } else {
            self.address = value;
            Ok(())
        }
    }

    /// Move the address register I forward by `step`.
    ///
    /// Fails, changing nothing, if the result would reach 4096.
    pub fn advance_address(&mut self, step: u16) -> (r: Result<(), CpuError>)
        ensures
            r is Ok <==> old(self).addr() + step < 4096,
            r is Err ==> *final(self) == *old(self) && r == Err::<(), CpuError>(
                CpuError::AddressOutOfRange,
            ),
            r is Ok ==> {
                &&& final(self).addr() == old(self).addr() + step
                &&& final(self).pc() == old(self).pc()
                &&& final(self).stack_seq() == old(self).stack_seq()
                &&& same_regs(*old(self), *final(self))
                &&& same_timers(*old(self), *final(self))
                &&& same_rng(*old(self), *final(self))
            },
    {
        proof {
            use_type_invariant(&*self);
        }
        if step >= 4096 || step + self.address >= 4096 {
            Err(CpuError::AddressOutOfRange)
        } else {
            self.address = self.address + step;
            Ok(())
        }
    }

    /// Push a return address onto the call stack.
    ///
    /// Fails, changing nothing, at depth 16.
    pub fn stack_push(&mut self, address: u16) -> (r: Result<(), CpuError>)
        ensures
            r is Ok <==> old(self).stack_seq().len() < 16,
            r is Err ==> *final(self) == *old(self) && r == Err::<(), CpuError>(
                CpuError::StackLimitReached,
            ),
            r is Ok ==> {
                &&& final(self).stack_seq() == old(self).stack_seq().push(address)
                &&& final(self).pc() == old(self).pc()
                &&& final(self).addr() == old(self).addr()
                &&& same_regs(*old(self), *final(self))
                &&& same_timers(*old(self), *final(self))
                &&& same_rng(*old(self), *final(self))
            },
    {
        proof {
            use_type_invariant(&*self);
        }
        if self.stack_pointer == 16 {
            return Err(CpuError::StackLimitReached);
        }
        self.stack[self.stack_pointer] = address;
        self.stack_pointer = self.stack_pointer + 1;
        proof {
            assert(self.stack_seq() =~= old(self).stack_seq().push(address));
        }
        Ok(())
    }

    /// Pop the most recent return address off the call stack.
    ///
    /// Fails, changing nothing, on the empty stack.
    pub fn stack_pop(&mut self) -> (r: Result<u16, CpuError>)
        ensures
            r is Ok <==> old(self).stack_seq().len() > 0,
            r is Err ==> *final(self) == *old(self) && r == Err::<u16, CpuError>(
                CpuError::StackEmpty,
            ),
            r matches Ok(v) ==> {
                &&& v == old(self).stack_seq().last()
                &&& final(self).stack_seq() == old(self).stack_seq().drop_last()
                &&& final(self).pc() == old(self).pc()
                &&& final(self).addr() == old(self).addr()
                &&& same_regs(*old(self), *final(self))
                &&& same_timers(*old(self), *final(self))
                &&& same_rng(*old(self), *final(self))
            },
    {
        proof {
            use_type_invariant(&*self);
        }
        if self.stack_pointer == 0 {
            return Err(CpuError::StackEmpty);
        }
        let result = self.stack[self.stack_pointer - 1];
        self.stack_pointer = self.stack_pointer - 1;
        proof {
            assert(self.stack_seq() =~= old(self).stack_seq().drop_last());
        }
        Ok(result)
    }

    /// The number of live stack entries.
    pub fn stack_pointer(&self) -> (r: usize)
        ensures
            r == self.stack_seq().len(),
    {
        proof {
            use_type_invariant(&*self);
        }
        self.stack_pointer
    }

    /// The backing array of the call stack; entries at or past the stack
    /// pointer are dead.
    pub fn stack(&self) -> (r: [u16; 16])
        ensures
            forall|i: int| 0 <= i < self.stack_seq().len() ==> r@[i] == self.stack_seq()[i],
    {
        proof {
            use_type_invariant(&*self);
        }
        self.stack
    }

    /// The value of register VX.
    pub fn vx(&self, x: Index) -> (r: u8)
        ensures
            r == self.reg(x@ as int),
    {
        self.general[x.into_inner() as usize]
    }

    /// Store `value` into register VX.
    pub fn set_vx(&mut self, x: Index, value: u8)
        ensures
            final(self).reg(x@ as int) == value,
            same_regs_except(*old(self), *final(self), x@ as int),
            same_flow(*old(self), *final(self)),
            same_timers(*old(self), *final(self)),
            same_rng(*old(self), *final(self)),
    {
        proof {
            use_type_invariant(&*self);
        }
        self.general[x.into_inner() as usize] = value;
    }

    /// The delay timer value.
    pub fn delay_timer(&self) -> (r: u8)
        ensures
            r == self.delay(),
    {
        self.delay_timer
    }

    /// The sound timer value.
    pub fn sound_timer(&self) -> (r: u8)
        ensures
            r == self.sound(),
    {
        self.sound_timer
    }

    /// Set the delay timer.
    pub fn set_delay_timer(&mut self, value: u8)
        ensures
            final(self).delay() == value,
            final(self).sound() == old(self).sound(),
            same_regs(*old(self), *final(self)),
            same_flow(*old(self), *final(self)),
            same_rng(*old(self), *final(self)),
    {
        proof {
            use_type_invariant(&*self);
        }
        self.delay_timer = value;
    }

    /// Set the sound timer.
    pub fn set_sound_timer(&mut self, value: u8)
        ensures
            final(self).sound() == value,
            final(self).delay() == old(self).delay(),
            same_regs(*old(self), *final(self)),
            same_flow(*old(self), *final(self)),
            same_rng(*old(self), *final(self)),
    {
        proof {
            use_type_invariant(&*self);
        }
        self.sound_timer = value;
    }

    /// One byte from the pseudo-random source; the source advances.
    pub fn random(&mut self) -> (r: u8)
        ensures
            same_regs(*old(self), *final(self)),
            same_flow(*old(self), *final(self)),
            same_timers(*old(self), *final(self)),
    {
        proof {
            use_type_invariant(&*self);
        }
        rng::next_byte(&mut self.random_engine)
    }

    /// Put the pseudo-random source into the fixed state derived from `seed`,
    /// so that the following byte sequence is reproducible.
    pub fn reseed(&mut self, seed: u64)
        ensures
            same_regs(*old(self), *final(self)),
            same_flow(*old(self), *final(self)),
            same_timers(*old(self), *final(self)),
    {
        proof {
            use_type_invariant(&*self);
        }
        self.random_engine = rng::small_rng_seeded(seed);
    }

    /// Count each nonzero timer down by one; a timer at zero stays at zero.
    pub fn tick_timers(&mut self)
        ensures
            final(self).delay() == (if old(self).delay() > 0 {
                (old(self).delay() - 1) as u8
            } else {
                0u8
            }),
            final(self).sound() == (if old(self).sound() > 0 {
                (old(self).sound() - 1) as u8
            } else {
                0u8
            }),
            same_regs(*old(self), *final(self)),
            same_flow(*old(self), *final(self)),
            same_rng(*old(self), *final(self)),
    {
        proof {
            use_type_invariant(&*self);
        }
        if self.delay_timer > 0 {
            self.delay_timer = self.delay_timer - 1;
        }
        if self.sound_timer > 0 {
            self.sound_timer = self.sound_timer - 1;
        }
    }
}

} // verus!
