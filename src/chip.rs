//! The CPU: memory, registers, stack and timers, executing one instruction
//! per cycle and batching cycles into frames.

use crate::fault::Fault;
use crate::isa::{decode_instruction, decoded, operands_valid, Instruction};
use crate::peripheral::{Audio, Call, Input, Record, Timer, Video};
use crate::ram::{Ram, Read, Slice, Write, RAM_SIZE};
use crate::semantics::{
    cycle_calls, cycle_outcome, cycle_result, execute, fetch, frame_calls, frame_outcome, initial_state, run,
    run_calls, tick, wrap16, ChipState, Inputs,
    PROGRAM_START,
};
use vstd::prelude::*;

verus! {

/// Relies on `rand::random::<u8>`: a byte from the thread-local generator.
/// Nothing is known of its value.
#[verifier::external_body]
fn random_byte() -> u8 {
    rand::random::<u8>()
}

/// `a + b` modulo 65536.
fn add16(a: u16, b: u16) -> (r: u16)
    ensures
        r == wrap16(a + b),
{
    ((a as u32 + b as u32) % 65536) as u16
}

pub struct Chip {
    /// Programs begin at 0x0200.
    ram: Ram,
    stack: Vec<u16>,
    pc: u16,
    /// V0 to VF, sixteen 8-bit registers.
    regs: Vec<u8>,
    /// I, one 16-bit register.
    reg_i: u16,
    /// Counts down one frame at a time.
    reg_delay: u8,
    /// Counts down one frame at a time; the speaker buzzes while it is not zero.
    reg_sound: u8,
}

impl View for Chip {
    type V = ChipState;

    closed spec fn view(&self) -> ChipState {
        ChipState {
            mem: self.ram@,
            stack: self.stack@,
            pc: self.pc,
            regs: self.regs@,
            i: self.reg_i,
            delay: self.reg_delay,
            sound: self.reg_sound,
        }
    }
}

impl Default for Chip {
    fn default() -> (r: Chip)
        ensures
            r@ == initial_state(),
            r.wf(),
    {
        Chip::new()
    }
}

impl Chip {
    pub open spec fn wf(&self) -> bool {
        self@.wf()
    }

    /// Only construction through `Default` is offered.
    fn new() -> (r: Chip)
        ensures
            r@ == initial_state(),
            r.wf(),
    {
        let ram = Ram::new();
        let mut regs: Vec<u8> = Vec::new();
        let mut k: usize = 0;
        while k < 16
            invariant
                k <= 16,
                regs@ == Seq::new(k as nat, |r: int| 0u8),
            decreases 16 - k,
        {
            regs.push(0);
            k = k + 1;
        }
        let chip = Chip {
            ram,
            stack: Vec::new(),
            pc: PROGRAM_START,
            regs,
            reg_i: 0,
            reg_delay: 0,
            reg_sound: 0,
        };
        assert(chip@.mem =~= initial_state().mem);
        assert(chip@.stack =~= initial_state().stack);
        chip
    }

    /// Discards all state and returns to the state after construction.
    pub fn reset(&mut self)
        ensures
            final(self)@ == initial_state(),
            final(self).wf(),
    {
        *self = Chip::new();
    }

    /// Writes `data` into memory from `addr` on. Fails, writing nothing, if
    /// `data` reaches past the end of memory.
    pub fn load(&mut self, addr: u16, data: &[u8]) -> (r: Result<(), Fault>)
        requires
            old(self).wf(),
        ensures
            final(self).wf(),
            if addr + data@.len() <= RAM_SIZE {
                &&& r == Ok::<(), Fault>(())
                &&& final(self)@ == (ChipState {
                    mem: old(self)@.mem.subrange(0, addr as int) + data@ + old(self)@.mem.subrange(
                        addr + data@.len(),
                        RAM_SIZE as int,
                    ),
                    ..old(self)@
                })
            } else {
                &&& r == Err::<(), Fault>(
                    Fault::OutOfBoundsAccess { addr: addr as usize, len: data@.len() as usize },
                )
                &&& final(self)@ == old(self)@
            },
    {
        let start = addr as usize;
        let len = data.len();
        if start > RAM_SIZE || len > RAM_SIZE - start {
            return Err(Fault::OutOfBoundsAccess { addr: start, len });
        }
        let mut k: usize = 0;
        assert(old(self)@.mem.subrange(0, start as int) + data@.subrange(0, 0) + old(self)@.mem.subrange(
            start as int,
            RAM_SIZE as int,
        ) =~= old(self)@.mem);
        while k < len
            invariant
                k <= len == data@.len(),
                start + len <= RAM_SIZE,
                old(self).wf(),
                self.wf(),
                self@ == (ChipState {
                    mem: old(self)@.mem.subrange(0, start as int) + data@.subrange(0, k as int)
                        + old(self)@.mem.subrange(start + k, RAM_SIZE as int),
                    ..old(self)@
                }),
            decreases len - k,
        {
            let ghost before = self.ram@;
            self.ram.write(start + k, data[k]);
            assert(self.ram@ == before.update(start + k, data@[k as int]));
            k = k + 1;
            assert(self.ram@ =~= old(self)@.mem.subrange(0, start as int) + data@.subrange(0, k as int)
                + old(self)@.mem.subrange(start + k, RAM_SIZE as int));
        }
        assert(data@.subrange(0, len as int) =~= data@);
        Ok(())
    }

    /// The instruction word at the program counter.
    fn fetch_word(&mut self) -> (r: Result<u16, Fault>)
        requires
            old(self).wf(),
        ensures
            r == fetch(old(self)@),
            *final(self) == *old(self),
    {
        let at = self.pc as usize;
        if at + 2 <= RAM_SIZE {
            Ok(self.ram.read(at))
        } else {
            Err(Fault::OutOfBoundsAccess { addr: at, len: 2 })
        }
    }
}

impl Chip {
    /// Register `x`'s value.
    fn reg(&self, x: usize) -> (r: u8)
        requires
            self.wf(),
            x < 16,
        ensures
            r == self@.regs[x as int],
    {
        self.regs[x]
    }

    fn set_reg(&mut self, x: usize, v: u8)
        requires
            old(self).wf(),
            x < 16,
        ensures
            final(self).wf(),
            final(self)@ == old(self)@.set_reg(x as int, v),
    {
        self.regs.set(x, v);
    }

    /// Moves the program counter on past one more instruction when `cond` holds.
    fn skip_when(&mut self, cond: bool)
        requires
            old(self).wf(),
        ensures
            final(self).wf(),
            final(self)@ == (if cond {
                old(self)@.jump(wrap16(old(self)@.pc + 2))
            } else {
                old(self)@
            }),
    {
        if cond {
            self.pc = add16(self.pc, 2);
        }
    }

    /// Executes `op`, fetched at the program counter, given the answers
    /// `io`; on a fault nothing changes.
    fn apply(&mut self, op: Instruction, io: &Inputs) -> (r: Result<bool, Fault>)
        requires
            old(self).wf(),
            operands_valid(op),
        ensures
            final(self).wf(),
            match execute(old(self)@, op, *io) {
                Ok((t, halt)) => r == Ok::<bool, Fault>(halt) && final(self)@ == t,
                Err(f) => r == Err::<bool, Fault>(f) && final(self)@ == old(self)@,
            },
    {
        match op {
            Instruction::Clear => self.apply_flow(op, io),
            Instruction::Return => self.apply_flow(op, io),
            Instruction::Jump(..) => self.apply_flow(op, io),
            Instruction::Call(..) => self.apply_flow(op, io),
            Instruction::SkipEqImm(..) => self.apply_flow(op, io),
            Instruction::SkipNeImm(..) => self.apply_flow(op, io),
            Instruction::SkipEqReg(..) => self.apply_flow(op, io),
            Instruction::SkipNeReg(..) => self.apply_flow(op, io),
            Instruction::JumpOffset(..) => self.apply_flow(op, io),
            Instruction::SkipKeyDown(..) => self.apply_flow(op, io),
            Instruction::SkipKeyUp(..) => self.apply_flow(op, io),
            Instruction::LoadImm(..) => self.apply_alu(op, io),
            Instruction::AddImm(..) => self.apply_alu(op, io),
            Instruction::Assign(..) => self.apply_alu(op, io),
            Instruction::Or(..) => self.apply_alu(op, io),
            Instruction::And(..) => self.apply_alu(op, io),
            Instruction::Xor(..) => self.apply_alu(op, io),
            Instruction::Add(..) => self.apply_flags(op, io),
            Instruction::Sub(..) => self.apply_flags(op, io),
            Instruction::ShiftRight(..) => self.apply_flags(op, io),
            Instruction::SubReversed(..) => self.apply_flags(op, io),
            Instruction::ShiftLeft(..) => self.apply_flags(op, io),
            _ => self.apply_misc(op, io),
        }
    }

    /// Control flow: jumps, calls, returns and skips.
    #[verifier::rlimit(60)]
    fn apply_flow(&mut self, op: Instruction, io: &Inputs) -> (r: Result<bool, Fault>)
        requires
            old(self).wf(),
            operands_valid(op),
            op is Clear || op is Return || op is Jump || op is Call || op is SkipEqImm
                || op is SkipNeImm || op is SkipEqReg || op is SkipNeReg || op is JumpOffset
                || op is SkipKeyDown || op is SkipKeyUp,
        ensures
            final(self).wf(),
            match execute(old(self)@, op, *io) {
                Ok((t, halt)) => r == Ok::<bool, Fault>(halt) && final(self)@ == t,
                Err(f) => r == Err::<bool, Fault>(f) && final(self)@ == old(self)@,
            },
    {
        let at = self.pc;
        let next = add16(self.pc, 2);
        match op {
            Instruction::Clear => {
                self.pc = next;
            },
            Instruction::Return => {
                if self.stack.len() == 0 {
                    return Err(Fault::StackUnderflow(at));
                }
                match self.stack.pop() {
                    Some(back) => {
                        self.pc = back;
                    },
                    None => {},
                }
            },
            Instruction::Jump(n) => {
                self.pc = n;
            },
            Instruction::Call(n) => {
                self.stack.push(next);
                self.pc = n;
            },
            Instruction::SkipEqImm(x, n) => {
                self.pc = next;
                let v = self.reg(x);
                self.skip_when(v == n);
            },
            Instruction::SkipNeImm(x, n) => {
                self.pc = next;
                let v = self.reg(x);
                self.skip_when(v != n);
            },
            Instruction::SkipEqReg(x, y) => {
                self.pc = next;
                let (vx, vy) = (self.reg(x), self.reg(y));
                self.skip_when(vx == vy);
            },
            Instruction::SkipNeReg(x, y) => {
                self.pc = next;
                let (vx, vy) = (self.reg(x), self.reg(y));
                self.skip_when(vx != vy);
            },
            Instruction::JumpOffset(n) => {
                let v0 = self.reg(0);
                self.pc = add16(v0 as u16, n);
            },
            Instruction::SkipKeyDown(x) => {
                self.pc = next;
                self.skip_when(io.key_down);
            },
            Instruction::SkipKeyUp(x) => {
                self.pc = next;
                self.skip_when(!io.key_down);
            },
            _ => {},
        }
        Ok(false)
    }

    /// Register loads and arithmetic.
    #[verifier::rlimit(60)]
    fn apply_alu(&mut self, op: Instruction, io: &Inputs) -> (r: Result<bool, Fault>)
        requires
            old(self).wf(),
            operands_valid(op),
            op is LoadImm || op is AddImm || op is Assign || op is Or || op is And || op is Xor,
        ensures
            final(self).wf(),
            match execute(old(self)@, op, *io) {
                Ok((t, halt)) => r == Ok::<bool, Fault>(halt) && final(self)@ == t,
                Err(f) => r == Err::<bool, Fault>(f) && final(self)@ == old(self)@,
            },
    {
        let next = add16(self.pc, 2);
        match op {
            Instruction::LoadImm(x, n) => {
                self.pc = next;
                self.set_reg(x, n);
            },
            Instruction::AddImm(x, n) => {
                self.pc = next;
                let v = self.reg(x);
                self.set_reg(x, ((v as u16 + n as u16) % 256) as u8);
            },
            Instruction::Assign(x, y) => {
                self.pc = next;
                let v = self.reg(y);
                self.set_reg(x, v);
            },
            Instruction::Or(x, y) => {
                self.pc = next;
                let (vx, vy) = (self.reg(x), self.reg(y));
                self.set_reg(x, vx | vy);
            },
            Instruction::And(x, y) => {
                self.pc = next;
                let (vx, vy) = (self.reg(x), self.reg(y));
                self.set_reg(x, vx & vy);
            },
            Instruction::Xor(x, y) => {
                self.pc = next;
                let (vx, vy) = (self.reg(x), self.reg(y));
                self.set_reg(x, vx ^ vy);
            },
            _ => {},
        }
        Ok(false)
    }

    /// Arithmetic that sets the flag register VF.
    #[verifier::rlimit(60)]
    fn apply_flags(&mut self, op: Instruction, io: &Inputs) -> (r: Result<bool, Fault>)
        requires
            old(self).wf(),
            operands_valid(op),
            op is Add || op is Sub || op is ShiftRight || op is SubReversed || op is ShiftLeft,
        ensures
            final(self).wf(),
            match execute(old(self)@, op, *io) {
                Ok((t, halt)) => r == Ok::<bool, Fault>(halt) && final(self)@ == t,
                Err(f) => r == Err::<bool, Fault>(f) && final(self)@ == old(self)@,
            },
    {
        let next = add16(self.pc, 2);
        match op {
            Instruction::Add(x, y) => {
                self.pc = next;
                let sum = self.reg(x) as u16 + self.reg(y) as u16;
                self.set_reg(15, (sum / 256) as u8);
                self.set_reg(x, (sum % 256) as u8);
            },
            Instruction::Sub(x, y) => {
                self.pc = next;
                let (vx, vy) = (self.reg(x), self.reg(y));
                self.set_reg(15, if vx < vy { 0 } else { 1 });
                self.set_reg(x, ((vx as u16 + 256 - vy as u16) % 256) as u8);
            },
            Instruction::ShiftRight(x, y) => {
                self.pc = next;
                let vy = self.reg(y);
                self.set_reg(15, vy % 2);
                self.set_reg(x, vy / 2);
            },
            Instruction::SubReversed(x, y) => {
                self.pc = next;
                let (vx, vy) = (self.reg(x), self.reg(y));
                self.set_reg(15, if vy < vx { 0 } else { 1 });
                self.set_reg(x, ((vy as u16 + 256 - vx as u16) % 256) as u8);
            },
            Instruction::ShiftLeft(x, y) => {
                self.pc = next;
                let vy = self.reg(y);
                self.set_reg(15, vy / 128);
                self.set_reg(x, ((vy as u16 * 2) % 256) as u8);
            },
            _ => {},
        }
        Ok(false)
    }

    /// The index register, timers, peripherals and block copies.
    #[verifier::rlimit(60)]
    fn apply_misc(&mut self, op: Instruction, io: &Inputs) -> (r: Result<bool, Fault>)
        requires
            old(self).wf(),
            operands_valid(op),
            op is LoadIndex || op is Random || op is Draw || op is ReadDelay || op is WaitKey
                || op is SetDelay || op is SetSound || op is AddIndex || op is StoreRegs
                || op is LoadRegs,
        ensures
            final(self).wf(),
            match execute(old(self)@, op, *io) {
                Ok((t, halt)) => r == Ok::<bool, Fault>(halt) && final(self)@ == t,
                Err(f) => r == Err::<bool, Fault>(f) && final(self)@ == old(self)@,
            },
    {
        let next = add16(self.pc, 2);
        match op {
            Instruction::LoadIndex(n) => {
                self.pc = next;
                self.reg_i = n;
            },
            Instruction::Random(x, n) => {
                self.pc = next;
                self.set_reg(x, io.random & n);
            },
            Instruction::Draw(x, y, n) => {
                if self.reg_i as usize + n as usize > RAM_SIZE {
                    return Err(Fault::OutOfBoundsAccess { addr: self.reg_i as usize, len: n as usize });
                }
                self.pc = next;
                self.set_reg(15, if io.collision { 1 } else { 0 });
            },
            Instruction::ReadDelay(x) => {
                self.pc = next;
                let d = self.reg_delay;
                self.set_reg(x, d);
            },
            Instruction::WaitKey(x) => {
                self.pc = next;
                match io.key {
                    Some(k) => self.set_reg(x, k),
                    None => {
                        return Ok(true);
                    },
                }
            },
            Instruction::SetDelay(x) => {
                self.pc = next;
                self.reg_delay = self.reg(x);
            },
            Instruction::SetSound(x) => {
                self.pc = next;
                self.reg_sound = self.reg(x);
            },
            Instruction::AddIndex(x) => {
                self.pc = next;
                let v = self.reg(x);
                self.reg_i = add16(self.reg_i, v as u16);
            },
            Instruction::StoreRegs(x) => {
                return self.store_regs(x, next);
            },
            Instruction::LoadRegs(x) => {
                return self.load_regs(x, next);
            },
            _ => {},
        }
        Ok(false)
    }

    /// Copies V0 to Vx into memory from I on, then moves to `next`.
    fn store_regs(&mut self, x: usize, next: u16) -> (r: Result<bool, Fault>)
        requires
            old(self).wf(),
            x < 16,
            next == wrap16(old(self)@.pc + 2),
        ensures
            final(self).wf(),
            match execute(old(self)@, Instruction::StoreRegs(x), arbitrary()) {
                Ok((t, halt)) => r == Ok::<bool, Fault>(halt) && final(self)@ == t,
                Err(f) => r == Err::<bool, Fault>(f) && final(self)@ == old(self)@,
            },
    {
        let start = self.reg_i as usize;
        if start + x + 1 > RAM_SIZE {
            return Err(Fault::OutOfBoundsAccess { addr: start, len: x + 1 });
        }
        let block = self.ram.slice(start, x + 1);
        let mut k: usize = 0;
        while k <= x
            invariant
                k <= x + 1,
                x < 16,
                self.regs@.len() == 16,
                block@.len() == x + 1,
                forall|j: int| 0 <= j < k ==> block@[j] == self.regs@[j],
            decreases x + 1 - k,
        {
            block[k] = self.regs[k];
            k = k + 1;
        }
        assert(block@ =~= self.regs@.subrange(0, x + 1));
        self.pc = next;
        Ok(false)
    }

    /// Copies memory from I on into V0 to Vx, then moves to `next`.
    fn load_regs(&mut self, x: usize, next: u16) -> (r: Result<bool, Fault>)
        requires
            old(self).wf(),
            x < 16,
            next == wrap16(old(self)@.pc + 2),
        ensures
            final(self).wf(),
            match execute(old(self)@, Instruction::LoadRegs(x), arbitrary()) {
                Ok((t, halt)) => r == Ok::<bool, Fault>(halt) && final(self)@ == t,
                Err(f) => r == Err::<bool, Fault>(f) && final(self)@ == old(self)@,
            },
    {
        let start = self.reg_i as usize;
        if start + x + 1 > RAM_SIZE {
            return Err(Fault::OutOfBoundsAccess { addr: start, len: x + 1 });
        }
        let mut k: usize = 0;
        assert(old(self)@.mem.subrange(start as int, start as int) + old(self)@.regs.subrange(0, 16)
            =~= old(self)@.regs);
        while k <= x
            invariant
                k <= x + 1,
                x < 16,
                start + x + 1 <= RAM_SIZE,
                old(self).wf(),
                self.wf(),
                self@ == (ChipState {
                    regs: old(self)@.mem.subrange(start as int, start + k) + old(self)@.regs.subrange(
                        k as int,
                        16,
                    ),
                    ..old(self)@
                }),
            decreases x + 1 - k,
        {
            let v: u8 = self.ram.read(start + k);
            self.regs.set(k, v);
            k = k + 1;
            assert(self.regs@ =~= old(self)@.mem.subrange(start as int, start + k)
                + old(self)@.regs.subrange(k as int, 16));
        }
        self.pc = next;
        proof {
            assert(self.regs@ =~= old(self)@.mem.subrange(start as int, start + x + 1)
                + old(self)@.regs.subrange(x + 1, 16));
        }
        Ok(false)
    }
}

impl Chip {
    /// The instruction at the program counter, decoded.
    fn fetch_instruction(&mut self) -> (r: Result<Instruction, Fault>)
        requires
            old(self).wf(),
        ensures
            *final(self) == *old(self),
            match fetch(old(self)@) {
                Ok(inst) => match decoded(inst) {
                    Some(op) => r == Ok::<Instruction, Fault>(op),
                    None => r == Err::<Instruction, Fault>(Fault::UnsupportedInstruction(inst)),
                },
                Err(f) => r == Err::<Instruction, Fault>(f),
            },
            r matches Ok(op) ==> operands_valid(op),
    {
        match self.fetch_word() {
            Ok(inst) => decode_instruction(inst),
            Err(f) => Err(f),
        }
    }

    /// One cycle, the peripherals' answers being `io`: fetches the word at
    /// the program counter, decodes and executes it. Returns whether a halt
    /// was requested; on a fault nothing changes.
    pub fn cycle_with(&mut self, io: &Inputs) -> (r: Result<bool, Fault>)
        requires
            old(self).wf(),
        ensures
            final(self).wf(),
            cycle_outcome(old(self)@, *io, r, final(self)@),
    {
        proof {
            reveal(cycle_result);
        }
        match self.fetch_instruction() {
            Ok(op) => self.apply(op, io),
            Err(f) => Err(f),
        }
    }

    /// One cycle: fetches, decodes and executes the instruction at the
    /// program counter, asking the peripherals for what it needs. Returns
    /// whether a halt was requested; on a fault nothing changes. The calls
    /// on `p` are exactly those that `cycle_calls` lists, and the answers
    /// that the cycle acted on are the ones those calls returned.
    pub fn cycle<P: Video + Audio + Input>(&mut self, p: &mut P) -> (r: Result<bool, Fault>)
        requires
            old(self).wf(),
        ensures
            final(self).wf(),
            exists|io: Inputs|
                {
                    &&& cycle_outcome(old(self)@, io, r, final(self)@)
                    &&& final(p).calls() == old(p).calls() + cycle_calls(old(self)@, io)
                },
    {
        proof {
            reveal(cycle_result);
        }
        let mut io = Inputs { collision: false, key_down: false, key: None, random: 0 };
        let op = match self.fetch_instruction() {
            Ok(op) => op,
            Err(f) => {
                assert(p.calls() =~= old(p).calls() + cycle_calls(old(self)@, io));
                assert(cycle_outcome(old(self)@, io, Err(f), self@));
                return Err(f);
            },
        };
        match op {
            Instruction::Clear => p.clear(),
            Instruction::Draw(x, y, n) => {
                let start = self.reg_i as usize;
                let len = n as usize;
                if start + len > RAM_SIZE {
                    let r = Err(Fault::OutOfBoundsAccess { addr: start, len });
                    assert(p.calls() =~= old(p).calls() + cycle_calls(old(self)@, io));
                    assert(cycle_outcome(old(self)@, io, r, self@));
                    return r;
                }
                let vx = self.reg(x) as isize;
                let vy = self.reg(y) as isize;
                let ghost mem = self.ram@;
                let sprite = self.ram.slice(start, len);
                let shown: &[u8] = &*sprite;
                io.collision = p.draw(vx, vy, shown);
                assert(shown@ == mem.subrange(start as int, start + len));
                assert(self.ram@ =~= mem);
            },
            Instruction::SkipKeyDown(x) => {
                io.key_down = p.keydown(self.reg(x) as usize);
            },
            Instruction::SkipKeyUp(x) => {
                io.key_down = p.keydown(self.reg(x) as usize);
            },
            Instruction::WaitKey(_) => {
                io.key = p.key();
            },
            Instruction::Random(_, _) => {
                io.random = random_byte();
            },
            _ => {},
        }
        assert(p.calls() =~= old(p).calls() + cycle_calls(old(self)@, io));
        let r = self.apply(op, &io);
        assert(cycle_outcome(old(self)@, io, r, self@));
        r
    }

    /// Counts the timers down, as at the start of a frame. Returns whether
    /// the sound timer was running, that is whether the buzzer should sound
    /// during this frame.
    fn tick_timers(&mut self) -> (on: bool)
        requires
            old(self).wf(),
        ensures
            final(self).wf(),
            final(self)@ == tick(old(self)@),
            on == (old(self)@.sound > 0),
    {
        if self.reg_delay > 0 {
            self.reg_delay = self.reg_delay - 1;
        }
        if self.reg_sound > 0 {
            self.reg_sound = self.reg_sound - 1;
            true
        } else {
            false
        }
    }

    /// One frame: counts the timers down, turns the buzzer on while the
    /// sound timer was running and off otherwise, runs up to `num_cycle`
    /// cycles, then presents the screen and pumps the timer. Returns whether
    /// execution should stop: a cycle requested a halt (the frame ends
    /// there, without presenting or pumping) or the timer reported a quit
    /// request. The calls on `peripheral` are exactly those that
    /// `frame_calls` lists, the cycles acting on the answers logged there.
    pub fn frame<P: Timer + Video + Audio + Input>(&mut self, num_cycle: usize, peripheral: &mut P) -> (r: Result<bool, Fault>)
        requires
            old(self).wf(),
        ensures
            final(self).wf(),
            exists|ios: Seq<Inputs>|
                {
                    &&& frame_outcome(old(self)@, num_cycle as nat, ios, r, final(self)@)
                    &&& final(peripheral).calls() == old(peripheral).calls() + frame_calls(old(self)@, ios, r)
                },
    {
        let on = self.tick_timers();
        peripheral.buzz(on);
        let ghost start = tick(old(self)@);
        let ghost head = old(peripheral).calls().push(Call::Buzz(old(self)@.sound > 0));
        let ghost mut ios: Seq<Inputs> = Seq::empty();
        let mut k: usize = 0;
        while k < num_cycle
            invariant
                k <= num_cycle,
                ios.len() == k,
                self.wf(),
                start == tick(old(self)@),
                head == old(peripheral).calls().push(Call::Buzz(old(self)@.sound > 0)),
                run(start, ios) == (self@, Ok::<bool, Fault>(false)),
                peripheral.calls() == head + run_calls(start, ios),
            decreases num_cycle - k,
        {
            let ghost before = self@;
            let ghost log = peripheral.calls();
            let r = self.cycle(peripheral);
            let ghost io = choose|io: Inputs|
                {
                    &&& cycle_outcome(before, io, r, self@)
                    &&& peripheral.calls() == log + cycle_calls(before, io)
                };
            proof {
                let prev = ios;
                ios = ios.push(io);
                assert(ios.drop_last() == prev);
                assert(peripheral.calls() =~= head + run_calls(start, ios));
            }
            match r {
                Ok(false) => {},
                _ => {
                    assert(frame_outcome(old(self)@, num_cycle as nat, ios, r, self@));
                    assert(peripheral.calls() =~= old(peripheral).calls() + frame_calls(old(self)@, ios, r));
                    return r;
                },
            }
            k = k + 1;
        }
        peripheral.present();
        let r = Ok(peripheral.pump());
        assert(frame_outcome(old(self)@, num_cycle as nat, ios, r, self@));
        assert(peripheral.calls() =~= old(peripheral).calls() + frame_calls(old(self)@, ios, r));
        r
    }
}

impl Chip {
    /// The program counter.
    pub fn pc(&self) -> (r: u16)
        ensures
            r == self@.pc,
    {
        self.pc
    }

    /// Register `x`, VF being 15.
    pub fn register(&self, x: usize) -> (r: u8)
        requires
            self.wf(),
            x < 16,
        ensures
            r == self@.regs[x as int],
    {
        self.regs[x]
    }

    /// The address register I.
    pub fn index(&self) -> (r: u16)
        ensures
            r == self@.i,
    {
        self.reg_i
    }

    pub fn delay_timer(&self) -> (r: u8)
        ensures
            r == self@.delay,
    {
        self.reg_delay
    }

    pub fn sound_timer(&self) -> (r: u8)
        ensures
            r == self@.sound,
    {
        self.reg_sound
    }

    /// The number of return addresses on the call stack.
    pub fn stack_depth(&self) -> (r: usize)
        ensures
            r == self@.stack.len(),
    {
        self.stack.len()
    }

    /// The byte at `addr`.
    pub fn memory(&self, addr: usize) -> (r: u8)
        requires
            self.wf(),
            addr < RAM_SIZE,
        ensures
            r == self@.mem[addr as int],
    {
        self.ram.get(addr)
    }
}

} // verus!
