//! The machine's state as a mathematical value, and what one instruction,
//! one cycle and one frame do to it.

use crate::fault::Fault;
use crate::isa::{decoded, Instruction};
use crate::peripheral::Call;
use crate::ram::{word, RAM_SIZE};
use vstd::prelude::*;

verus! {

/// Where programs start, and where the program counter is after a reset.
pub const PROGRAM_START: u16 = 0x0200;

/// The state of the machine.
pub struct ChipState {
    /// The memory, `RAM_SIZE` bytes.
    pub mem: Seq<u8>,
    /// Return addresses, the most recent last.
    pub stack: Seq<u16>,
    /// The program counter.
    pub pc: u16,
    /// V0 to VF; VF doubles as the flag register.
    pub regs: Seq<u8>,
    /// The address register I.
    pub i: u16,
    /// The delay timer.
    pub delay: u8,
    /// The sound timer.
    pub sound: u8,
}

impl ChipState {
    pub open spec fn wf(self) -> bool {
        self.mem.len() == RAM_SIZE && self.regs.len() == 16
    }

    /// The state with register `x` set to `v`.
    pub open spec fn set_reg(self, x: int, v: u8) -> ChipState {
        ChipState { regs: self.regs.update(x, v), ..self }
    }

    /// The state with the program counter at `pc`.
    pub open spec fn jump(self, pc: u16) -> ChipState {
        ChipState { pc, ..self }
    }
}

/// What the peripherals and the random source answered during one cycle.
/// An instruction reads only the answer that concerns it.
#[derive(Clone, Copy, Debug)]
pub struct Inputs {
    /// What drawing the sprite reported: a pixel went from set to clear.
    pub collision: bool,
    /// Whether the key that the instruction asks about is down.
    pub key_down: bool,
    /// The key that was waited for, or `None` on a quit request.
    pub key: Option<u8>,
    /// A random byte.
    pub random: u8,
}

/// `x` modulo 256.
pub open spec fn wrap8(x: int) -> u8 {
    (x % 256) as u8
}

/// `x` modulo 65536.
pub open spec fn wrap16(x: int) -> u16 {
    (x % 65536) as u16
}

/// The state after a reset: zero memory and registers, an empty stack,
/// timers at zero and the program counter at `PROGRAM_START`.
pub open spec fn initial_state() -> ChipState {
    ChipState {
        mem: Seq::new(RAM_SIZE as nat, |a: int| 0u8),
        stack: Seq::empty(),
        pc: PROGRAM_START,
        regs: Seq::new(16, |r: int| 0u8),
        i: 0,
        delay: 0,
        sound: 0,
    }
}

/// The instruction word at the program counter.
pub open spec fn fetch(s: ChipState) -> Result<u16, Fault> {
    if s.pc + 2 <= RAM_SIZE {
        Ok(word(s.mem[s.pc as int], s.mem[s.pc + 1]))
    } else {
        Err(Fault::OutOfBoundsAccess { addr: s.pc as usize, len: 2 })
    }
}

/// Whether `len` bytes from `addr` lie inside the memory.
pub open spec fn in_memory(addr: int, len: int) -> bool {
    addr + len <= RAM_SIZE
}

/// `s` with `t` as its program counter, moved on past one more instruction
/// when `cond` holds.
pub open spec fn skip_if(s: ChipState, t: u16, cond: bool) -> ChipState {
    if cond {
        s.jump(wrap16(t + 2))
    } else {
        s.jump(t)
    }
}

/// Executes `op`, fetched at `s.pc`, given the peripherals' answers `io`.
/// The program counter moves past the instruction before it takes effect.
/// Returns the new state and whether a halt was requested.
pub open spec fn execute(s: ChipState, op: Instruction, io: Inputs) -> Result<(ChipState, bool), Fault> {
    let next = wrap16(s.pc + 2);
    let t = s.jump(next);
    match op {
        Instruction::Clear => Ok((t, false)),
        Instruction::Return => if s.stack.len() == 0 {
            Err(Fault::StackUnderflow(s.pc))
        } else {
            Ok((ChipState { stack: s.stack.drop_last(), ..s.jump(s.stack.last()) }, false))
        },
        Instruction::Jump(n) => Ok((s.jump(n), false)),
        Instruction::Call(n) => Ok((ChipState { stack: s.stack.push(next), ..s.jump(n) }, false)),
        Instruction::SkipEqImm(x, n) => Ok((skip_if(s, next, s.regs[x as int] == n), false)),
        Instruction::SkipNeImm(x, n) => Ok((skip_if(s, next, s.regs[x as int] != n), false)),
        Instruction::SkipEqReg(x, y) => Ok(
            (skip_if(s, next, s.regs[x as int] == s.regs[y as int]), false),
        ),
        Instruction::LoadImm(x, n) => Ok((t.set_reg(x as int, n), false)),
        Instruction::AddImm(x, n) => Ok((t.set_reg(x as int, wrap8(s.regs[x as int] + n)), false)),
        Instruction::Assign(x, y) => Ok((t.set_reg(x as int, s.regs[y as int]), false)),
        Instruction::Or(x, y) => Ok((t.set_reg(x as int, s.regs[x as int] | s.regs[y as int]), false)),
        Instruction::And(x, y) => Ok((t.set_reg(x as int, s.regs[x as int] & s.regs[y as int]), false)),
        Instruction::Xor(x, y) => Ok((t.set_reg(x as int, s.regs[x as int] ^ s.regs[y as int]), false)),
        // The flag is written first: with x = F the result overwrites it.
        Instruction::Add(x, y) => {
            let sum = s.regs[x as int] + s.regs[y as int];
            Ok((t.set_reg(15, (sum / 256) as u8).set_reg(x as int, wrap8(sum)), false))
        },
        Instruction::Sub(x, y) => {
            let vx = s.regs[x as int];
            let vy = s.regs[y as int];
            let flag: u8 = if vx < vy { 0 } else { 1 };
            Ok((t.set_reg(15, flag).set_reg(x as int, wrap8(vx - vy)), false))
        },
        Instruction::ShiftRight(x, y) => {
            let vy = s.regs[y as int];
            Ok((t.set_reg(15, vy % 2).set_reg(x as int, vy / 2), false))
        },
        Instruction::SubReversed(x, y) => {
            let vx = s.regs[x as int];
            let vy = s.regs[y as int];
            let flag: u8 = if vy < vx { 0 } else { 1 };
            Ok((t.set_reg(15, flag).set_reg(x as int, wrap8(vy - vx)), false))
        },
        Instruction::ShiftLeft(x, y) => {
            let vy = s.regs[y as int];
            Ok((t.set_reg(15, vy / 128).set_reg(x as int, wrap8(vy * 2)), false))
        },
        Instruction::SkipNeReg(x, y) => Ok(
            (skip_if(s, next, s.regs[x as int] != s.regs[y as int]), false),
        ),
        Instruction::LoadIndex(n) => Ok((ChipState { i: n, ..t }, false)),
        Instruction::JumpOffset(n) => Ok((s.jump(wrap16(s.regs[0] + n)), false)),
        Instruction::Random(x, n) => Ok((t.set_reg(x as int, io.random & n), false)),
        Instruction::Draw(x, y, n) => if in_memory(s.i as int, n as int) {
            Ok((t.set_reg(15, if io.collision { 1u8 } else { 0u8 }), false))
        } else {
            Err(Fault::OutOfBoundsAccess { addr: s.i as usize, len: n as usize })
        },
        Instruction::SkipKeyDown(x) => Ok((skip_if(s, next, io.key_down), false)),
        Instruction::SkipKeyUp(x) => Ok((skip_if(s, next, !io.key_down), false)),
        Instruction::ReadDelay(x) => Ok((t.set_reg(x as int, s.delay), false)),
        Instruction::WaitKey(x) => match io.key {
            Some(k) => Ok((t.set_reg(x as int, k), false)),
            None => Ok((t, true)),
        },
        Instruction::SetDelay(x) => Ok((ChipState { delay: s.regs[x as int], ..t }, false)),
        Instruction::SetSound(x) => Ok((ChipState { sound: s.regs[x as int], ..t }, false)),
        Instruction::AddIndex(x) => Ok((ChipState { i: wrap16(s.i + s.regs[x as int]), ..t }, false)),
        Instruction::StoreRegs(x) => if in_memory(s.i as int, x + 1) {
            let mem = s.mem.subrange(0, s.i as int) + s.regs.subrange(0, x + 1) + s.mem.subrange(
                s.i + x + 1,
                RAM_SIZE as int,
            );
            Ok((ChipState { mem, ..t }, false))
        } else {
            Err(Fault::OutOfBoundsAccess { addr: s.i as usize, len: (x + 1) as usize })
        },
        Instruction::LoadRegs(x) => if in_memory(s.i as int, x + 1) {
            let regs = s.mem.subrange(s.i as int, s.i + x + 1) + s.regs.subrange(x + 1, 16);
            Ok((ChipState { regs, ..t }, false))
        } else {
            Err(Fault::OutOfBoundsAccess { addr: s.i as usize, len: (x + 1) as usize })
        },
    }
}

/// Decodes the word `inst`, fetched at `s.pc`, and executes it.
pub open spec fn execute_word(s: ChipState, inst: u16, io: Inputs) -> Result<(ChipState, bool), Fault> {
    match decoded(inst) {
        Some(op) => execute(s, op, io),
        None => Err(Fault::UnsupportedInstruction(inst)),
    }
}

/// One cycle: fetch the word at the program counter, decode and execute it.
#[verifier::opaque]
pub open spec fn cycle_result(s: ChipState, io: Inputs) -> Result<(ChipState, bool), Fault> {
    match fetch(s) {
        Ok(inst) => execute_word(s, inst, io),
        Err(f) => Err(f),
    }
}

/// The peripheral calls that the cycle from `s` makes, the peripherals
/// answering `io`: a clear, the drawing of the sprite at I in memory at
/// (VX, VY), a key query for VX, or a key wait. No other instruction, and no
/// cycle that faults, calls a peripheral.
pub open spec fn cycle_calls(s: ChipState, io: Inputs) -> Seq<Call> {
    match fetch(s) {
        Ok(inst) => match decoded(inst) {
            Some(Instruction::Clear) => seq![Call::Clear],
            Some(Instruction::Draw(x, y, n)) => if in_memory(s.i as int, n as int) {
                seq![
                    Call::Draw(
                        s.regs[x as int] as isize,
                        s.regs[y as int] as isize,
                        s.mem.subrange(s.i as int, s.i + n),
                        io.collision,
                    ),
                ]
            } else {
                Seq::empty()
            },
            Some(Instruction::SkipKeyDown(x)) => seq![Call::KeyDown(s.regs[x as int] as usize, io.key_down)],
            Some(Instruction::SkipKeyUp(x)) => seq![Call::KeyDown(s.regs[x as int] as usize, io.key_down)],
            Some(Instruction::WaitKey(_)) => seq![Call::Key(io.key)],
            _ => Seq::empty(),
        },
        Err(_) => Seq::empty(),
    }
}

/// Whether a cycle from `s` may have returned `r` and left `s2`, the
/// peripherals having answered `io`. A faulting cycle changes nothing.
pub open spec fn cycle_outcome(s: ChipState, io: Inputs, r: Result<bool, Fault>, s2: ChipState) -> bool {
    match cycle_result(s, io) {
        Ok((t, halt)) => r == Ok::<bool, Fault>(halt) && s2 == t,
        Err(f) => r == Err::<bool, Fault>(f) && s2 == s,
    }
}

/// Cycles from `s` with the answers `ios`, one cycle each, stopping at the
/// first halt request or fault. Returns the state reached and `Ok(true)` on
/// a halt, `Err` on a fault, `Ok(false)` when every cycle ran.
pub open spec fn run(s: ChipState, ios: Seq<Inputs>) -> (ChipState, Result<bool, Fault>)
    decreases ios.len(),
{
    if ios.len() == 0 {
        (s, Ok(false))
    } else {
        let (s1, r1) = run(s, ios.drop_last());
        if r1 == Ok::<bool, Fault>(false) {
            match cycle_result(s1, ios.last()) {
                Ok((s2, halt)) => (s2, Ok(halt)),
                Err(f) => (s1, Err(f)),
            }
        } else {
            (s1, r1)
        }
    }
}

/// The peripheral calls that `run(s, ios)` makes, in order.
pub open spec fn run_calls(s: ChipState, ios: Seq<Inputs>) -> Seq<Call>
    decreases ios.len(),
{
    if ios.len() == 0 {
        Seq::empty()
    } else {
        let (s1, r1) = run(s, ios.drop_last());
        if r1 == Ok::<bool, Fault>(false) {
            run_calls(s, ios.drop_last()) + cycle_calls(s1, ios.last())
        } else {
            run_calls(s, ios.drop_last())
        }
    }
}

/// The timers' count-down at the start of a frame.
pub open spec fn tick(s: ChipState) -> ChipState {
    ChipState {
        delay: if s.delay > 0 { (s.delay - 1) as u8 } else { 0 },
        sound: if s.sound > 0 { (s.sound - 1) as u8 } else { 0 },
        ..s
    }
}

/// Whether a frame of `num_cycle` cycles from `s` may have returned `r` and
/// left `s2`, the cycles that ran having been answered `ios`. A frame stops
/// early only on a halt request or a fault; when all its cycles ran, the
/// result is the timer's quit request.
pub open spec fn frame_outcome(
    s: ChipState,
    num_cycle: nat,
    ios: Seq<Inputs>,
    r: Result<bool, Fault>,
    s2: ChipState,
) -> bool {
    let (t, res) = run(tick(s), ios);
    &&& ios.len() <= num_cycle
    &&& s2 == t
    &&& match res {
        Ok(false) => ios.len() == num_cycle && r is Ok,
        _ => r == res,
    }
}

/// The peripheral calls of a frame from `s` whose cycles were answered
/// `ios` and which returned `r`: the buzzer set to whether the sound timer
/// was running, the cycles' calls, then, only when every cycle ran,
/// presenting the screen and pumping the timer, whose answer is `r`.
pub open spec fn frame_calls(s: ChipState, ios: Seq<Inputs>, r: Result<bool, Fault>) -> Seq<Call> {
    let t = tick(s);
    let ending = if run(t, ios).1 == Ok::<bool, Fault>(false) {
        match r {
            Ok(quit) => seq![Call::Present, Call::Pump(quit)],
            Err(_) => Seq::empty(),
        }
    } else {
        Seq::empty()
    };
    seq![Call::Buzz(s.sound > 0)] + run_calls(t, ios) + ending
}

} // verus!
