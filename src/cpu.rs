use vstd::prelude::*;

use crate::chip8::{Address, Chip8Error, Register, PROGRAM_START};
use crate::memory::wrap_address;

verus! {

/// Number of general purpose registers.
pub const REGISTER_COUNT: usize = 0x10;

/// Index of VF, the register that flag-producing operations overwrite.
pub const FLAG_REGISTER: u8 = 0xF;

/// Number of nested subroutine calls the stack can hold.
pub const STACK_SIZE: usize = 0x10;

/// The state of the CPU as a mathematical value.
pub struct CpuView {
    /// V0..VF.
    pub vx: Seq<u8>,
    /// The address register.
    pub i: u16,
    /// Delay timer.
    pub dt: u8,
    /// Sound timer.
    pub st: u8,
    /// Program counter: address of the instruction being executed.
    pub pc: u16,
    /// Return addresses, innermost call last.
    pub stack: Seq<u16>,
}

/// 1 if `b` holds, else 0.
pub open spec fn flag(b: bool) -> u8 {
    if b { 1 } else { 0 }
}

impl CpuView {
    /// Sixteen registers, a program counter inside the address space and at
    /// most `STACK_SIZE` active frames.
    pub open spec fn wf(self) -> bool {
        &&& self.vx.len() == REGISTER_COUNT
        &&& self.pc < 0x1000
        &&& self.stack.len() <= STACK_SIZE
    }

    /// All registers and timers zero, an empty stack, and the program
    /// counter at `PROGRAM_START`.
    pub open spec fn initial() -> CpuView {
        CpuView {
            vx: Seq::new(REGISTER_COUNT as nat, |j: int| 0u8),
            i: 0,
            dt: 0,
            st: 0,
            pc: PROGRAM_START,
            stack: Seq::empty(),
        }
    }

    /// Register `x` set to `v`.
    pub open spec fn with_reg(self, x: int, v: u8) -> CpuView {
        CpuView { vx: self.vx.update(x, v), ..self }
    }

    /// Register `x` set to `v`, then VF set to `f`: when `x` is VF the flag
    /// is what remains.
    pub open spec fn with_flagged(self, x: int, v: u8, f: u8) -> CpuView {
        self.with_reg(x, v).with_reg(FLAG_REGISTER as int, f)
    }

    /// `Vx = (Vx + Vy) mod 256`, VF = 1 iff the sum exceeds 255.
    pub open spec fn added(self, x: int, y: int) -> CpuView {
        let sum = self.vx[x] + self.vx[y];
        self.with_flagged(x, (sum % 256) as u8, flag(sum > 255))
    }

    /// `Vx = (Va - Vb) mod 256`, VF = 1 iff `Va > Vb`.
    pub open spec fn subtracted(self, x: int, a: int, b: int) -> CpuView {
        let diff = self.vx[a] - self.vx[b];
        self.with_flagged(x, (diff % 256) as u8, flag(self.vx[a] > self.vx[b]))
    }

    /// `Vx = Vx >> 1`, VF = the low bit of the old `Vx`.
    pub open spec fn shifted_right(self, x: int) -> CpuView {
        self.with_flagged(x, (self.vx[x] / 2) as u8, (self.vx[x] % 2) as u8)
    }

    /// `Vx = (Vx << 1) mod 256`, VF = the high bit of the old `Vx`.
    pub open spec fn shifted_left(self, x: int) -> CpuView {
        self.with_flagged(x, ((self.vx[x] * 2) % 256) as u8, (self.vx[x] / 128) as u8)
    }

    /// The program counter placed two bytes before `addr`, so that the
    /// uniform advance after each instruction lands exactly on `addr`.
    pub open spec fn jumped(self, addr: int) -> CpuView {
        CpuView { pc: wrap_address(addr - 2) as u16, ..self }
    }

    /// The current program counter pushed, then a jump to `addr`.
    pub open spec fn called(self, addr: int) -> CpuView {
        CpuView { stack: self.stack.push(self.pc), ..self }.jumped(addr)
    }

    /// The innermost return address popped into the program counter.
    pub open spec fn returned(self) -> CpuView {
        CpuView { pc: self.stack.last(), stack: self.stack.drop_last(), ..self }
    }

    /// The program counter moved to the next instruction.
    pub open spec fn advanced(self) -> CpuView {
        CpuView { pc: wrap_address(self.pc + 2) as u16, ..self }
    }

    /// Both timers one step closer to zero, never below it.
    pub open spec fn ticked(self) -> CpuView {
        CpuView {
            dt: if self.dt > 0 { (self.dt - 1) as u8 } else { 0 },
            st: if self.st > 0 { (self.st - 1) as u8 } else { 0 },
            ..self
        }
    }
}

/// The CPU registers.
struct Registers {
    /// V0 to VF; VF doubles as a flag.
    vx: [u8; REGISTER_COUNT],
    /// Holds memory addresses.
    i: Address,
    /// Delay timer: counts down to zero at the timer rate.
    dt: u8,
    /// Sound timer: the buzzer sounds while it is non-zero.
    st: u8,
    /// Program counter.
    pc: Address,
}

/// The CHIP-8 CPU: registers, timers and the call stack.
pub struct CPU {
    reg: Registers,
    /// Return addresses of the active subroutine calls, innermost last.
    stack: Vec<Address>,
}

impl View for CPU {
    type V = CpuView;

    closed spec fn view(&self) -> CpuView {
        CpuView {
            vx: self.reg.vx@,
            i: self.reg.i,
            dt: self.reg.dt,
            st: self.reg.st,
            pc: self.reg.pc,
            stack: self.stack@,
        }
    }
}

impl CPU {
    /// Creates a CPU with every register zero and the program counter at the
    /// program start.
    pub fn new() -> (cpu: CPU)
        ensures
            cpu@ == CpuView::initial(),
            cpu@.wf(),
    {
        let reg = Registers { vx: [0; REGISTER_COUNT], i: 0, dt: 0, st: 0, pc: PROGRAM_START };
        let cpu = CPU { reg, stack: Vec::new() };
        assert(cpu@.vx =~= CpuView::initial().vx);
        cpu
    }

    /// Returns the value of Vx.
    pub fn get_vx(&self, x: Register) -> (v: u8)
        requires
            x < REGISTER_COUNT,
        ensures
            v == self@.vx[x as int],
    {
        self.reg.vx[x as usize]
    }

    /// Sets Vx to `byte`.
    pub fn set_vx(&mut self, x: Register, byte: u8)
        requires
            x < REGISTER_COUNT,
        ensures
            final(self)@ == old(self)@.with_reg(x as int, byte),
    {
        self.reg.vx[x as usize] = byte;
        assert(self@.vx =~= old(self)@.vx.update(x as int, byte));
    }

    /// Adds `byte` to Vx, wrapping; VF is left alone.
    pub fn add_vx(&mut self, x: Register, byte: u8)
        requires
            x < REGISTER_COUNT,
        ensures
            final(self)@ == old(self)@.with_reg(
                x as int,
                ((old(self)@.vx[x as int] + byte) % 256) as u8,
            ),
    {
        let v = self.reg.vx[x as usize].wrapping_add(byte);
        self.set_vx(x, v);
    }

    /// Returns the program counter.
    pub fn get_pc(&self) -> (pc: Address)
        ensures
            pc == self@.pc,
    {
        self.reg.pc
    }

    /// Returns the delay timer.
    pub fn get_dt(&self) -> (dt: u8)
        ensures
            dt == self@.dt,
    {
        self.reg.dt
    }

    /// Returns the sound timer.
    pub fn get_st(&self) -> (st: u8)
        ensures
            st == self@.st,
    {
        self.reg.st
    }

    /// Returns the address register I.
    pub fn get_i(&self) -> (i: u16)
        ensures
            i == self@.i,
    {
        self.reg.i
    }

    /// Sets the delay timer to the value of register `reg`.
    pub fn set_dt(&mut self, reg: Register)
        requires
            reg < REGISTER_COUNT,
        ensures
            final(self)@ == (CpuView { dt: old(self)@.vx[reg as int], ..old(self)@ }),
    {
        self.reg.dt = self.get_vx(reg);
    }

    /// Sets the sound timer to the value of register `reg`.
    pub fn set_st(&mut self, reg: Register)
        requires
            reg < REGISTER_COUNT,
        ensures
            final(self)@ == (CpuView { st: old(self)@.vx[reg as int], ..old(self)@ }),
    {
        self.reg.st = self.get_vx(reg);
    }

    /// Sets the address register I.
    pub fn set_i(&mut self, addr: Address)
        ensures
            final(self)@ == (CpuView { i: addr, ..old(self)@ }),
    {
        self.reg.i = addr;
    }

    /// Returns from a subroutine: the innermost return address goes back to
    /// the program counter. Fails, changing nothing, when no call is active.
    pub fn subroutine_return(&mut self) -> (r: Result<(), Chip8Error>)
        ensures
            old(self)@.stack.len() == 0 ==> r == Err::<(), Chip8Error>(Chip8Error::StackUnderflow)
                && final(self)@ == old(self)@,
            old(self)@.stack.len() > 0 ==> r is Ok && final(self)@ == old(self)@.returned(),
    {
        match self.stack.pop() {
            Some(addr) => {
                self.reg.pc = addr;
                Ok(())
            },
            None => Err(Chip8Error::StackUnderflow),
        }
    }

    /// Jumps to `addr` (modulo 4096): the program counter is left two bytes
    /// before it, so that the advance after the instruction lands on it.
    pub fn jump(&mut self, addr: Address)
        ensures
            final(self)@ == old(self)@.jumped(addr as int),
    {
        self.reg.pc = ((addr as u32 + 0xFFE) % 0x1000) as u16;
        assert((addr as int + 0xFFE) % 0x1000 == (addr as int - 2) % 0x1000) by {
            vstd::arithmetic::div_mod::lemma_mod_add_multiples_vanish(addr as int - 2, 0x1000);
        }
    }

    /// Calls the subroutine at `addr`: pushes the program counter and jumps.
    /// Fails, changing nothing, when all stack frames are in use.
    pub fn call(&mut self, addr: Address) -> (r: Result<(), Chip8Error>)
        requires
            old(self)@.stack.len() <= STACK_SIZE,
        ensures
            old(self)@.stack.len() == STACK_SIZE ==> r == Err::<(), Chip8Error>(
                Chip8Error::StackOverflow,
            ) && final(self)@ == old(self)@,
            old(self)@.stack.len() < STACK_SIZE ==> r is Ok && final(self)@ == old(self)@.called(
                addr as int,
            ),
    {
        if self.stack.len() >= STACK_SIZE {
            return Err(Chip8Error::StackOverflow);
        }
        self.stack.push(self.reg.pc);
        self.jump(addr);
        Ok(())
    }

    /// Moves the program counter past one instruction (modulo 4096).
    pub fn skip_instruction(&mut self)
        ensures
            final(self)@ == old(self)@.advanced(),
    {
        self.reg.pc = ((self.reg.pc as u32 + 2) % 0x1000) as u16;
    }

    /// `Vx = Vx + Vy` modulo 256, then VF = 1 if the sum exceeded 255, else 0.
    /// The flag comes from the values before the write, and it is written
    /// last: when `reg1` is VF, VF holds the flag.
    pub fn add(&mut self, reg1: Register, reg2: Register)
        requires
            reg1 < REGISTER_COUNT,
            reg2 < REGISTER_COUNT,
        ensures
            final(self)@ == old(self)@.added(reg1 as int, reg2 as int),
            reg1 != FLAG_REGISTER ==> final(self)@.vx[reg1 as int] == (old(self)@.vx[reg1 as int]
                + old(self)@.vx[reg2 as int]) % 256,
            final(self)@.vx[FLAG_REGISTER as int] == flag(
                old(self)@.vx[reg1 as int] + old(self)@.vx[reg2 as int] > 255,
            ),
    {
        let ans: u16 = self.get_vx(reg1) as u16 + self.get_vx(reg2) as u16;
        self.set_vx(reg1, (ans % 256) as u8);
        self.set_vx(FLAG_REGISTER, (ans > 255) as u8);
    }

    /// `Vx = Vx - Vy` modulo 256, then VF = 1 if `Vx > Vy` before the
    /// subtraction, else 0. When `reg1` is VF, VF holds the flag.
    pub fn sub(&mut self, reg1: Register, reg2: Register)
        requires
            reg1 < REGISTER_COUNT,
            reg2 < REGISTER_COUNT,
        ensures
            final(self)@ == old(self)@.subtracted(reg1 as int, reg1 as int, reg2 as int),
            reg1 != FLAG_REGISTER ==> final(self)@.vx[reg1 as int] == (old(self)@.vx[reg1 as int]
                - old(self)@.vx[reg2 as int]) % 256,
            final(self)@.vx[FLAG_REGISTER as int] == flag(
                old(self)@.vx[reg1 as int] > old(self)@.vx[reg2 as int],
            ),
    {
        let a = self.get_vx(reg1);
        let b = self.get_vx(reg2);
        self.set_vx(reg1, a.wrapping_sub(b));
        self.set_vx(FLAG_REGISTER, (a > b) as u8);
    }

    /// `Vx = Vy - Vx` modulo 256, then VF = 1 if `Vy > Vx` before the
    /// subtraction, else 0. When `reg1` is VF, VF holds the flag.
    pub fn reverse_sub(&mut self, reg1: Register, reg2: Register)
        requires
            reg1 < REGISTER_COUNT,
            reg2 < REGISTER_COUNT,
        ensures
            final(self)@ == old(self)@.subtracted(reg1 as int, reg2 as int, reg1 as int),
    {
        let a = self.get_vx(reg2);
        let b = self.get_vx(reg1);
        self.set_vx(reg1, a.wrapping_sub(b));
        self.set_vx(FLAG_REGISTER, (a > b) as u8);
    }

    /// Shifts `reg` right by one; VF receives the bit shifted out, whatever
    /// it held before (also when `reg` is VF).
    pub fn shift_right(&mut self, reg: Register)
        requires
            reg < REGISTER_COUNT,
        ensures
            final(self)@ == old(self)@.shifted_right(reg as int),
            final(self)@.vx[FLAG_REGISTER as int] == old(self)@.vx[reg as int] % 2,
            reg != FLAG_REGISTER ==> final(self)@.vx[reg as int] * 2 + final(self)@.vx[FLAG_REGISTER as int]
                == old(self)@.vx[reg as int],
    {
        let v = self.get_vx(reg);
        let r = v >> 1;
        let b = v & 0x01;
        assert(r == v / 2 && b == v % 2) by (bit_vector)
            requires
                r == v >> 1,
                b == v & 0x01,
        ;
        self.set_vx(reg, r);
        self.set_vx(FLAG_REGISTER, b);
    }

    /// Shifts `reg` left by one (modulo 256); VF receives the bit shifted
    /// out, whatever it held before (also when `reg` is VF).
    pub fn shift_left(&mut self, reg: Register)
        requires
            reg < REGISTER_COUNT,
        ensures
            final(self)@ == old(self)@.shifted_left(reg as int),
            final(self)@.vx[FLAG_REGISTER as int] == old(self)@.vx[reg as int] / 128,
            reg != FLAG_REGISTER ==> final(self)@.vx[reg as int] / 2 + final(self)@.vx[FLAG_REGISTER as int]
                * 128 == old(self)@.vx[reg as int],
    {
        let v = self.get_vx(reg);
        let r = v << 1;
        let b = v >> 7;
        assert(r == (v * 2) % 256 && b == v / 128) by (bit_vector)
            requires
                r == v << 1,
                b == v >> 7,
        ;
        self.set_vx(reg, r);
        self.set_vx(FLAG_REGISTER, b);
    }

    /// Points I at the font glyph of `digit`: glyphs are five bytes each, in
    /// order from address 0.
    pub fn set_sprite_i(&mut self, digit: u8)
        ensures
            final(self)@ == (CpuView { i: (digit * 5) as u16, ..old(self)@ }),
    {
        self.set_i(digit as u16 * 5);
    }

    /// Moves both timers one step towards zero; a zero timer stays zero.
    pub fn tick_timers(&mut self)
        ensures
            final(self)@ == old(self)@.ticked(),
    {
        if self.reg.dt != 0 {
            self.reg.dt -= 1;
        }
        if self.reg.st != 0 {
            self.reg.st -= 1;
        }
    }
}

} // verus!
