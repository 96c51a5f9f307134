use vstd::prelude::*;

use crate::cpu::{flag, CpuView, CPU, FLAG_REGISTER, REGISTER_COUNT, STACK_SIZE};
use crate::display::{
    cell_of, cells_are_bits, collides, color, drawn, lemma_draw_twice, sprite_bit, sprite_covers,
    sprite_offset, Display, FRAME_LENGTH,
};
use crate::instructions::{decode, Instructions};
use crate::keyboard::Keyboard;
use crate::memory::{
    initial_memory, lemma_cyclic_offset, lemma_cyclic_offset_injective, with_program, wrap_address,
    Memory, MEMORY_SIZE, PROGRAM_CAPACITY,
};

verus! {

/// A value that refers to a position in memory.
pub type Address = u16;

/// A value that names one of the registers V0..VF.
pub type Register = u8;

/// Address at which programs are loaded and execution starts.
pub const PROGRAM_START: u16 = 0x200;

/// Width of the CHIP-8 screen, in pixels.
pub const ORIGINAL_WIDTH: usize = 64;

/// Height of the CHIP-8 screen, in pixels.
pub const ORIGINAL_HEIGHT: usize = 32;

/// Number of pixels of the CHIP-8 screen.
pub const COORD_LENGTH: usize = ORIGINAL_WIDTH * ORIGINAL_HEIGHT;

/// Each pixel of the CHIP-8 screen is shown as a square of this side.
pub const WINDOW_SCALE: usize = 8;

/// Colour of a lit pixel (white).
pub const PIXEL_COLOR: u32 = 0x00FF_FFFF;

/// Instructions executed per second.
pub const CLOCK: u32 = 60 * 20;

/// The faults that stop a running program.
#[derive(Debug, Clone, Copy, PartialEq, Eq, Structural)]
pub enum Chip8Error {
    /// A call with all sixteen stack frames in use.
    StackOverflow,
    /// A return with no active stack frame.
    StackUnderflow,
    /// A program larger than the memory from `PROGRAM_START` on.
    ProgramTooLarge,
}

/// The engine's run state: executing instructions, or blocked in `Fx0A`
/// until a key is pressed, the key to be stored in the given register.
#[derive(Debug, Clone, Copy, PartialEq, Eq, Structural)]
pub enum RunState {
    Running,
    AwaitingKey(Register),
}

/// The state of the whole machine as a mathematical value.
pub struct Chip8View {
    /// The 4096 bytes of memory.
    pub mem: Seq<u8>,
    /// Registers, timers and stack.
    pub cpu: CpuView,
    /// The 2048 framebuffer cells, 0 or 1, row-major.
    pub pixels: Seq<u8>,
    /// The key held, if any.
    pub key: Option<u8>,
    /// Running, or waiting for a key.
    pub state: RunState,
}

impl Chip8View {
    /// Memory and framebuffer of their sizes, a well-formed CPU, cells that
    /// are bits, and a waiting register that names a register.
    pub open spec fn wf(self) -> bool {
        &&& self.mem.len() == MEMORY_SIZE
        &&& self.cpu.wf()
        &&& self.pixels.len() == COORD_LENGTH
        &&& cells_are_bits(self.pixels)
        &&& self.state matches RunState::AwaitingKey(x) ==> x < REGISTER_COUNT
    }

    /// The machine as it starts: font loaded, CPU reset, screen dark, no key
    /// held, running.
    pub open spec fn initial() -> Chip8View {
        Chip8View {
            mem: initial_memory(),
            cpu: CpuView::initial(),
            pixels: Seq::new(COORD_LENGTH as nat, |p: int| 0u8),
            key: None,
            state: RunState::Running,
        }
    }

    /// The opcode at the program counter: two bytes, big-endian.
    pub open spec fn fetch(self) -> u16 {
        (self.mem[self.cpu.pc as int] * 256 + self.mem[wrap_address(self.cpu.pc + 1)]) as u16
    }

    /// The `n` sprite rows at `I`.
    pub open spec fn sprite(self, n: int) -> Seq<u8> {
        Seq::new(n as nat, |j: int| self.mem[wrap_address(self.cpu.i + j)])
    }

    /// The CPU replaced by `cpu` moved on to the next instruction.
    pub open spec fn continue_with(self, cpu: CpuView) -> Result<Chip8View, Chip8Error> {
        Ok(Chip8View { cpu: cpu.advanced(), ..self })
    }

    /// Moves on by one instruction, or by two when `skip` holds.
    pub open spec fn skip_if(self, skip: bool) -> Result<Chip8View, Chip8Error> {
        if skip {
            self.continue_with(self.cpu.advanced())
        } else {
            self.continue_with(self.cpu)
        }
    }

    /// What executing `inst` does, with `random` as the byte drawn by
    /// `Cxkk`. Every instruction but `Fx0A` and a faulting call or return
    /// ends by moving the program counter on by two.
    pub open spec fn execute(self, inst: Instructions, random: u8) -> Result<
        Chip8View,
        Chip8Error,
    > {
        let c = self.cpu;
        match inst {
            Instructions::ClearDisplay => Ok(
                Chip8View {
                    pixels: Seq::new(COORD_LENGTH as nat, |p: int| 0u8),
                    cpu: c.advanced(),
                    ..self
                },
            ),
            Instructions::Return => if c.stack.len() == 0 {
                Err(Chip8Error::StackUnderflow)
            } else {
                self.continue_with(c.returned())
            },
            Instructions::Jump(a) => self.continue_with(c.jumped(a as int)),
            Instructions::Call(a) => if c.stack.len() >= STACK_SIZE {
                Err(Chip8Error::StackOverflow)
            } else {
                self.continue_with(c.called(a as int))
            },
            Instructions::SkipIfEqualsByte(x, kk) => self.skip_if(c.vx[x as int] == kk),
            Instructions::SkipIfNotEqualsByte(x, kk) => self.skip_if(c.vx[x as int] != kk),
            Instructions::SkipIfEquals(x, y) => self.skip_if(c.vx[x as int] == c.vx[y as int]),
            Instructions::SetRegisterByte(x, kk) => self.continue_with(c.with_reg(x as int, kk)),
            Instructions::AddByte(x, kk) => self.continue_with(
                c.with_reg(x as int, ((c.vx[x as int] + kk) % 256) as u8),
            ),
            Instructions::SetRegister(x, y) => self.continue_with(
                c.with_reg(x as int, c.vx[y as int]),
            ),
            Instructions::Or(x, y) => self.continue_with(
                c.with_reg(x as int, c.vx[x as int] | c.vx[y as int]),
            ),
            Instructions::And(x, y) => self.continue_with(
                c.with_reg(x as int, c.vx[x as int] & c.vx[y as int]),
            ),
            Instructions::Xor(x, y) => self.continue_with(
                c.with_reg(x as int, c.vx[x as int] ^ c.vx[y as int]),
            ),
            Instructions::Add(x, y) => self.continue_with(c.added(x as int, y as int)),
            Instructions::Sub(x, y) => self.continue_with(
                c.subtracted(x as int, x as int, y as int),
            ),
            Instructions::ShiftRight(x) => self.continue_with(c.shifted_right(x as int)),
            Instructions::ReverseSub(x, y) => self.continue_with(
                c.subtracted(x as int, y as int, x as int),
            ),
            Instructions::ShiftLeft(x) => self.continue_with(c.shifted_left(x as int)),
            Instructions::SkipIfNotEquals(x, y) => self.skip_if(
                c.vx[x as int] != c.vx[y as int],
            ),
            Instructions::SetI(a) => self.continue_with(CpuView { i: a, ..c }),
            Instructions::JumpPlusV0(a) => self.continue_with(c.jumped(a + c.vx[0])),
            Instructions::SetRandAnd(x, kk) => self.continue_with(
                c.with_reg(x as int, kk & random),
            ),
            Instructions::Draw(x, y, n) => {
                let sprite = self.sprite(n as int);
                let px = c.vx[x as int] as int;
                let py = c.vx[y as int] as int;
                Ok(
                    Chip8View {
                        pixels: drawn(self.pixels, sprite, px, py),
                        cpu: c.with_reg(
                            FLAG_REGISTER as int,
                            flag(collides(self.pixels, sprite, px, py)),
                        ).advanced(),
                        ..self
                    },
                )
            },
            Instructions::SkipIfKeyPressed(x) => self.skip_if(self.key == Some(c.vx[x as int])),
            Instructions::SkipIfKeyNotPressed(x) => self.skip_if(
                self.key != Some(c.vx[x as int]),
            ),
            Instructions::SetToDelayTimer(x) => self.continue_with(c.with_reg(x as int, c.dt)),
            Instructions::WaitKeyPress(x) => Ok(
                Chip8View { state: RunState::AwaitingKey(x), ..self },
            ),
            Instructions::SetDelayTimer(x) => self.continue_with(
                CpuView { dt: c.vx[x as int], ..c },
            ),
            Instructions::SetSoundTimer(x) => self.continue_with(
                CpuView { st: c.vx[x as int], ..c },
            ),
            Instructions::AddRegisterI(x) => self.continue_with(
                CpuView { i: wrap_address(c.i + c.vx[x as int]) as u16, ..c },
            ),
            Instructions::SetSpriteI(x) => self.continue_with(
                CpuView { i: (c.vx[x as int] * 5) as u16, ..c },
            ),
            Instructions::BCDRepresentation(x) => {
                let v = c.vx[x as int];
                Ok(
                    Chip8View {
                        mem: self.mem.update(wrap_address(c.i as int), v / 100).update(
                            wrap_address(c.i + 1),
                            (v / 10) % 10,
                        ).update(wrap_address(c.i + 2), v % 10),
                        cpu: c.advanced(),
                        ..self
                    },
                )
            },
            Instructions::CopyRegistersMemory(x) => Ok(
                Chip8View {
                    mem: registers_stored(self.mem, c.vx, c.i as int, x + 1),
                    cpu: c.advanced(),
                    ..self
                },
            ),
            Instructions::SetRegistersMemory(x) => self.continue_with(
                CpuView { vx: registers_loaded(c.vx, self.mem, c.i as int, x + 1), ..c },
            ),
        }
    }

    /// One cycle of the engine with `random` as the byte a `Cxkk` would
    /// draw. While awaiting a key: nothing happens until one is held, then it
    /// is stored and execution resumes after the `Fx0A`. While running: the
    /// opcode at the program counter is decoded and executed; one that
    /// decodes to nothing is skipped.
    pub open spec fn step(self, random: u8) -> Result<Chip8View, Chip8Error> {
        match self.state {
            RunState::AwaitingKey(x) => match self.key {
                Some(k) => Ok(
                    Chip8View {
                        cpu: self.cpu.with_reg(x as int, k).advanced(),
                        state: RunState::Running,
                        ..self
                    },
                ),
                None => Ok(self),
            },
            RunState::Running => match decode(self.fetch()) {
                Some(inst) => self.execute(inst, random),
                None => self.continue_with(self.cpu),
            },
        }
    }
}

/// `mem` with the first `count` registers stored from address `at` on,
/// addresses wrapping modulo 4096.
pub open spec fn registers_stored(mem: Seq<u8>, vx: Seq<u8>, at: int, count: int) -> Seq<u8> {
    Seq::new(
        mem.len(),
        |a: int|
            {
                let d = wrap_address(a - at);
                if d < count {
                    vx[d]
                } else {
                    mem[a]
                }
            },
    )
}

/// `vx` with the first `count` registers loaded from address `at` on,
/// addresses wrapping modulo 4096.
pub open spec fn registers_loaded(vx: Seq<u8>, mem: Seq<u8>, at: int, count: int) -> Seq<u8> {
    Seq::new(vx.len(), |j: int| if j < count { mem[wrap_address(at + j)] } else { vx[j] })
}

/// The whole machine: memory, CPU, framebuffer, key pad and run state.
pub struct Chip8 {
    /// Memory. Notable addresses: 0x000..0x050 the font glyphs, 0x200 the
    /// program start, 0xFFF the last byte.
    ram: Memory,
    /// Registers, timers and stack.
    cpu: CPU,
    /// Framebuffer and its scaled frame.
    display: Display,
    /// The key pad as last reported by the host.
    keyboard: Keyboard,
    /// Running, or waiting for a key.
    state: RunState,
}

impl View for Chip8 {
    type V = Chip8View;

    closed spec fn view(&self) -> Chip8View {
        Chip8View {
            mem: self.ram@,
            cpu: self.cpu@,
            pixels: self.display@,
            key: self.keyboard@,
            state: self.state,
        }
    }
}

impl Chip8 {
    /// The machine state is well formed, and the scaled frame shows every
    /// framebuffer cell.
    pub open spec fn wf(&self) -> bool {
        &&& self@.wf()
        &&& self.frame_shows_pixels()
    }

    /// Every pixel of the scaled frame shows its framebuffer cell.
    pub closed spec fn frame_shows_pixels(&self) -> bool {
        &&& self.display.wf()
        &&& self.display.pending().len() == 0
    }

    /// Creates the machine: font loaded, registers zero, the program counter
    /// at `PROGRAM_START`, a dark screen, no key held.
    pub fn new() -> (chip8: Chip8)
        ensures
            chip8.wf(),
            chip8@ == Chip8View::initial(),
    {
        let chip8 = Chip8 {
            ram: Memory::new(),
            cpu: CPU::new(),
            display: Display::new(ORIGINAL_WIDTH * WINDOW_SCALE, ORIGINAL_HEIGHT * WINDOW_SCALE),
            keyboard: Keyboard::new(),
            state: RunState::Running,
        };
        assert(cells_are_bits(chip8@.pixels));
        chip8
    }

    /// Copies a program image to memory from `PROGRAM_START` on. An image
    /// larger than the `0xE00` bytes that remain is refused, and nothing
    /// changes.
    pub fn load_rom(&mut self, rom: &[u8]) -> (r: Result<(), Chip8Error>)
        requires
            old(self).wf(),
        ensures
            final(self).wf(),
            rom@.len() <= PROGRAM_CAPACITY ==> r is Ok && final(self)@ == (Chip8View {
                mem: with_program(old(self)@.mem, rom@),
                ..old(self)@
            }),
            rom@.len() > PROGRAM_CAPACITY ==> r == Err::<(), Chip8Error>(
                Chip8Error::ProgramTooLarge,
            ) && final(self)@ == old(self)@,
    {
        if rom.len() > PROGRAM_CAPACITY {
            return Err(Chip8Error::ProgramTooLarge);
        }
        self.ram.load_program(rom);
        Ok(())
    }

    /// Returns the CPU.
    pub fn cpu(&self) -> (cpu: &CPU)
        ensures
            cpu@ == self@.cpu,
    {
        &self.cpu
    }

    /// Returns the memory.
    pub fn memory(&self) -> (mem: &Memory)
        requires
            self.wf(),
        ensures
            mem.wf(),
            mem@ == self@.mem,
    {
        &self.ram
    }

    /// Returns the display; its frame shows every framebuffer cell.
    pub fn display(&self) -> (display: &Display)
        requires
            self.wf(),
        ensures
            display.wf(),
            display.shows_cells(),
            display@ == self@.pixels,
    {
        assert(self.display.shows_cells()) by {
            assert forall|p: int| 0 <= p < FRAME_LENGTH implies #[trigger] self.display.frame()[p]
                == color(self.display@[cell_of(p)]) by {
                assert(!self.display.pending().contains(cell_of(p) as usize));
            }
        }
        &self.display
    }

    /// Returns whether the engine is running or waiting for a key.
    pub fn state(&self) -> (state: RunState)
        ensures
            state == self@.state,
    {
        self.state
    }

    /// Reads the opcode at the program counter and decodes it.
    fn get_next_instruction(&self) -> (inst: Option<Instructions>)
        requires
            self.wf(),
        ensures
            inst == decode(self@.fetch()),
            inst matches Some(i) ==> i.wf(),
    {
        let curr_pc = self.cpu.get_pc();
        let ms_byte = self.ram.read_byte(curr_pc as usize);
        let ls_byte = self.ram.read_byte(curr_pc as usize + 1);
        assert(((ms_byte as u16) << 8) == ms_byte * 256) by (bit_vector);
        let opcode: u16 = ((ms_byte as u16) << 8) + ls_byte as u16;
        Instructions::new(opcode)
    }

    /// `Fx33`: stores the hundreds, tens and ones digits of `Vx` at `I`,
    /// `I + 1` and `I + 2` (modulo 4096).
    fn store_bcd(&mut self, reg: Register)
        requires
            old(self).wf(),
            reg < REGISTER_COUNT,
        ensures
            final(self).wf(),
            final(self)@ == (Chip8View {
                mem: old(self)@.mem.update(
                    wrap_address(old(self)@.cpu.i as int),
                    old(self)@.cpu.vx[reg as int] / 100,
                ).update(
                    wrap_address(old(self)@.cpu.i + 1),
                    (old(self)@.cpu.vx[reg as int] / 10) % 10,
                ).update(wrap_address(old(self)@.cpu.i + 2), old(self)@.cpu.vx[reg as int] % 10),
                ..old(self)@
            }),
    {
        let curr_i = self.cpu.get_i() as usize;
        let value = self.cpu.get_vx(reg);
        self.ram.write_byte(curr_i, value / 100);
        self.ram.write_byte(curr_i + 1, (value % 100) / 10);
        self.ram.write_byte(curr_i + 2, value % 10);
    }

    /// `Fx55`: stores `V0..=Vx` in memory from `I` on (modulo 4096). `I`
    /// itself is left as it was.
    fn store_registers(&mut self, reg: Register)
        requires
            old(self).wf(),
            reg < REGISTER_COUNT,
        ensures
            final(self).wf(),
            final(self)@ == (Chip8View {
                mem: registers_stored(
                    old(self)@.mem,
                    old(self)@.cpu.vx,
                    old(self)@.cpu.i as int,
                    reg + 1,
                ),
                ..old(self)@
            }),
    {
        let curr_i = self.cpu.get_i() as usize;
        let mut j: u8 = 0;
        assert(registers_stored(old(self)@.mem, old(self)@.cpu.vx, curr_i as int, 0)
            =~= old(self)@.mem);
        while j <= reg
            invariant
                reg < REGISTER_COUNT,
                j <= reg + 1,
                self.wf(),
                curr_i == old(self)@.cpu.i,
                self@ == (Chip8View {
                    mem: registers_stored(
                        old(self)@.mem,
                        old(self)@.cpu.vx,
                        old(self)@.cpu.i as int,
                        j as int,
                    ),
                    ..old(self)@
                }),
            decreases reg + 1 - j,
        {
            let v = self.cpu.get_vx(j);
            self.ram.write_byte(curr_i + j as usize, v);
            proof {
                let before = registers_stored(
                    old(self)@.mem,
                    old(self)@.cpu.vx,
                    curr_i as int,
                    j as int,
                );
                let after = registers_stored(
                    old(self)@.mem,
                    old(self)@.cpu.vx,
                    curr_i as int,
                    j + 1,
                );
                let at = wrap_address(curr_i + j);
                lemma_cyclic_offset(curr_i as int, j as int, MEMORY_SIZE as int);
                assert forall|a: int| 0 <= a < MEMORY_SIZE implies #[trigger] self@.mem[a]
                    == after[a] by {
                    if a != at {
                        if wrap_address(a - curr_i) == j {
                            lemma_cyclic_offset_injective(a, at, curr_i as int, MEMORY_SIZE as int);
                        }
                    }
                }
                assert(self@.mem =~= after);
            }
            j += 1;
        }
    }

    /// `Fx65`: loads `V0..=Vx` from memory from `I` on (modulo 4096). `I`
    /// itself is left as it was.
    fn load_registers(&mut self, reg: Register)
        requires
            old(self).wf(),
            reg < REGISTER_COUNT,
        ensures
            final(self).wf(),
            final(self)@ == (Chip8View {
                cpu: CpuView {
                    vx: registers_loaded(
                        old(self)@.cpu.vx,
                        old(self)@.mem,
                        old(self)@.cpu.i as int,
                        reg + 1,
                    ),
                    ..old(self)@.cpu
                },
                ..old(self)@
            }),
    {
        let curr_i = self.cpu.get_i() as usize;
        let mut j: u8 = 0;
        assert(registers_loaded(old(self)@.cpu.vx, old(self)@.mem, curr_i as int, 0)
            =~= old(self)@.cpu.vx);
        while j <= reg
            invariant
                reg < REGISTER_COUNT,
                j <= reg + 1,
                self.wf(),
                curr_i == old(self)@.cpu.i,
                self@ == (Chip8View {
                    cpu: CpuView {
                        vx: registers_loaded(
                            old(self)@.cpu.vx,
                            old(self)@.mem,
                            old(self)@.cpu.i as int,
                            j as int,
                        ),
                        ..old(self)@.cpu
                    },
                    ..old(self)@
                }),
            decreases reg + 1 - j,
        {
            let v = self.ram.read_byte(curr_i + j as usize);
            self.cpu.set_vx(j, v);
            assert(self@.cpu.vx =~= registers_loaded(
                old(self)@.cpu.vx,
                old(self)@.mem,
                old(self)@.cpu.i as int,
                j + 1,
            ));
            j += 1;
        }
    }

    /// `Dxyn`: XORs the `n`-row sprite at `I` onto the framebuffer at
    /// `(Vx, Vy)`, wrapping around the grid; VF becomes 1 if a lit cell was
    /// turned off, else 0. The frame is then brought up to date.
    fn draw_sprite(&mut self, reg1: Register, reg2: Register, n: u8)
        requires
            old(self).wf(),
            reg1 < REGISTER_COUNT,
            reg2 < REGISTER_COUNT,
            n < 0x10,
        ensures
            final(self).wf(),
            ({
                let s = old(self)@;
                let sprite = s.sprite(n as int);
                let px = s.cpu.vx[reg1 as int] as int;
                let py = s.cpu.vx[reg2 as int] as int;
                final(self)@ == (Chip8View {
                    pixels: drawn(s.pixels, sprite, px, py),
                    cpu: s.cpu.with_reg(FLAG_REGISTER as int, flag(collides(s.pixels, sprite, px, py))),
                    ..s
                })
            }),
    {
        let curr_i = self.cpu.get_i() as usize;
        let x = self.cpu.get_vx(reg1) as usize;
        let y = self.cpu.get_vx(reg2) as usize;
        let ghost s0 = self@;
        let ghost sprite = s0.sprite(n as int);
        let ghost c0 = s0.pixels;
        let mut collided = false;
        let mut j: u8 = 0;
        assert(drawn_upto(c0, sprite, x as int, y as int, 0) =~= c0);
        while j < n
            invariant
                j <= n < 0x10,
                x < 0x100,
                y < 0x100,
                curr_i == s0.cpu.i,
                s0 == old(self)@,
                s0.wf(),
                sprite == s0.sprite(n as int),
                c0 == s0.pixels,
                self.ram.wf(),
                self.display.wf(),
                self@ == (Chip8View {
                    pixels: drawn_upto(c0, sprite, x as int, y as int, 64 * j),
                    ..s0
                }),
                cells_are_bits(self@.pixels),
                collided == collides_upto(c0, sprite, x as int, y as int, 64 * j),
            decreases n - j,
        {
            let byte = self.ram.read_byte(curr_i + j as usize);
            assert(byte == sprite[j as int]);
            let mut k: u8 = 0;
            while k < 8
                invariant
                    j < n < 0x10,
                    k <= 8,
                    x < 0x100,
                    y < 0x100,
                    s0.wf(),
                    byte == sprite[j as int],
                    sprite == s0.sprite(n as int),
                    c0 == s0.pixels,
                    self.ram.wf(),
                    self.display.wf(),
                    self@ == (Chip8View {
                        pixels: drawn_upto(c0, sprite, x as int, y as int, 64 * j + k),
                        ..s0
                    }),
                    cells_are_bits(self@.pixels),
                    collided == collides_upto(c0, sprite, x as int, y as int, 64 * j + k),
                decreases 8 - k,
            {
                let idx = (ORIGINAL_WIDTH * (y + j as usize) + x + k as usize) % COORD_LENGTH;
                let ghost upto = 64 * j + k;
                let ghost before = self@.pixels;
                proof {
                    lemma_cyclic_offset(64 * y + x, upto, COORD_LENGTH as int);
                    assert(idx == (64 * y + x + upto) % (COORD_LENGTH as int));
                    assert(upto / 64 == j && upto % 64 == k) by {
                        vstd::arithmetic::div_mod::lemma_fundamental_div_mod_converse(
                            upto,
                            64,
                            j as int,
                            k as int,
                        );
                    }
                    assert(sprite_covers(idx as int, x as int, y as int, n as int));
                }
                let bit_before = self.display.coord_at(idx);
                let shift: u8 = 7 - k;
                let bit = (byte >> shift) & 0x01;
                let bit_after = bit_before ^ bit;
                proof {
                    assert(bit == sprite_bit(sprite, idx as int, x as int, y as int));
                    assert(before[idx as int] == c0[idx as int]);
                    assert(bit <= 1 && (bit_before <= 1 ==> bit_after <= 1)) by (bit_vector)
                        requires
                            bit == (byte >> shift) & 0x01,
                            bit_after == bit_before ^ bit,
                    ;
                    assert((bit_after != bit_before) == (bit != 0)) by (bit_vector)
                        requires
                            bit_after == bit_before ^ bit,
                    ;
                }
                self.display.set_coord(idx, bit_after);
                if bit_after != bit_before && bit_before == 1 {
                    collided = true;
                }
                proof {
                    let next = drawn_upto(c0, sprite, x as int, y as int, upto + 1);
                    assert forall|p: int| 0 <= p < COORD_LENGTH implies #[trigger] self@.pixels[p]
                        == next[p] by {
                        if p != idx && sprite_offset(p, x as int, y as int) == upto {
                            lemma_cyclic_offset_injective(
                                p,
                                idx as int,
                                64 * y + x,
                                COORD_LENGTH as int,
                            );
                        }
                    }
                    assert(self@.pixels =~= next);
                    assert(self@ == (Chip8View { pixels: next, ..s0 }));
                    assert(cells_are_bits(self@.pixels));
                    if collided != collides_upto(c0, sprite, x as int, y as int, upto) {
                        assert(sprite_bit(sprite, idx as int, x as int, y as int) == 1);
                    }
                    if collides_upto(c0, sprite, x as int, y as int, upto + 1) {
                        let p = choose|p: int|
                            0 <= p < c0.len() && sprite_covers(p, x as int, y as int, n as int)
                                && sprite_offset(p, x as int, y as int) < upto + 1 && c0[p] == 1
                                && #[trigger] sprite_bit(sprite, p, x as int, y as int) == 1;
                        if sprite_offset(p, x as int, y as int) == upto {
                            lemma_cyclic_offset_injective(
                                p,
                                idx as int,
                                64 * y + x,
                                COORD_LENGTH as int,
                            );
                        }
                    }
                    assert(collided == collides_upto(c0, sprite, x as int, y as int, upto + 1));
                }
                k += 1;
            }
            proof {
                let u = 64 * j + 8;
                let v = 64 * (j + 1);
                assert forall|p: int|
                    0 <= p < COORD_LENGTH && sprite_covers(
                        p,
                        x as int,
                        y as int,
                        n as int,
                    ) implies (sprite_offset(p, x as int, y as int) < u <==> sprite_offset(
                    p,
                    x as int,
                    y as int,
                ) < v) by {
                    let d = sprite_offset(p, x as int, y as int);
                    vstd::arithmetic::div_mod::lemma_fundamental_div_mod(d, 64);
                }
                assert(drawn_upto(c0, sprite, x as int, y as int, u) =~= drawn_upto(
                    c0,
                    sprite,
                    x as int,
                    y as int,
                    v,
                ));
                assert(collides_upto(c0, sprite, x as int, y as int, u) == collides_upto(
                    c0,
                    sprite,
                    x as int,
                    y as int,
                    v,
                ));
            }
            j += 1;
        }
        proof {
            let u = 64 * n;
            assert forall|p: int|
                0 <= p < COORD_LENGTH && sprite_covers(
                    p,
                    x as int,
                    y as int,
                    n as int,
                ) implies sprite_offset(p, x as int, y as int) < u by {
                let d = sprite_offset(p, x as int, y as int);
                vstd::arithmetic::div_mod::lemma_fundamental_div_mod(d, 64);
            }
            assert(drawn_upto(c0, sprite, x as int, y as int, u) =~= drawn(
                c0,
                sprite,
                x as int,
                y as int,
            ));
            assert(collides_upto(c0, sprite, x as int, y as int, u) == collides(
                c0,
                sprite,
                x as int,
                y as int,
            ));
        }
        self.cpu.set_vx(FLAG_REGISTER, collided as u8);
        self.display.map_pixels();
    }

    /// Executes one decoded instruction, `random` standing for the byte that
    /// `Cxkk` draws: the state changes as `execute` says, or a faulting call
    /// or return is reported and nothing changes.
    pub fn run_instruction(&mut self, inst: Instructions, random: u8) -> (r: Result<(), Chip8Error>)
        requires
            old(self).wf(),
            inst.wf(),
        ensures
            final(self).wf(),
            outcome_is(r, old(self)@, final(self)@, old(self)@.execute(inst, random)),
    {
        match inst {
            Instructions::Return | Instructions::Jump(_) | Instructions::Call(_)
            | Instructions::JumpPlusV0(_) | Instructions::SkipIfEqualsByte(_, _)
            | Instructions::SkipIfNotEqualsByte(_, _) | Instructions::SkipIfEquals(_, _)
            | Instructions::SkipIfNotEquals(_, _) | Instructions::SkipIfKeyPressed(_)
            | Instructions::SkipIfKeyNotPressed(_) | Instructions::WaitKeyPress(_) => {
                self.run_control_flow(inst)
            },
            Instructions::ClearDisplay | Instructions::Draw(_, _, _)
            | Instructions::BCDRepresentation(_) | Instructions::CopyRegistersMemory(_)
            | Instructions::SetRegistersMemory(_) => {
                self.run_memory_access(inst);
                Ok(())
            },
            _ => {
                self.run_register_op(inst, random);
                Ok(())
            },
        }
    }

    /// The instructions that move the program counter other than by the
    /// uniform advance: jumps, calls, returns, skips and the key wait.
    #[verifier::spinoff_prover]
    #[verifier::rlimit(40)]
    fn run_control_flow(&mut self, inst: Instructions) -> (r: Result<(), Chip8Error>)
        requires
            old(self).wf(),
            inst.wf(),
            is_control_flow(inst),
        ensures
            final(self).wf(),
            outcome_is(r, old(self)@, final(self)@, old(self)@.execute(inst, 0)),
    {
        match inst {
            Instructions::Return => {
                if let Err(e) = self.cpu.subroutine_return() {
                    return Err(e);
                }
            },
            Instructions::Jump(addr) => self.cpu.jump(addr),
            Instructions::Call(addr) => {
                if let Err(e) = self.cpu.call(addr) {
                    return Err(e);
                }
            },
            Instructions::JumpPlusV0(addr) => {
                let target = addr + self.cpu.get_vx(0x0) as u16;
                self.cpu.jump(target);
            },
            Instructions::SkipIfEqualsByte(reg, byte) => {
                if self.cpu.get_vx(reg) == byte {
                    self.cpu.skip_instruction();
                }
            },
            Instructions::SkipIfNotEqualsByte(reg, byte) => {
                if self.cpu.get_vx(reg) != byte {
                    self.cpu.skip_instruction();
                }
            },
            Instructions::SkipIfEquals(reg1, reg2) => {
                if self.cpu.get_vx(reg1) == self.cpu.get_vx(reg2) {
                    self.cpu.skip_instruction();
                }
            },
            Instructions::SkipIfNotEquals(reg1, reg2) => {
                if self.cpu.get_vx(reg1) != self.cpu.get_vx(reg2) {
                    self.cpu.skip_instruction();
                }
            },
            Instructions::SkipIfKeyPressed(reg) => {
                let pressed = match self.keyboard.get_key_pressed() {
                    Some(key) => key == self.cpu.get_vx(reg),
                    None => false,
                };
                if pressed {
                    self.cpu.skip_instruction();
                }
            },
            Instructions::SkipIfKeyNotPressed(reg) => {
                let pressed = match self.keyboard.get_key_pressed() {
                    Some(key) => key == self.cpu.get_vx(reg),
                    None => false,
                };
                if !pressed {
                    self.cpu.skip_instruction();
                }
            },
            _ => {
                // `Fx0A`: the key is taken by `step` once one is held; until
                // then the program counter stays on this instruction.
                if let Instructions::WaitKeyPress(reg) = inst {
                    self.state = RunState::AwaitingKey(reg);
                }
                return Ok(());
            },
        }
        // Next instruction
        self.cpu.skip_instruction();
        Ok(())
    }

    /// The instructions that read or write memory or the framebuffer.
    #[verifier::spinoff_prover]
    fn run_memory_access(&mut self, inst: Instructions)
        requires
            old(self).wf(),
            inst.wf(),
            is_memory_access(inst),
        ensures
            final(self).wf(),
            old(self)@.execute(inst, 0) == Ok::<Chip8View, Chip8Error>(final(self)@),
    {
        match inst {
            Instructions::Draw(reg1, reg2, n) => self.draw_sprite(reg1, reg2, n),
            Instructions::BCDRepresentation(reg) => self.store_bcd(reg),
            Instructions::CopyRegistersMemory(reg) => self.store_registers(reg),
            Instructions::SetRegistersMemory(reg) => self.load_registers(reg),
            _ => self.display.clear(),
        }
        // Next instruction
        self.cpu.skip_instruction();
    }

    /// The instructions that only compute on registers and timers.
    #[verifier::spinoff_prover]
    fn run_register_op(&mut self, inst: Instructions, random: u8)
        requires
            old(self).wf(),
            inst.wf(),
            !is_control_flow(inst),
            !is_memory_access(inst),
        ensures
            final(self).wf(),
            old(self)@.execute(inst, random) == Ok::<Chip8View, Chip8Error>(final(self)@),
    {
        match inst {
            Instructions::SetRegisterByte(reg, byte) => self.cpu.set_vx(reg, byte),
            Instructions::AddByte(reg, byte) => self.cpu.add_vx(reg, byte),
            Instructions::SetRegister(reg1, reg2) => {
                let v = self.cpu.get_vx(reg2);
                self.cpu.set_vx(reg1, v);
            },
            Instructions::And(reg1, reg2) => {
                let v = self.cpu.get_vx(reg1) & self.cpu.get_vx(reg2);
                self.cpu.set_vx(reg1, v);
            },
            Instructions::Or(reg1, reg2) => {
                let v = self.cpu.get_vx(reg1) | self.cpu.get_vx(reg2);
                self.cpu.set_vx(reg1, v);
            },
            Instructions::Xor(reg1, reg2) => {
                let v = self.cpu.get_vx(reg1) ^ self.cpu.get_vx(reg2);
                self.cpu.set_vx(reg1, v);
            },
            Instructions::Add(reg1, reg2) => self.cpu.add(reg1, reg2),
            Instructions::Sub(reg1, reg2) => self.cpu.sub(reg1, reg2),
            Instructions::ShiftRight(reg) => self.cpu.shift_right(reg),
            Instructions::ReverseSub(reg1, reg2) => self.cpu.reverse_sub(reg1, reg2),
            Instructions::ShiftLeft(reg) => self.cpu.shift_left(reg),
            Instructions::SetI(addr) => self.cpu.set_i(addr),
            Instructions::SetRandAnd(reg, byte) => self.cpu.set_vx(reg, byte & random),
            Instructions::SetToDelayTimer(reg) => {
                let dt = self.cpu.get_dt();
                self.cpu.set_vx(reg, dt);
            },
            Instructions::SetDelayTimer(reg) => self.cpu.set_dt(reg),
            Instructions::SetSoundTimer(reg) => self.cpu.set_st(reg),
            Instructions::AddRegisterI(reg) => {
                let sum = (self.cpu.get_i() as u32 + self.cpu.get_vx(reg) as u32) % 0x1000;
                self.cpu.set_i(sum as u16);
            },
            Instructions::SetSpriteI(reg) => {
                let digit = self.cpu.get_vx(reg);
                self.cpu.set_sprite_i(digit);
            },
            _ => {},
        }
        // Next instruction
        self.cpu.skip_instruction();
    }

    /// Runs one cycle of the engine, `random` standing for the byte that a
    /// `Cxkk` draws. While a key is awaited this only checks for one.
    pub fn step(&mut self, random: u8) -> (r: Result<(), Chip8Error>)
        requires
            old(self).wf(),
        ensures
            final(self).wf(),
            outcome_is(r, old(self)@, final(self)@, old(self)@.step(random)),
    {
        match self.state {
            RunState::AwaitingKey(reg) => {
                if let Some(key) = self.keyboard.get_key_pressed() {
                    self.cpu.set_vx(reg, key);
                    self.state = RunState::Running;
                    self.cpu.skip_instruction();
                }
                Ok(())
            },
            RunState::Running => match self.get_next_instruction() {
                Some(inst) => self.run_instruction(inst, random),
                None => {
                    self.cpu.skip_instruction();
                    Ok(())
                },
            },
        }
    }

    /// Runs one cycle of the engine with a freshly drawn random byte.
    pub fn run_next_instruction(&mut self) -> (r: Result<(), Chip8Error>)
        requires
            old(self).wf(),
        ensures
            final(self).wf(),
            exists|random: u8| outcome_is(r, old(self)@, final(self)@, old(self)@.step(random)),
    {
        let random = random_byte();
        self.step(random)
    }

    /// One tick of the timer clock: reports whether the tone should sound
    /// (the sound timer is non-zero), then moves both timers towards zero.
    pub fn tick_timers(&mut self) -> (tone: bool)
        requires
            old(self).wf(),
        ensures
            final(self).wf(),
            tone == (old(self)@.cpu.st != 0),
            final(self)@ == (Chip8View { cpu: old(self)@.cpu.ticked(), ..old(self)@ }),
    {
        let tone = self.cpu.get_st() != 0;
        self.cpu.tick_timers();
        tone
    }

    /// Records the key now held on the pad, or `None`.
    pub fn set_key_pressed(&mut self, key: Option<u8>)
        requires
            old(self).wf(),
            key matches Some(k) ==> k < 0x10,
        ensures
            final(self).wf(),
            final(self)@ == (Chip8View { key, ..old(self)@ }),
    {
        self.keyboard.set_key_pressed(key);
    }
}

/// The cells with the sprite XOR-ed onto the covered cells whose offset
/// from the sprite origin is below `upto`: a draw done up to that point.
spec fn drawn_upto(cells: Seq<u8>, sprite: Seq<u8>, x: int, y: int, upto: int) -> Seq<u8> {
    Seq::new(
        cells.len(),
        |p: int|
            if sprite_covers(p, x, y, sprite.len() as int) && sprite_offset(p, x, y) < upto {
                cells[p] ^ sprite_bit(sprite, p, x, y)
            } else {
                cells[p]
            },
    )
}

/// Whether the part of a draw done up to offset `upto` turns a lit cell off.
spec fn collides_upto(cells: Seq<u8>, sprite: Seq<u8>, x: int, y: int, upto: int) -> bool {
    exists|p: int|
        0 <= p < cells.len() && sprite_covers(p, x, y, sprite.len() as int) && sprite_offset(
            p,
            x,
            y,
        ) < upto && cells[p] == 1 && #[trigger] sprite_bit(sprite, p, x, y) == 1
}

/// `r` and the state `after` are what the expected outcome says: on success
/// the expected state, on a fault that fault, with the state `before` kept.
pub open spec fn outcome_is(
    r: Result<(), Chip8Error>,
    before: Chip8View,
    after: Chip8View,
    expected: Result<Chip8View, Chip8Error>,
) -> bool {
    match expected {
        Ok(s) => r is Ok && after == s,
        Err(e) => r == Err::<(), Chip8Error>(e) && after == before,
    }
}

/// Executing the same `Dxyn` twice in a row, with neither coordinate held
/// in VF, leaves the framebuffer as it was. The second draw sets VF from its
/// own collisions alone: those on the cells that the first draw left.
pub proof fn lemma_draw_instruction_twice(s: Chip8View, x: u8, y: u8, n: u8, random: u8)
    requires
        s.wf(),
        x < FLAG_REGISTER,
        y < FLAG_REGISTER,
        n < 0x10,
    ensures
        s.execute(Instructions::Draw(x, y, n), random) is Ok,
        ({
            let first = s.execute(Instructions::Draw(x, y, n), random)->Ok_0;
            let second = first.execute(Instructions::Draw(x, y, n), random);
            let sprite = s.sprite(n as int);
            let px = s.cpu.vx[x as int] as int;
            let py = s.cpu.vx[y as int] as int;
            &&& second is Ok
            &&& second->Ok_0.pixels == s.pixels
            &&& second->Ok_0.cpu.vx[FLAG_REGISTER as int] == flag(
                collides(first.pixels, sprite, px, py),
            )
        }),
{
    let first = s.execute(Instructions::Draw(x, y, n), random)->Ok_0;
    let sprite = s.sprite(n as int);
    assert(first.sprite(n as int) =~= sprite);
    lemma_draw_twice(s.pixels, sprite, s.cpu.vx[x as int] as int, s.cpu.vx[y as int] as int);
}

/// A call to any address of the 4 KiB space, followed there by a return,
/// resumes at the instruction after the call with the stack as it was.
#[verifier::spinoff_prover]
pub proof fn lemma_call_then_return(s: Chip8View, addr: u16, random: u8)
    requires
        s.wf(),
        addr < 0x1000,
        s.cpu.stack.len() < STACK_SIZE,
    ensures
        s.execute(Instructions::Call(addr), random) is Ok,
        ({
            let called = s.execute(Instructions::Call(addr), random)->Ok_0;
            let back = called.execute(Instructions::Return, random);
            &&& called.cpu.pc == addr
            &&& back is Ok
            &&& back->Ok_0.cpu.pc == wrap_address(s.cpu.pc + 2)
            &&& back->Ok_0.cpu.stack == s.cpu.stack
        }),
{
    let c = s.cpu;
    let called = s.execute(Instructions::Call(addr), random)->Ok_0;
    assert(called.cpu == c.called(addr as int).advanced());
    lemma_jump_lands(addr as int);
    let cc = called.cpu;
    assert(cc.stack.drop_last() =~= s.cpu.stack);
    assert(called.execute(Instructions::Return, random) == called.continue_with(cc.returned()));
}

/// Two cycles of the engine that execute a call and then, at its target, a
/// return, resume at the instruction after the call with the stack, the
/// registers, memory and screen as they were.
pub proof fn lemma_call_then_return_steps(s: Chip8View, addr: u16, r1: u8, r2: u8)
    requires
        s.wf(),
        s.state == RunState::Running,
        decode(s.fetch()) == Some(Instructions::Call(addr)),
        addr < 0x1000,
        s.cpu.stack.len() < STACK_SIZE,
        s.mem[addr as int] == 0x00,
        s.mem[wrap_address(addr + 1)] == 0xEE,
    ensures
        s.step(r1) is Ok,
        ({
            let called = s.step(r1)->Ok_0;
            let back = called.step(r2);
            &&& back is Ok
            &&& back->Ok_0.cpu.pc == wrap_address(s.cpu.pc + 2)
            &&& back->Ok_0.cpu.stack == s.cpu.stack
            &&& back->Ok_0.cpu.vx == s.cpu.vx
            &&& back->Ok_0.cpu.i == s.cpu.i
            &&& back->Ok_0.mem == s.mem
            &&& back->Ok_0.pixels == s.pixels
            &&& back->Ok_0.state == RunState::Running
        }),
{
    lemma_call_then_return(s, addr, r1);
    let called = s.step(r1)->Ok_0;
    assert(called == s.execute(Instructions::Call(addr), r1)->Ok_0);
    assert(called.fetch() == 0x00EE);
    assert(decode(0x00EE) == Some(Instructions::Return));
    assert(called.step(r2) == called.execute(Instructions::Return, r2));
    lemma_call_then_return(s, addr, r2);
}

/// Storing registers `V0..=Vx` with `Fx55` and loading them back with `Fx65`
/// at the same `I` gives every register its value again; `I` is unchanged,
/// and memory holds the stored values from `I` on.
pub proof fn lemma_store_then_load_registers(s: Chip8View, x: u8, random: u8)
    requires
        s.wf(),
        x < REGISTER_COUNT,
    ensures
        s.execute(Instructions::CopyRegistersMemory(x), random) is Ok,
        ({
            let stored = s.execute(Instructions::CopyRegistersMemory(x), random)->Ok_0;
            let loaded = stored.execute(Instructions::SetRegistersMemory(x), random);
            &&& forall|j: int|
                0 <= j <= x ==> #[trigger] stored.mem[wrap_address(s.cpu.i + j)] == s.cpu.vx[j]
            &&& loaded is Ok
            &&& loaded->Ok_0.cpu.vx == s.cpu.vx
            &&& loaded->Ok_0.cpu.i == s.cpu.i
            &&& loaded->Ok_0.mem == stored.mem
        }),
{
    let stored = s.execute(Instructions::CopyRegistersMemory(x), random)->Ok_0;
    let i = s.cpu.i as int;
    assert forall|j: int| 0 <= j <= x implies #[trigger] stored.mem[wrap_address(i + j)]
        == s.cpu.vx[j] by {
        lemma_cyclic_offset(i, j, MEMORY_SIZE as int);
    }
    let loaded = stored.execute(Instructions::SetRegistersMemory(x), random)->Ok_0;
    assert(loaded.cpu.vx =~= s.cpu.vx);
}

/// On a dark screen a sprite draws without collision (VF = 0). Drawing it
/// again, when some row of it has a set bit, collides (VF = 1) and leaves
/// the screen dark again.
pub proof fn lemma_draw_on_dark_screen(s: Chip8View, x: u8, y: u8, n: u8, random: u8)
    requires
        s.wf(),
        x < FLAG_REGISTER,
        y < FLAG_REGISTER,
        n < 0x10,
        forall|p: int| 0 <= p < COORD_LENGTH ==> #[trigger] s.pixels[p] == 0,
    ensures
        s.execute(Instructions::Draw(x, y, n), random) is Ok,
        ({
            let first = s.execute(Instructions::Draw(x, y, n), random)->Ok_0;
            let second = first.execute(Instructions::Draw(x, y, n), random);
            &&& first.cpu.vx[FLAG_REGISTER as int] == 0
            &&& second is Ok
            &&& second->Ok_0.pixels == s.pixels
            &&& (exists|j: int| 0 <= j < n && #[trigger] s.sprite(n as int)[j] != 0)
                ==> second->Ok_0.cpu.vx[FLAG_REGISTER as int] == 1
        }),
{
    let sprite = s.sprite(n as int);
    let px = s.cpu.vx[x as int] as int;
    let py = s.cpu.vx[y as int] as int;
    lemma_draw_instruction_twice(s, x, y, n, random);
    let first = s.execute(Instructions::Draw(x, y, n), random)->Ok_0;
    assert(!collides(s.pixels, sprite, px, py));
    if exists|j: int| 0 <= j < n && #[trigger] sprite[j] != 0 {
        let j = choose|j: int| 0 <= j < n && #[trigger] sprite[j] != 0;
        let b = sprite[j];
        let k: int = if (b >> 7u8) & 1 == 1 {
            0
        } else if (b >> 6u8) & 1 == 1 {
            1
        } else if (b >> 5u8) & 1 == 1 {
            2
        } else if (b >> 4u8) & 1 == 1 {
            3
        } else if (b >> 3u8) & 1 == 1 {
            4
        } else if (b >> 2u8) & 1 == 1 {
            5
        } else if (b >> 1u8) & 1 == 1 {
            6
        } else {
            7
        };
        assert(b != 0 ==> (b >> 7u8) & 1 == 1 || (b >> 6u8) & 1 == 1 || (b >> 5u8) & 1 == 1 || (b
            >> 4u8) & 1 == 1 || (b >> 3u8) & 1 == 1 || (b >> 2u8) & 1 == 1 || (b >> 1u8) & 1 == 1
            || (b >> 0u8) & 1 == 1) by (bit_vector);
        let d = 64 * j + k;
        let p = (64 * py + px + d) % (COORD_LENGTH as int);
        lemma_cyclic_offset(64 * py + px, d, COORD_LENGTH as int);
        vstd::arithmetic::div_mod::lemma_fundamental_div_mod_converse(d, 64, j, k);
        assert(sprite_covers(p, px, py, n as int));
        assert(sprite_bit(sprite, p, px, py) == 1);
        assert(0u8 ^ 1u8 == 1u8) by (bit_vector);
        assert(first.pixels[p] == 1);
        assert(collides(first.pixels, sprite, px, py));
    }
}

/// Placing the program counter two bytes before an address and then
/// advancing it lands on that address.
proof fn lemma_jump_lands(addr: int)
    requires
        0 <= addr < 0x1000,
    ensures
        wrap_address(wrap_address(addr - 2) + 2) == addr,
{
    if addr >= 2 {
        vstd::arithmetic::div_mod::lemma_fundamental_div_mod_converse(addr - 2, 0x1000, 0, addr - 2);
        vstd::arithmetic::div_mod::lemma_fundamental_div_mod_converse(addr, 0x1000, 0, addr);
    } else {
        vstd::arithmetic::div_mod::lemma_fundamental_div_mod_converse(
            addr - 2,
            0x1000,
            -1,
            addr + 0xFFE,
        );
        vstd::arithmetic::div_mod::lemma_fundamental_div_mod_converse(addr + 0x1000, 0x1000, 1, addr);
    }
}

/// Instructions that jump, call, return, skip or wait.
spec fn is_control_flow(inst: Instructions) -> bool {
    match inst {
        Instructions::Return | Instructions::Jump(_) | Instructions::Call(_)
        | Instructions::JumpPlusV0(_) | Instructions::SkipIfEqualsByte(_, _)
        | Instructions::SkipIfNotEqualsByte(_, _) | Instructions::SkipIfEquals(_, _)
        | Instructions::SkipIfNotEquals(_, _) | Instructions::SkipIfKeyPressed(_)
        | Instructions::SkipIfKeyNotPressed(_) | Instructions::WaitKeyPress(_) => true,
        _ => false,
    }
}

/// Instructions that touch memory or the framebuffer.
spec fn is_memory_access(inst: Instructions) -> bool {
    match inst {
        Instructions::ClearDisplay | Instructions::Draw(_, _, _)
        | Instructions::BCDRepresentation(_) | Instructions::CopyRegistersMemory(_)
        | Instructions::SetRegistersMemory(_) => true,
        _ => false,
    }
}

/// Relies on `rand::random::<u8>`: a byte from the thread-local generator.
/// Nothing is known of its value.
#[verifier::external_body]
fn random_byte() -> (byte: u8) {
    rand::random::<u8>()
}

} // verus!
