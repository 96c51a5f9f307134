use vstd::prelude::*;

use crate::chip8::PROGRAM_START;

verus! {

/// Number of addressable bytes.
pub const MEMORY_SIZE: usize = 0x1000;

/// Number of bytes taken by the built-in font (sixteen glyphs of five rows).
pub const FONT_SIZE: usize = 0x50;

/// The sixteen hexadecimal digit glyphs, five rows each, most significant bit
/// leftmost. The glyph of digit `d` starts at `5 * d`.
pub open spec fn font_bytes() -> Seq<u8> {
    seq![
        0xF0u8, 0x90, 0x90, 0x90, 0xF0, // 0
        0x20, 0x60, 0x20, 0x20, 0x70, // 1
        0xF0, 0x10, 0xF0, 0x80, 0xF0, // 2
        0xF0, 0x10, 0xF0, 0x10, 0xF0, // 3
        0x90, 0x90, 0xF0, 0x10, 0x10, // 4
        0xF0, 0x80, 0xF0, 0x10, 0xF0, // 5
        0xF0, 0x80, 0xF0, 0x90, 0xF0, // 6
        0xF0, 0x10, 0x20, 0x40, 0x40, // 7
        0xF0, 0x90, 0xF0, 0x90, 0xF0, // 8
        0xF0, 0x90, 0xF0, 0x10, 0xF0, // 9
        0xF0, 0x90, 0xF0, 0x90, 0x90, // A
        0xE0, 0x90, 0xE0, 0x90, 0xE0, // B
        0xF0, 0x80, 0x80, 0x80, 0xF0, // C
        0xE0, 0x90, 0x90, 0x90, 0xE0, // D
        0xF0, 0x80, 0xF0, 0x80, 0xF0, // E
        0xF0, 0x80, 0xF0, 0x80, 0x80, // F
    ]
}

/// The contents of a freshly built memory: the font, then zeros.
pub open spec fn initial_memory() -> Seq<u8> {
    font_bytes() + Seq::new((MEMORY_SIZE - FONT_SIZE) as nat, |i: int| 0u8)
}

/// An address reduced into the 4 KiB address space.
pub open spec fn wrap_address(a: int) -> int {
    a % (MEMORY_SIZE as int)
}

/// Number of bytes from the program start to the end of memory: the largest
/// program that fits.
pub const PROGRAM_CAPACITY: usize = 0xE00;

/// `mem` with `program` copied to it from `PROGRAM_START` on.
pub open spec fn with_program(mem: Seq<u8>, program: Seq<u8>) -> Seq<u8> {
    Seq::new(
        mem.len(),
        |a: int|
            if PROGRAM_START <= a < PROGRAM_START + program.len() {
                program[a - PROGRAM_START]
            } else {
                mem[a]
            },
    )
}

/// Counting `d` places on from `base` in a cyclic space of `m` places and
/// measuring the distance back to `base` gives `d` again.
pub proof fn lemma_cyclic_offset(base: int, d: int, m: int)
    requires
        0 < m,
        0 <= d < m,
    ensures
        0 <= (base + d) % m < m,
        ((base + d) % m - base) % m == d,
{
    let a = base + d;
    let q = a / m;
    vstd::arithmetic::div_mod::lemma_fundamental_div_mod(a, m);
    vstd::arithmetic::mul::lemma_mul_unary_negation(m, q);
    assert(a % m - base == m * (-q) + d);
    vstd::arithmetic::div_mod::lemma_mod_multiples_vanish(-q, d, m);
    vstd::arithmetic::div_mod::lemma_small_mod(d as nat, m as nat);
    vstd::arithmetic::div_mod::lemma_mod_bound(a, m);
}

/// Two places of a cyclic space of `m` places at the same distance from
/// `base` are the same place.
pub proof fn lemma_cyclic_offset_injective(p: int, q: int, base: int, m: int)
    requires
        0 < m,
        0 <= p < m,
        0 <= q < m,
        (p - base) % m == (q - base) % m,
    ensures
        p == q,
{
    let qp = (p - base) / m;
    let qq = (q - base) / m;
    vstd::arithmetic::div_mod::lemma_fundamental_div_mod(p - base, m);
    vstd::arithmetic::div_mod::lemma_fundamental_div_mod(q - base, m);
    vstd::arithmetic::mul::lemma_mul_is_distributive_sub(m, qp, qq);
    assert(p - q == m * (qp - qq));
    vstd::arithmetic::mul::lemma_mul_is_commutative(m, qp - qq);
    if qp > qq {
        vstd::arithmetic::mul::lemma_mul_inequality(1, qp - qq, m);
    } else if qp < qq {
        vstd::arithmetic::mul::lemma_mul_inequality(1, qq - qp, m);
        vstd::arithmetic::mul::lemma_mul_unary_negation(qq - qp, m);
    }
}

/// The RAM of the machine: 4096 bytes, addressed modulo 4096.
pub struct Memory {
    ram: Vec<u8>,
}

impl View for Memory {
    type V = Seq<u8>;

    closed spec fn view(&self) -> Seq<u8> {
        self.ram@
    }
}

impl Memory {
    /// The memory holds exactly 4096 bytes.
    pub open spec fn wf(&self) -> bool {
        self@.len() == MEMORY_SIZE
    }

    /// Creates a memory with the font glyphs at `0x000..0x050` and every
    /// other byte zero.
    pub fn new() -> (mem: Memory)
        ensures
            mem.wf(),
            mem@ == initial_memory(),
    {
        let mut mem = Memory { ram: vec![0u8; MEMORY_SIZE] };
        let ghost zeros = mem@;
        mem.load_font_sprites();
        assert(zeros.subrange(FONT_SIZE as int, MEMORY_SIZE as int) =~= Seq::new(
            (MEMORY_SIZE - FONT_SIZE) as nat,
            |i: int| 0u8,
        ));
        mem
    }

    /// Copies the font glyphs to `0x000..0x050`; the rest of memory is left
    /// as it was.
    fn load_font_sprites(&mut self)
        requires
            old(self).wf(),
        ensures
            final(self).wf(),
            final(self)@ == font_bytes() + old(self)@.subrange(FONT_SIZE as int, MEMORY_SIZE as int),
    {
        let sprites: Vec<u8> = vec![
            0xF0, 0x90, 0x90, 0x90, 0xF0, // 0
            0x20, 0x60, 0x20, 0x20, 0x70, // 1
            0xF0, 0x10, 0xF0, 0x80, 0xF0, // 2
            0xF0, 0x10, 0xF0, 0x10, 0xF0, // 3
            0x90, 0x90, 0xF0, 0x10, 0x10, // 4
            0xF0, 0x80, 0xF0, 0x10, 0xF0, // 5
            0xF0, 0x80, 0xF0, 0x90, 0xF0, // 6
            0xF0, 0x10, 0x20, 0x40, 0x40, // 7
            0xF0, 0x90, 0xF0, 0x90, 0xF0, // 8
            0xF0, 0x90, 0xF0, 0x10, 0xF0, // 9
            0xF0, 0x90, 0xF0, 0x90, 0x90, // A
            0xE0, 0x90, 0xE0, 0x90, 0xE0, // B
            0xF0, 0x80, 0x80, 0x80, 0xF0, // C
            0xE0, 0x90, 0x90, 0x90, 0xE0, // D
            0xF0, 0x80, 0xF0, 0x80, 0xF0, // E
            0xF0, 0x80, 0xF0, 0x80, 0x80, // F
        ];
        assert(sprites@ == font_bytes());
        let mut i: usize = 0;
        while i < FONT_SIZE
            invariant
                i <= FONT_SIZE,
                sprites@ == font_bytes(),
                self.wf(),
                forall|a: int| 0 <= a < i ==> self@[a] == font_bytes()[a],
                forall|a: int| i <= a < MEMORY_SIZE ==> self@[a] == old(self)@[a],
            decreases FONT_SIZE - i,
        {
            self.write_byte(i, sprites[i]);
            i += 1;
        }
        assert(self@ =~= font_bytes() + old(self)@.subrange(FONT_SIZE as int, MEMORY_SIZE as int));
    }

    /// Stores `byte` at `index` reduced modulo 4096.
    pub fn write_byte(&mut self, index: usize, byte: u8)
        requires
            old(self).wf(),
        ensures
            final(self).wf(),
            final(self)@ == old(self)@.update(wrap_address(index as int), byte),
    {
        self.ram.set(index % MEMORY_SIZE, byte);
    }

    /// Returns the byte at `index` reduced modulo 4096.
    pub fn read_byte(&self, index: usize) -> (byte: u8)
        requires
            self.wf(),
        ensures
            byte == self@[wrap_address(index as int)],
    {
        self.ram[index % MEMORY_SIZE]
    }

    /// Copies `program` to memory from `PROGRAM_START` on; the font and
    /// every byte past the program stay as they were.
    pub fn load_program(&mut self, program: &[u8])
        requires
            old(self).wf(),
            program@.len() <= PROGRAM_CAPACITY,
        ensures
            final(self).wf(),
            final(self)@ == with_program(old(self)@, program@),
    {
        let mut j: usize = 0;
        while j < program.len()
            invariant
                j <= program@.len() <= PROGRAM_CAPACITY,
                self.wf(),
                self@ == with_program(old(self)@, program@.subrange(0, j as int)),
            decreases program@.len() - j,
        {
            self.write_byte(PROGRAM_START as usize + j, program[j]);
            j += 1;
            assert(self@ =~= with_program(old(self)@, program@.subrange(0, j as int)));
        }
        assert(program@.subrange(0, j as int) =~= program@);
    }
}

} // verus!
