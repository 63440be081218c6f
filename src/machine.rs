//! The abstract CHIP-8 machine: its state as plain mathematical values, and
//! the effect of every instruction on it as a spec function.

use vstd::prelude::*;

verus! {

/// Number of bytes of addressable memory.
pub const MEMORY_SIZE: usize = 4096;

/// Number of cells of the framebuffer (64 columns, 32 rows).
pub const SCREEN_CELLS: usize = 2048;

/// Address at which the program counter starts, and where a ROM is loaded.
pub const PROGRAM_START: u16 = 0x200;

/// Address of the built-in hexadecimal font.
pub const FONTSET_ADDRESS: u16 = 0x50;

/// Number of bytes a ROM may occupy, from `PROGRAM_START` to the end of memory.
pub const ROM_CAPACITY: usize = 0xE00;

/// The register that receives carry, borrow, shift-out and collision flags.
pub const FLAG: u8 = 0x0F;

/// The state of the machine as the contracts see it.
pub struct Machine {
    /// The sixteen data registers `V0` .. `VF`.
    pub v: Seq<u8>,
    pub delay: u8,
    pub sound: u8,
    /// The index register `I`.
    pub i: u16,
    pub pc: u16,
    /// Return addresses, the most recent last.
    pub stack: Seq<u16>,
    /// The hex keypad, one flag per key.
    pub keys: Seq<bool>,
    /// The framebuffer, row-major, 64 cells per row.
    pub screen: Seq<bool>,
    pub mem: Seq<u8>,
}

/// Reduces an integer modulo 2^16.
pub open spec fn wrap16(n: int) -> u16 {
    (n % 0x10000) as u16
}

/// The sixteen 5-byte glyphs of the hexadecimal digits, one after another.
pub open spec fn fontset() -> Seq<u8> {
    seq![
        0xF0u8, 0x90, 0x90, 0x90, 0xF0, // 0
        0x20, 0x60, 0x20, 0x20, 0x70, // 1
        0xF0, 0x10, 0xF0, 0x80, 0xF0, // 2
        0xF0, 0x10, 0xF0, 0x10, 0xF0, // 3
        0x90, 0x90, 0xF0, 0x10, 0x10, // 4
        0xF0, 0x80, 0xF0, 0x10, 0xF0, // 5
        0xF0, 0x80, 0xF0, 0x90, 0xF0, // 6
        0xF0, 0x10, 0x20, 0x40, 0x40, // 7
        0xF0, 0x90, 0xF0, 0x90, 0xF0, // 8
        0xF0, 0x90, 0xF0, 0x10, 0xF0, // 9
        0xF0, 0x90, 0xF0, 0x90, 0x90, // A
        0xE0, 0x90, 0xE0, 0x90, 0xE0, // B
        0xF0, 0x80, 0x80, 0x80, 0xF0, // C
        0xE0, 0x90, 0x90, 0x90, 0xE0, // D
        0xF0, 0x80, 0xF0, 0x80, 0xF0, // E
        0xF0, 0x80, 0xF0, 0x80, 0x80, // F
    ]
}

/// The glyph of hexadecimal digit `d`.
pub open spec fn glyph(d: int) -> Seq<u8> {
    fontset().subrange(5 * d, 5 * d + 5)
}

/// The lowest index at or after `j` of a pressed key, if there is one.
pub open spec fn first_pressed(keys: Seq<bool>, j: int) -> Option<int>
    decreases keys.len() - j,
{
    if j < 0 || j >= keys.len() {
        None
    } else if keys[j] {
        Some(j)
    } else {
        first_pressed(keys, j + 1)
    }
}

/// The `NNN` field of an opcode: an address.
pub open spec fn op_nnn(op: u16) -> u16 {
    op & 0x0FFF
}

/// The `KK` field of an opcode: a byte constant.
pub open spec fn op_kk(op: u16) -> u8 {
    (op & 0x00FF) as u8
}

/// The `X` field of an opcode: a register id.
pub open spec fn op_x(op: u16) -> u8 {
    ((op >> 8) & 0x000F) as u8
}

/// The `Y` field of an opcode: a register id.
pub open spec fn op_y(op: u16) -> u8 {
    ((op >> 4) & 0x000F) as u8
}

/// The `N` field of an opcode: a sprite height.
pub open spec fn op_n(op: u16) -> u8 {
    (op & 0x000F) as u8
}

/// The top four bits of an opcode select one of sixteen groups.
pub proof fn lemma_opcode_group(op: u16)
    ensures
        op & 0xF000 == 0x0000 || op & 0xF000 == 0x1000 || op & 0xF000 == 0x2000 || op & 0xF000
            == 0x3000 || op & 0xF000 == 0x4000 || op & 0xF000 == 0x5000 || op & 0xF000 == 0x6000
            || op & 0xF000 == 0x7000 || op & 0xF000 == 0x8000 || op & 0xF000 == 0x9000 || op
            & 0xF000 == 0xA000 || op & 0xF000 == 0xB000 || op & 0xF000 == 0xC000 || op & 0xF000
            == 0xD000 || op & 0xF000 == 0xE000 || op & 0xF000 == 0xF000,
{
    assert(op & 0xF000 == 0x0000 || op & 0xF000 == 0x1000 || op & 0xF000 == 0x2000 || op & 0xF000
        == 0x3000 || op & 0xF000 == 0x4000 || op & 0xF000 == 0x5000 || op & 0xF000 == 0x6000
        || op & 0xF000 == 0x7000 || op & 0xF000 == 0x8000 || op & 0xF000 == 0x9000 || op & 0xF000
        == 0xA000 || op & 0xF000 == 0xB000 || op & 0xF000 == 0xC000 || op & 0xF000 == 0xD000
        || op & 0xF000 == 0xE000 || op & 0xF000 == 0xF000) by (bit_vector);
}

impl Machine {
    /// The sizes that the machine's parts always have.
    pub open spec fn wf(self) -> bool {
        &&& self.v.len() == 16
        &&& self.keys.len() == 16
        &&& self.screen.len() == SCREEN_CELLS
        &&& self.mem.len() == MEMORY_SIZE
    }

    /// The machine at power-on: everything cleared, the font loaded, and the
    /// program counter at the start of the program area.
    pub open spec fn power_on() -> Machine {
        Machine {
            v: Seq::new(16, |k: int| 0u8),
            delay: 0,
            sound: 0,
            i: 0,
            pc: PROGRAM_START,
            stack: Seq::empty(),
            keys: Seq::new(16, |k: int| false),
            screen: Seq::new(SCREEN_CELLS as nat, |k: int| false),
            mem: Seq::new(
                MEMORY_SIZE as nat,
                |a: int|
                    if FONTSET_ADDRESS <= a < FONTSET_ADDRESS + 80 {
                        fontset()[a - FONTSET_ADDRESS]
                    } else {
                        0u8
                    },
            ),
        }
    }

    /// Copies `rom` into memory from `PROGRAM_START` on; what does not fit is dropped.
    pub open spec fn load(self, rom: Seq<u8>) -> Machine {
        Machine {
            mem: Seq::new(
                self.mem.len(),
                |a: int|
                    if PROGRAM_START <= a < PROGRAM_START + rom.len() && a < MEMORY_SIZE {
                        rom[a - PROGRAM_START]
                    } else {
                        self.mem[a]
                    },
            ),
            ..self
        }
    }

    /// One 60 Hz timer period: each nonzero timer counts down by one.
    pub open spec fn count_down(self) -> Machine {
        Machine {
            delay: if self.delay > 0 { (self.delay - 1) as u8 } else { 0 },
            sound: if self.sound > 0 { (self.sound - 1) as u8 } else { 0 },
            ..self
        }
    }

    /// Whether the buzzer sounds on this timer period.
    pub open spec fn beeps(self) -> bool {
        self.sound == 1
    }

    /// The same machine with the program counter moved on by `n` bytes.
    pub open spec fn advanced(self, n: int) -> Machine {
        Machine { pc: wrap16(self.pc + n), ..self }
    }

    /// The same machine with the program counter on the next instruction.
    pub open spec fn next(self) -> Machine {
        self.advanced(2)
    }

    /// Moves past the next instruction when `cond` holds, else to it.
    pub open spec fn skip_if(self, cond: bool) -> Machine {
        self.advanced(if cond { 4 } else { 2 })
    }

    /// The same machine with register `x` set to `b`.
    pub open spec fn with_reg(self, x: int, b: u8) -> Machine {
        Machine { v: self.v.update(x, b), ..self }
    }

    /// The 16-bit instruction word stored big-endian at the program counter.
    pub open spec fn opcode(self) -> u16 {
        (self.mem[self.pc as int] * 256 + self.mem[self.pc + 1]) as u16
    }

    /// `00E0`: clear the screen.
    pub open spec fn cls(self) -> Machine {
        Machine { screen: Seq::new(self.screen.len(), |k: int| false), ..self }.next()
    }

    /// `00EE`: return to the most recent return address; nothing happens
    /// when there is none.
    pub open spec fn rts(self) -> Machine {
        if self.stack.len() == 0 {
            self
        } else {
            Machine { pc: self.stack.last(), stack: self.stack.drop_last(), ..self }
        }
    }

    /// `1NNN`: jump.
    pub open spec fn jmp(self, address: u16) -> Machine {
        Machine { pc: address, ..self }
    }

    /// `2NNN`: call, remembering the address of the next instruction.
    pub open spec fn jsr(self, address: u16) -> Machine {
        Machine { stack: self.stack.push(wrap16(self.pc + 2)), pc: address, ..self }
    }

    /// `3XKK`
    pub open spec fn skeq_const(self, x: int, k: u8) -> Machine {
        self.skip_if(self.v[x] == k)
    }

    /// `4XKK`
    pub open spec fn skne_const(self, x: int, k: u8) -> Machine {
        self.skip_if(self.v[x] != k)
    }

    /// `5XY0`
    pub open spec fn skeq_reg(self, x: int, y: int) -> Machine {
        self.skip_if(self.v[x] == self.v[y])
    }

    /// `6XKK`
    pub open spec fn mov_const(self, x: int, k: u8) -> Machine {
        self.with_reg(x, k).next()
    }

    /// `7XKK`: add without touching the flag.
    pub open spec fn add_const(self, x: int, k: u8) -> Machine {
        self.with_reg(x, ((self.v[x] + k) % 256) as u8).next()
    }

    /// `8XY0`
    pub open spec fn mov_reg(self, x: int, y: int) -> Machine {
        self.with_reg(x, self.v[y]).next()
    }

    /// `8XY1`
    pub open spec fn or_reg(self, x: int, y: int) -> Machine {
        self.with_reg(x, self.v[x] | self.v[y]).next()
    }

    /// `8XY2`
    pub open spec fn and_reg(self, x: int, y: int) -> Machine {
        self.with_reg(x, self.v[x] & self.v[y]).next()
    }

    /// `8XY3`
    pub open spec fn xor_reg(self, x: int, y: int) -> Machine {
        self.with_reg(x, self.v[x] ^ self.v[y]).next()
    }

    /// `8XY4`: the sum modulo 256, then the carry into `VF`.
    pub open spec fn add_reg(self, x: int, y: int) -> Machine {
        let sum = self.v[x] + self.v[y];
        self.with_reg(x, (sum % 256) as u8).with_reg(
            FLAG as int,
            if sum >= 256 { 1 } else { 0 },
        ).next()
    }

    /// `8XY5`: `VX - VY` modulo 256, then `VF` = 1 when there was no borrow.
    pub open spec fn sub_reg(self, x: int, y: int) -> Machine {
        let (a, b) = (self.v[x], self.v[y]);
        self.with_reg(x, ((a - b) % 256) as u8).with_reg(FLAG as int, if a >= b { 1 } else { 0 }).next()
    }

    /// `8XY6`: the low bit into `VF`, then `VX` halved.
    pub open spec fn shr(self, x: int) -> Machine {
        let a = self.v[x];
        self.with_reg(FLAG as int, a % 2).with_reg(x, a / 2).next()
    }

    /// `8XY7`: `VY - VX` modulo 256 into `VX`, then `VF` = 1 when there was no borrow.
    pub open spec fn rsb(self, x: int, y: int) -> Machine {
        let (a, b) = (self.v[x], self.v[y]);
        self.with_reg(x, ((b - a) % 256) as u8).with_reg(FLAG as int, if b >= a { 1 } else { 0 }).next()
    }

    /// `8XYE`: the high bit into `VF`, then `VX` doubled modulo 256.
    pub open spec fn shl(self, x: int) -> Machine {
        let a = self.v[x];
        self.with_reg(FLAG as int, a / 128).with_reg(x, ((a * 2) % 256) as u8).next()
    }

    /// `9XY0`
    pub open spec fn skne_reg(self, x: int, y: int) -> Machine {
        self.skip_if(self.v[x] != self.v[y])
    }

    /// `ANNN`: load `I`, keeping 12 bits.
    pub open spec fn mvi(self, address: u16) -> Machine {
        Machine { i: address & 0x0FFF, ..self }.next()
    }

    /// `BNNN`: jump to `NNN + V0`, modulo 2^12.
    pub open spec fn jmi(self, address: u16) -> Machine {
        Machine { pc: (((address & 0x0FFF) + self.v[0]) % 0x1000) as u16, ..self }
    }

    /// `CXKK`, given the random byte that was drawn.
    pub open spec fn rand(self, x: int, mask: u8, byte: u8) -> Machine {
        self.with_reg(x, byte & mask).next()
    }

    /// Whether pixel `c` (0 the leftmost) of sprite row `r` is set, the rows
    /// being read from `I` on.
    pub open spec fn sprite_bit(self, r: int, c: int) -> bool {
        (self.mem[self.i + r] >> ((7 - c) as u8)) & 1 == 1
    }

    /// Whether a set pixel of the `n`-row sprite at `(VX, VY)` falls on
    /// screen cell `k`, the sprite wrapping around the edges.
    pub open spec fn sprite_hits(self, x: int, y: int, n: int, k: int) -> bool {
        let col = ((k % 64) - self.v[x] % 64) % 64;
        let row = ((k / 64) - self.v[y] % 32) % 32;
        col < 8 && row < n && self.sprite_bit(row, col)
    }

    /// Whether drawing the sprite turns off a cell that was on.
    pub open spec fn sprite_collides(self, x: int, y: int, n: int) -> bool {
        exists|k: int| 0 <= k < self.screen.len() && self.sprite_hits(x, y, n, k) && self.screen[k]
    }

    /// `DXYN`: toggle the cells under the sprite's set pixels; `VF` = 1 when
    /// one of them was on, else 0.
    pub open spec fn sprite(self, x: int, y: int, n: int) -> Machine {
        Machine {
            screen: Seq::new(
                self.screen.len(),
                |k: int| self.screen[k] != self.sprite_hits(x, y, n, k),
            ),
            ..self
        }.with_reg(FLAG as int, if self.sprite_collides(x, y, n) { 1 } else { 0 }).next()
    }

    /// The key that `VX` names: its low four bits.
    pub open spec fn key_of(self, x: int) -> bool {
        self.keys[(self.v[x] & 0x0F) as int]
    }

    /// `EX9E`
    pub open spec fn skpr(self, x: int) -> Machine {
        self.skip_if(self.key_of(x))
    }

    /// `EXA1`
    pub open spec fn skup(self, x: int) -> Machine {
        self.skip_if(!self.key_of(x))
    }

    /// `FX07`
    pub open spec fn gdelay(self, x: int) -> Machine {
        self.with_reg(x, self.delay).next()
    }

    /// `FX0A`: the lowest pressed key into `VX`; with no key pressed the
    /// machine stays on this instruction.
    pub open spec fn wait_key(self, x: int) -> Machine {
        match first_pressed(self.keys, 0) {
            Some(k) => self.with_reg(x, k as u8).next(),
            None => self,
        }
    }

    /// `FX15`
    pub open spec fn sdelay(self, x: int) -> Machine {
        Machine { delay: self.v[x], ..self }.next()
    }

    /// `FX18`
    pub open spec fn ssound(self, x: int) -> Machine {
        Machine { sound: self.v[x], ..self }.next()
    }

    /// `FX1E`: add `VX` to `I`, modulo 2^16.
    pub open spec fn adi(self, x: int) -> Machine {
        Machine { i: wrap16(self.i + self.v[x]), ..self }.next()
    }

    /// `FX29`: point `I` at the glyph of `VX`.
    pub open spec fn font(self, x: int) -> Machine {
        Machine { i: (FONTSET_ADDRESS + 5 * self.v[x]) as u16, ..self }.next()
    }

    /// `FX33`: the decimal digits of `VX` at `I`, `I + 1`, `I + 2`; nothing
    /// is written when `I` is above 4092.
    pub open spec fn bcd(self, x: int) -> Machine {
        let d = self.v[x];
        let a = self.i as int;
        if a > 4092 {
            self.next()
        } else {
            Machine {
                mem: self.mem.update(a, d / 100).update(a + 1, (d / 10) % 10).update(a + 2, d % 10),
                ..self
            }.next()
        }
    }

    /// `FX55`: `V0` .. `VX` to memory from `I` on; `I` moves past them.
    pub open spec fn str(self, x: int) -> Machine {
        Machine {
            mem: Seq::new(
                self.mem.len(),
                |a: int| if self.i <= a <= self.i + x { self.v[a - self.i] } else { self.mem[a] },
            ),
            i: (self.i + x + 1) as u16,
            ..self
        }.next()
    }

    /// `FX65`: `V0` .. `VX` from memory from `I` on; `I` moves past them.
    pub open spec fn ldr(self, x: int) -> Machine {
        Machine {
            v: Seq::new(self.v.len(), |k: int| if k <= x { self.mem[self.i + k] } else { self.v[k] }),
            i: (self.i + x + 1) as u16,
            ..self
        }.next()
    }

    /// Whether opcode `op` keeps to memory when it runs: a sprite's rows and
    /// the span that `FX55` / `FX65` touch lie below the end of memory.
    pub open spec fn in_bounds(self, op: u16) -> bool {
        let x = op_x(op) as int;
        let n = op_n(op) as int;
        let low = op & 0x00FF;
        if op & 0xF000 == 0xD000 {
            n == 0 || self.i + n <= MEMORY_SIZE
        } else if op & 0xF000 == 0xF000 && (low == 0x55 || low == 0x65) {
            self.i + x < MEMORY_SIZE
        } else {
            true
        }
    }

    /// Whether the instruction at the program counter can be fetched and run.
    pub open spec fn can_tick(self) -> bool {
        self.pc + 1 < MEMORY_SIZE && self.in_bounds(self.opcode())
    }

    /// The effect of opcode `op`, `byte` being the random byte that `CXKK`
    /// uses. An unknown opcode only moves on to the next instruction.
    pub open spec fn execute(self, op: u16, byte: u8) -> Machine {
        let x = op_x(op) as int;
        let y = op_y(op) as int;
        let low = op & 0x00FF;
        let hi = op & 0xF000;
        if hi == 0x0000 {
            if op == 0x00E0 {
                self.cls()
            } else if op == 0x00EE {
                self.rts()
            } else {
                self.next()
            }
        } else if hi == 0x1000 {
            self.jmp(op_nnn(op))
        } else if hi == 0x2000 {
            self.jsr(op_nnn(op))
        } else if hi == 0x3000 {
            self.skeq_const(x, op_kk(op))
        } else if hi == 0x4000 {
            self.skne_const(x, op_kk(op))
        } else if hi == 0x5000 {
            self.skeq_reg(x, y)
        } else if hi == 0x6000 {
            self.mov_const(x, op_kk(op))
        } else if hi == 0x7000 {
            self.add_const(x, op_kk(op))
        } else if hi == 0x8000 {
            let sub = op & 0x000F;
            if sub == 0x0 {
                self.mov_reg(x, y)
            } else if sub == 0x1 {
                self.or_reg(x, y)
            } else if sub == 0x2 {
                self.and_reg(x, y)
            } else if sub == 0x3 {
                self.xor_reg(x, y)
            } else if sub == 0x4 {
                self.add_reg(x, y)
            } else if sub == 0x5 {
                self.sub_reg(x, y)
            } else if sub == 0x6 {
                self.shr(x)
            } else if sub == 0x7 {
                self.rsb(x, y)
            } else if sub == 0xE {
                self.shl(x)
            } else {
                self.next()
            }
        } else if hi == 0x9000 {
            self.skne_reg(x, y)
        } else if hi == 0xA000 {
            self.mvi(op_nnn(op))
        } else if hi == 0xB000 {
            self.jmi(op_nnn(op))
        } else if hi == 0xC000 {
            self.rand(x, op_kk(op), byte)
        } else if hi == 0xD000 {
            self.sprite(x, y, op_n(op) as int)
        } else if hi == 0xE000 {
            if low == 0x9E {
                self.skpr(x)
            } else if low == 0xA1 {
                self.skup(x)
            } else {
                self.next()
            }
        } else {
            if low == 0x07 {
                self.gdelay(x)
            } else if low == 0x0A {
                self.wait_key(x)
            } else if low == 0x15 {
                self.sdelay(x)
            } else if low == 0x18 {
                self.ssound(x)
            } else if low == 0x1E {
                self.adi(x)
            } else if low == 0x29 {
                self.font(x)
            } else if low == 0x33 {
                self.bcd(x)
            } else if low == 0x55 {
                self.str(x)
            } else if low == 0x65 {
                self.ldr(x)
            } else {
                self.next()
            }
        }
    }
}

} // verus!
