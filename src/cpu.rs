//! The CHIP-8 CPU emulation and instruction set.

use vstd::prelude::*;

use crate::machine::{
    first_pressed, fontset, lemma_opcode_group, Machine, FLAG, FONTSET_ADDRESS, MEMORY_SIZE,
    PROGRAM_START, ROM_CAPACITY, SCREEN_CELLS,
};

verus! {

pub const SCREEN_WIDTH: usize = 64;

pub const SCREEN_HEIGHT: usize = 32;

/// Rate, in Hz, at which the host is expected to call `tick_timers`.
pub const TIMER_FREQUENCY: usize = 60;

/// Width in bytes of one instruction.
const INSTRUCTION_WIDTH: u16 = 2;

/// The core CPU registers and memory.
pub struct Cpu {
    register: [u8; 16],
    delay: u8,
    sound: u8,
    /// Used as 12 bits.
    i: u16,
    /// Used as 12 bits: an address in `memory`.
    pc: u16,
    sp: Vec<u16>,
    key: [bool; 16],
    /// Where writes to a key code outside the keypad go.
    unknown_key: bool,
    screen: [bool; 2048],
    memory: [u8; 4096],
}

impl View for Cpu {
    type V = Machine;

    closed spec fn view(&self) -> Machine {
        Machine {
            v: self.register@,
            delay: self.delay,
            sound: self.sound,
            i: self.i,
            pc: self.pc,
            stack: self.sp@,
            keys: self.key@,
            screen: self.screen@,
            mem: self.memory@,
        }
    }
}

/// Relies on `rand::random::<u8>`, which draws a byte from the thread-local
/// generator; nothing is promised of its value.
#[verifier::external_body]
fn random_byte() -> (r: u8) {
    rand::random::<u8>()
}

/// The screen cell under pixel `(r, c)` of a sprite drawn at `(ox, oy)`.
spec fn sprite_cell(ox: int, oy: int, r: int, c: int) -> int {
    ((oy + r) % 32) * 64 + (ox + c) % 64
}

/// Screen cell `k` lies under sprite pixel `(r, c)` of a sprite drawn at
/// `(ox, oy)` exactly when `k` is that pixel's cell after edge wrap.
proof fn lemma_sprite_cell(ox: int, oy: int, r: int, c: int, k: int)
    requires
        0 <= ox < 64,
        0 <= oy < 32,
        0 <= r < 32,
        0 <= c < 64,
        0 <= k < 2048,
    ensures
        0 <= sprite_cell(ox, oy, r, c) < 2048,
        (((k / 64) - oy) % 32 == r && ((k % 64) - ox) % 64 == c) <==> k == sprite_cell(ox, oy, r, c),
{
    let sx = (ox + c) % 64;
    let sy = (oy + r) % 32;
    let k0 = sy * 64 + sx;
    assert(k0 / 64 == sy && k0 % 64 == sx);
    assert((sy - oy) % 32 == r);
    assert((sx - ox) % 64 == c);
    if ((k / 64) - oy) % 32 == r && ((k % 64) - ox) % 64 == c {
        assert(k / 64 == sy);
        assert(k % 64 == sx);
        assert(k == (k / 64) * 64 + k % 64);
    }
}

/// Whether sprite pixel `(r, c)` comes before pixel `(line, col)` in drawing
/// order, `(r, c)` being the pixel over cell `k` of a sprite drawn at `(ox, oy)`.
#[verifier::opaque]
spec fn drawn_before(ox: int, oy: int, k: int, line: int, col: int) -> bool {
    let r = ((k / 64) - oy) % 32;
    let c = ((k % 64) - ox) % 64;
    r < line || (r == line && c < col)
}

/// `Machine::sprite_hits`, kept folded while the drawing loop is proved.
#[verifier::opaque]
spec fn hits(s: Machine, x: int, y: int, n: int, k: int) -> bool {
    s.sprite_hits(x, y, n, k)
}

/// What drawing pixel `(line, col)` of the sprite does to the bookkeeping of
/// the drawing loop: it touches exactly one cell, the one at `address`.
proof fn lemma_draw_step(
    s: Machine,
    x: int,
    y: int,
    n: int,
    line: int,
    col: int,
    row: u8,
    address: int,
)
    requires
        s.wf(),
        0 <= x < 16,
        0 <= y < 16,
        0 <= line < n <= 15,
        0 <= col < 8,
        row == s.mem[s.i + line],
        address == sprite_cell((s.v[x] % 64) as int, (s.v[y] % 32) as int, line, col),
    ensures
        0 <= address < SCREEN_CELLS,
        hits(s, x, y, n, address) == ((row >> ((7 - col) as u8)) & 1 == 1),
        drawn_before((s.v[x] % 64) as int, (s.v[y] % 32) as int, address, line, col + 1),
        !drawn_before((s.v[x] % 64) as int, (s.v[y] % 32) as int, address, line, col),
        forall|k: int|
            0 <= k < SCREEN_CELLS && k != address ==> #[trigger] drawn_before(
                (s.v[x] % 64) as int,
                (s.v[y] % 32) as int,
                k,
                line,
                col + 1,
            ) == drawn_before((s.v[x] % 64) as int, (s.v[y] % 32) as int, k, line, col),
{
    reveal(drawn_before);
    reveal(hits);
    let (ox, oy) = ((s.v[x] % 64) as int, (s.v[y] % 32) as int);
    lemma_sprite_cell(ox, oy, line, col, address);
    assert forall|k: int|
        0 <= k < SCREEN_CELLS && k != address implies drawn_before(ox, oy, k, line, col + 1)
        == drawn_before(ox, oy, k, line, col) by {
        lemma_sprite_cell(ox, oy, line, col, k);
    }
}

/// Every pixel over a cell that the sprite hits comes before the first pixel
/// of row `line`, once the rows before it are drawn.
proof fn lemma_rows_done(s: Machine, x: int, y: int, n: int, line: int)
    requires
        0 <= line <= n,
    ensures
        forall|k: int|
            #[trigger] hits(s, x, y, n, k) ==> drawn_before((s.v[x] % 64) as int, (s.v[y] % 32) as int, k, line, 8)
                == drawn_before((s.v[x] % 64) as int, (s.v[y] % 32) as int, k, line + 1, 0),
        line == n ==> forall|k: int|
            #[trigger] hits(s, x, y, n, k) ==> drawn_before((s.v[x] % 64) as int, (s.v[y] % 32) as int, k, line, 0),
{
    reveal(drawn_before);
    reveal(hits);
}

impl Cpu {
    /// The sizes of the machine's parts, which their types fix.
    pub proof fn lemma_wf(&self)
        ensures
            self@.wf(),
    {
    }

    /// A new, initialized cpu: registers, timers, stack, keys and screen
    /// cleared, the font loaded, and the program counter at the program area.
    pub fn new() -> (r: Cpu)
        ensures
            r@ == Machine::power_on(),
    {
        let mut cpu = Cpu {
            register: [0; 16],
            delay: 0,
            sound: 0,
            i: 0,
            pc: PROGRAM_START,
            sp: Vec::new(),
            key: [false; 16],
            unknown_key: false,
            screen: [false; 2048],
            memory: [0; 4096],
        };
        let font: [u8; 80] = [
            0xF0, 0x90, 0x90, 0x90, 0xF0, // 0
            0x20, 0x60, 0x20, 0x20, 0x70, // 1
            0xF0, 0x10, 0xF0, 0x80, 0xF0, // 2
            0xF0, 0x10, 0xF0, 0x10, 0xF0, // 3
            0x90, 0x90, 0xF0, 0x10, 0x10, // 4
            0xF0, 0x80, 0xF0, 0x10, 0xF0, // 5
            0xF0, 0x80, 0xF0, 0x90, 0xF0, // 6
            0xF0, 0x10, 0x20, 0x40, 0x40, // 7
            0xF0, 0x90, 0xF0, 0x90, 0xF0, // 8
            0xF0, 0x90, 0xF0, 0x10, 0xF0, // 9
            0xF0, 0x90, 0xF0, 0x90, 0x90, // A
            0xE0, 0x90, 0xE0, 0x90, 0xE0, // B
            0xF0, 0x80, 0x80, 0x80, 0xF0, // C
            0xE0, 0x90, 0x90, 0x90, 0xE0, // D
            0xF0, 0x80, 0xF0, 0x80, 0xF0, // E
            0xF0, 0x80, 0xF0, 0x80, 0x80, // F
        ];
        assert(font@ =~= fontset());
        let ghost blank = cpu@;
        let mut k: usize = 0;
        while k < 80
            invariant
                0 <= k <= 80,
                font@ == fontset(),
                blank.mem == Seq::new(MEMORY_SIZE as nat, |a: int| 0u8),
                cpu@ == (Machine { mem: cpu@.mem, ..blank }),
                cpu@.mem.len() == MEMORY_SIZE,
                forall|a: int|
                    0 <= a < MEMORY_SIZE ==> #[trigger] cpu@.mem[a] == if FONTSET_ADDRESS <= a
                        < FONTSET_ADDRESS + k {
                        fontset()[a - FONTSET_ADDRESS]
                    } else {
                        0u8
                    },
            decreases 80 - k,
        {
            cpu.memory[FONTSET_ADDRESS as usize + k] = font[k];
            k = k + 1;
        }
        assert(cpu@.mem =~= Machine::power_on().mem);
        assert(cpu@.v =~= Machine::power_on().v);
        assert(cpu@.keys =~= Machine::power_on().keys);
        assert(cpu@.screen =~= Machine::power_on().screen);
        assert(cpu@.stack =~= Machine::power_on().stack);
        cpu
    }

    /// Write access to the state of hex key `keycode`; a code outside the
    /// keypad gets a cell that nothing reads.
    pub fn key_mut(&mut self, keycode: u8) -> (r: &mut bool)
        ensures
            keycode <= 0x0F ==> *r == old(self)@.keys[keycode as int],
            keycode <= 0x0F ==> final(self)@ == (Machine {
                keys: old(self)@.keys.update(keycode as int, *final(r)),
                ..old(self)@
            }),
            keycode > 0x0F ==> final(self)@ == old(self)@,
    {
        if keycode <= 0x0F {
            &mut self.key[keycode as usize]
        } else {
            &mut self.unknown_key
        }
    }

    /// Copies the rom into memory from the start of the program area; bytes
    /// past the end of memory are dropped.
    pub fn load_rom(&mut self, rom: &[u8])
        ensures
            final(self)@ == old(self)@.load(rom@),
    {
        let len: usize = if rom.len() < ROM_CAPACITY { rom.len() } else { ROM_CAPACITY };
        let mut k: usize = 0;
        while k < len
            invariant
                len <= ROM_CAPACITY,
                len <= rom@.len(),
                len == rom@.len() || len == ROM_CAPACITY,
                0 <= k <= len,
                self@ == (Machine { mem: self@.mem, ..old(self)@ }),
                self@.mem.len() == MEMORY_SIZE,
                forall|a: int|
                    0 <= a < MEMORY_SIZE ==> #[trigger] self@.mem[a] == if PROGRAM_START <= a
                        < PROGRAM_START + k {
                        rom@[a - PROGRAM_START]
                    } else {
                        old(self)@.mem[a]
                    },
            decreases len - k,
        {
            self.memory[PROGRAM_START as usize + k] = rom[k];
            k = k + 1;
        }
        assert(self@.mem =~= old(self)@.load(rom@).mem);
    }

    /// Runs opcode `opcode`, with `byte` as the random byte that `CXKK`
    /// masks. An unknown opcode only moves on to the next instruction.
    pub fn execute(&mut self, opcode: u16, byte: u8)
        requires
            old(self)@.in_bounds(opcode),
        ensures
            final(self)@ == old(self)@.execute(opcode, byte),
    {
        assert(opcode & 0x00FF <= 0xFF && (opcode >> 8) & 0x000F <= 0x0F && (opcode >> 4) & 0x000F
            <= 0x0F && opcode & 0x000F <= 0x0F) by (bit_vector);
        let address = opcode & 0x0FFF;
        let value = (opcode & 0x00FF) as u8;
        let x = ((opcode >> 8) & 0x000F) as u8;
        let y = ((opcode >> 4) & 0x000F) as u8;
        let n = (opcode & 0x000F) as u8;
        let low = opcode & 0x00FF;
        proof {
            lemma_opcode_group(opcode);
        }
        match opcode & 0xF000 {
            0x0000 => {
                if opcode == 0x00E0 {
                    self.cls()
                } else if opcode == 0x00EE {
                    self.rts()
                } else {
                    self.advance()
                }
            },
            0x1000 => self.jmp(address),
            0x2000 => self.jsr(address),
            0x3000 => self.skeq_const(x, value),
            0x4000 => self.skne_const(x, value),
            0x5000 => self.skeq_reg(x, y),
            0x6000 => self.mov_const(x, value),
            0x7000 => self.add_const(x, value),
            0x8000 => match opcode & 0x000F {
                0x0 => self.mov_reg(x, y),
                0x1 => self.or_reg(x, y),
                0x2 => self.and_reg(x, y),
                0x3 => self.xor_reg(x, y),
                0x4 => self.add_reg(x, y),
                0x5 => self.sub_reg(x, y),
                0x6 => self.shr(x, y),
                0x7 => self.rsb(x, y),
                0xE => self.shl(x, y),
                _ => self.advance(),
            },
            0x9000 => self.skne_reg(x, y),
            0xA000 => self.mvi(address),
            0xB000 => self.jmi(address),
            0xC000 => self.rand_from(x, value, byte),
            0xD000 => self.sprite(x, y, n),
            0xE000 => match low {
                0x9E => self.skpr(x),
                0xA1 => self.skup(x),
                _ => self.advance(),
            },
            _ => match low {
                0x07 => self.gdelay(x),
                0x0A => self.key(x),
                0x15 => self.sdelay(x),
                0x18 => self.ssound(x),
                0x1E => self.adi(x),
                0x29 => self.font(x),
                0x33 => self.bcd(x),
                0x55 => self.str(x),
                0x65 => self.ldr(x),
                _ => self.advance(),
            },
        }
    }

    /// Whether `tick` can run now: the instruction at the program counter
    /// lies in memory, and so does every byte it reads or writes.
    pub fn can_tick(&self) -> (r: bool)
        ensures
            r == self@.can_tick(),
    {
        if self.pc as usize + 1 >= MEMORY_SIZE {
            return false;
        }
        let opcode = self.mem(self.pc) as u16 * 256 + self.mem(self.pc + 1) as u16;
        assert(opcode & 0x00FF <= 0xFF && (opcode >> 8) & 0x000F <= 0x0F && opcode & 0x000F <= 0x0F)
            by (bit_vector);
        let x = ((opcode >> 8) & 0x000F) as usize;
        let n = (opcode & 0x000F) as usize;
        let low = opcode & 0x00FF;
        if opcode & 0xF000 == 0xD000 {
            n == 0 || self.i as usize + n <= MEMORY_SIZE
        } else if opcode & 0xF000 == 0xF000 && (low == 0x55 || low == 0x65) {
            self.i as usize + x < MEMORY_SIZE
        } else {
            true
        }
    }

    /// Runs a single instruction, the one at the program counter. Only
    /// `CXKK` draws a random byte; every other instruction has one outcome.
    pub fn tick(&mut self)
        requires
            old(self)@.can_tick(),
        ensures
            exists|byte: u8| final(self)@ == old(self)@.execute(old(self)@.opcode(), byte),
            old(self)@.opcode() & 0xF000 != 0xC000 ==> final(self)@ == old(self)@.execute(
                old(self)@.opcode(),
                0,
            ),
    {
        let opcode = self.mem(self.pc) as u16 * 256 + self.mem(self.pc + 1) as u16;
        let byte = if opcode & 0xF000 == 0xC000 {
            random_byte()
        } else {
            0
        };
        self.execute(opcode, byte);
    }

    /// Decrements the timers; returns whether the buzzer needs to sound.
    pub fn tick_timers(&mut self) -> (r: bool)
        ensures
            r == old(self)@.beeps(),
            final(self)@ == old(self)@.count_down(),
    {
        let mut make_sound = false;
        if self.delay > 0 {
            self.delay = self.delay - 1;
        }
        if self.sound == 1 {
            make_sound = true;
        }
        if self.sound > 0 {
            self.sound = self.sound - 1;
        }
        make_sound
    }

    /// The framebuffer, row-major, `SCREEN_WIDTH` cells per row.
    pub fn screen(&self) -> (r: &[bool; 2048])
        ensures
            r@ == self@.screen,
    {
        &self.screen
    }

    /// The program counter.
    pub fn pc(&self) -> (r: u16)
        ensures
            r == self@.pc,
    {
        self.pc
    }

    /// The index register I.
    pub fn index(&self) -> (r: u16)
        ensures
            r == self@.i,
    {
        self.i
    }

    /// Sets the index register I.
    pub fn set_index(&mut self, value: u16)
        ensures
            final(self)@ == (Machine { i: value, ..old(self)@ }),
    {
        self.i = value;
    }

    /// Write access to the framebuffer.
    pub fn screen_mut(&mut self) -> (r: &mut [bool; 2048])
        ensures
            r@ == old(self)@.screen,
            final(self)@ == (Machine { screen: final(r)@, ..old(self)@ }),
    {
        &mut self.screen
    }

    /// The value of register `register`.
    pub fn reg(&self, register: u8) -> (r: u8)
        requires
            register <= 0x0F,
        ensures
            r == self@.v[register as int],
    {
        self.register[register as usize]
    }

    /// Write access to register `register`.
    pub fn reg_mut(&mut self, register: u8) -> (r: &mut u8)
        requires
            register <= 0x0F,
        ensures
            *r == old(self)@.v[register as int],
            final(self)@ == old(self)@.with_reg(register as int, *final(r)),
    {
        &mut self.register[register as usize]
    }

    /// The byte at `address`.
    pub fn mem(&self, address: u16) -> (r: u8)
        requires
            address < MEMORY_SIZE,
        ensures
            r == self@.mem[address as int],
    {
        self.memory[address as usize]
    }

    /// Write access to the byte at `address`.
    pub fn mem_mut(&mut self, address: u16) -> (r: &mut u8)
        requires
            address < MEMORY_SIZE,
        ensures
            *r == old(self)@.mem[address as int],
            final(self)@ == (Machine {
                mem: old(self)@.mem.update(address as int, *final(r)),
                ..old(self)@
            }),
    {
        &mut self.memory[address as usize]
    }

    /// Moves the program counter on to the next instruction.
    fn advance(&mut self)
        ensures
            final(self)@ == old(self)@.next(),
    {
        self.pc = self.pc.wrapping_add(INSTRUCTION_WIDTH);
    }

    /// Moves past the next instruction when `cond` holds, else to it.
    fn skip_if(&mut self, cond: bool)
        ensures
            final(self)@ == old(self)@.skip_if(cond),
    {
        if cond {
            self.pc = self.pc.wrapping_add(INSTRUCTION_WIDTH);
        }
        self.pc = self.pc.wrapping_add(INSTRUCTION_WIDTH);
    }

    /// 0x00E0: clear the screen.
    pub fn cls(&mut self)
        ensures
            final(self)@ == old(self)@.cls(),
    {
        let mut k: usize = 0;
        while k < SCREEN_CELLS
            invariant
                0 <= k <= SCREEN_CELLS,
                self@ == (Machine { screen: self@.screen, ..old(self)@ }),
                self@.screen.len() == SCREEN_CELLS,
                forall|j: int| 0 <= j < k ==> !#[trigger] self@.screen[j],
            decreases SCREEN_CELLS - k,
        {
            self.screen[k] = false;
            k = k + 1;
        }
        assert(self@.screen =~= Seq::new(SCREEN_CELLS as nat, |j: int| false));
        self.advance();
    }

    /// 0x00EE: return from subroutine; with no return address, nothing happens.
    pub fn rts(&mut self)
        ensures
            final(self)@ == old(self)@.rts(),
    {
        if let Some(address) = self.sp.pop() {
            self.pc = address;
        }
    }

    /// 0x1NNN: jump to address.
    pub fn jmp(&mut self, address: u16)
        ensures
            final(self)@ == old(self)@.jmp(address),
    {
        self.pc = address;
    }

    /// 0x2NNN: jump to subroutine.
    pub fn jsr(&mut self, address: u16)
        ensures
            final(self)@ == old(self)@.jsr(address),
    {
        self.sp.push(self.pc.wrapping_add(INSTRUCTION_WIDTH));
        self.pc = address;
    }

    /// 0x3XKK: skip the next instruction if VX == KK.
    pub fn skeq_const(&mut self, register_id: u8, constant: u8)
        requires
            register_id <= 0x0F,
        ensures
            final(self)@ == old(self)@.skeq_const(register_id as int, constant),
    {
        let reg = self.reg(register_id);
        self.skip_if(reg == constant);
    }

    /// 0x4XKK: skip the next instruction if VX != KK.
    pub fn skne_const(&mut self, register_id: u8, constant: u8)
        requires
            register_id <= 0x0F,
        ensures
            final(self)@ == old(self)@.skne_const(register_id as int, constant),
    {
        let reg = self.reg(register_id);
        self.skip_if(reg != constant);
    }

    /// 0x5XY0: skip the next instruction if VX == VY.
    pub fn skeq_reg(&mut self, register_x_id: u8, register_y_id: u8)
        requires
            register_x_id <= 0x0F,
            register_y_id <= 0x0F,
        ensures
            final(self)@ == old(self)@.skeq_reg(register_x_id as int, register_y_id as int),
    {
        let x = self.reg(register_x_id);
        let y = self.reg(register_y_id);
        self.skip_if(x == y);
    }

    /// 0x6XKK: move constant KK into VX.
    pub fn mov_const(&mut self, register_x_id: u8, constant: u8)
        requires
            register_x_id <= 0x0F,
        ensures
            final(self)@ == old(self)@.mov_const(register_x_id as int, constant),
    {
        self.register[register_x_id as usize] = constant;
        self.advance();
    }

    /// 0x7XKK: add constant KK to VX; no carry is recorded.
    pub fn add_const(&mut self, register_id: u8, constant: u8)
        requires
            register_id <= 0x0F,
        ensures
            final(self)@ == old(self)@.add_const(register_id as int, constant),
    {
        let x = self.reg(register_id);
        self.register[register_id as usize] = x.wrapping_add(constant);
        self.advance();
    }

    /// 0x8XY0: move VY into VX.
    pub fn mov_reg(&mut self, register_x_id: u8, register_y_id: u8)
        requires
            register_x_id <= 0x0F,
            register_y_id <= 0x0F,
        ensures
            final(self)@ == old(self)@.mov_reg(register_x_id as int, register_y_id as int),
    {
        let y = self.reg(register_y_id);
        self.register[register_x_id as usize] = y;
        self.advance();
    }

    /// 0x8XY1: VX = VX | VY.
    pub fn or_reg(&mut self, register_x_id: u8, register_y_id: u8)
        requires
            register_x_id <= 0x0F,
            register_y_id <= 0x0F,
        ensures
            final(self)@ == old(self)@.or_reg(register_x_id as int, register_y_id as int),
    {
        let y = self.reg(register_y_id);
        let x = self.reg(register_x_id);
        self.register[register_x_id as usize] = x | y;
        self.advance();
    }

    /// 0x8XY2: VX = VX & VY.
    pub fn and_reg(&mut self, register_x_id: u8, register_y_id: u8)
        requires
            register_x_id <= 0x0F,
            register_y_id <= 0x0F,
        ensures
            final(self)@ == old(self)@.and_reg(register_x_id as int, register_y_id as int),
    {
        let y = self.reg(register_y_id);
        let x = self.reg(register_x_id);
        self.register[register_x_id as usize] = x & y;
        self.advance();
    }

    /// 0x8XY3: VX = VX ^ VY.
    pub fn xor_reg(&mut self, register_x_id: u8, register_y_id: u8)
        requires
            register_x_id <= 0x0F,
            register_y_id <= 0x0F,
        ensures
            final(self)@ == old(self)@.xor_reg(register_x_id as int, register_y_id as int),
    {
        let y = self.reg(register_y_id);
        let x = self.reg(register_x_id);
        self.register[register_x_id as usize] = x ^ y;
        self.advance();
    }

    /// 0x8XY4: add VY to VX; VF = 1 on carry, else 0.
    pub fn add_reg(&mut self, register_x_id: u8, register_y_id: u8)
        requires
            register_x_id <= 0x0F,
            register_y_id <= 0x0F,
        ensures
            final(self)@ == old(self)@.add_reg(register_x_id as int, register_y_id as int),
    {
        let y = self.reg(register_y_id);
        let x = self.reg(register_x_id);
        let sum = x as u16 + y as u16;
        self.register[register_x_id as usize] = (sum % 256) as u8;
        self.register[FLAG as usize] = if sum > 0xFF { 1 } else { 0 };
        self.advance();
    }

    /// 0x8XY5: subtract VY from VX; VF = 1 when there is no borrow, else 0.
    pub fn sub_reg(&mut self, register_x_id: u8, register_y_id: u8)
        requires
            register_x_id <= 0x0F,
            register_y_id <= 0x0F,
        ensures
            final(self)@ == old(self)@.sub_reg(register_x_id as int, register_y_id as int),
    {
        let y = self.reg(register_y_id);
        let x = self.reg(register_x_id);
        self.register[register_x_id as usize] = x.wrapping_sub(y);
        self.register[FLAG as usize] = if x >= y { 1 } else { 0 };
        self.advance();
    }

    /// 0x8XY6: shift VX right; the bit shifted out goes to VF. VY is not used.
    pub fn shr(&mut self, register_x_id: u8, _register_y_id: u8)
        requires
            register_x_id <= 0x0F,
        ensures
            final(self)@ == old(self)@.shr(register_x_id as int),
    {
        let x = self.reg(register_x_id);
        self.register[FLAG as usize] = x & 0x01;
        self.register[register_x_id as usize] = x >> 1;
        assert(x & 0x01 == x % 2 && x >> 1 == x / 2) by (bit_vector);
        self.advance();
    }

    /// 0x8XY7: VX = VY - VX; VF = 1 when there is no borrow, else 0.
    pub fn rsb(&mut self, register_x_id: u8, register_y_id: u8)
        requires
            register_x_id <= 0x0F,
            register_y_id <= 0x0F,
        ensures
            final(self)@ == old(self)@.rsb(register_x_id as int, register_y_id as int),
    {
        let y = self.reg(register_y_id);
        let x = self.reg(register_x_id);
        self.register[register_x_id as usize] = y.wrapping_sub(x);
        self.register[FLAG as usize] = if y >= x { 1 } else { 0 };
        self.advance();
    }

    /// 0x8XYE: shift VX left; the bit shifted out goes to VF. VY is not used.
    pub fn shl(&mut self, register_x_id: u8, _register_y_id: u8)
        requires
            register_x_id <= 0x0F,
        ensures
            final(self)@ == old(self)@.shl(register_x_id as int),
    {
        let x = self.reg(register_x_id);
        self.register[FLAG as usize] = x >> 7;
        self.register[register_x_id as usize] = x << 1;
        assert(x >> 7 == x / 128 && x << 1 == (x * 2) % 256) by (bit_vector);
        self.advance();
    }

    /// 0x9XY0: skip the next instruction if VX != VY.
    pub fn skne_reg(&mut self, register_x_id: u8, register_y_id: u8)
        requires
            register_x_id <= 0x0F,
            register_y_id <= 0x0F,
        ensures
            final(self)@ == old(self)@.skne_reg(register_x_id as int, register_y_id as int),
    {
        let x = self.reg(register_x_id);
        let y = self.reg(register_y_id);
        self.skip_if(x != y);
    }

    /// 0xANNN: load the index register with NNN.
    pub fn mvi(&mut self, value: u16)
        ensures
            final(self)@ == old(self)@.mvi(value),
    {
        self.i = value & 0x0FFF;
        self.advance();
    }

    /// 0xBNNN: jump to NNN + V0, within the 12-bit address space.
    pub fn jmi(&mut self, value: u16)
        ensures
            final(self)@ == old(self)@.jmi(value),
    {
        let address = value & 0x0FFF;
        assert(value & 0x0FFF <= 0x0FFF) by (bit_vector);
        self.pc = (address + self.reg(0) as u16) % 0x1000;
    }

    /// 0xCXKK with the random byte given: VX = byte & KK.
    pub fn rand_from(&mut self, register_x_id: u8, value: u8, byte: u8)
        requires
            register_x_id <= 0x0F,
        ensures
            final(self)@ == old(self)@.rand(register_x_id as int, value, byte),
    {
        self.register[register_x_id as usize] = byte & value;
        self.advance();
    }

    /// 0xCXKK: VX = a random byte & KK.
    pub fn rand(&mut self, register_x_id: u8, value: u8)
        requires
            register_x_id <= 0x0F,
        ensures
            exists|byte: u8| final(self)@ == old(self)@.rand(register_x_id as int, value, byte),
    {
        let byte = random_byte();
        self.rand_from(register_x_id, value, byte);
    }

    /// 0xDXYN: draw the N-row sprite stored from I on at (VX, VY), wrapping
    /// around the screen edges. Drawing toggles the cells under the sprite's
    /// set pixels; VF is 1 if one of them was on, else 0.
    pub fn sprite(&mut self, register_x_id: u8, register_y_id: u8, num_lines: u8)
        requires
            register_x_id <= 0x0F,
            register_y_id <= 0x0F,
            num_lines <= 0x0F,
            num_lines == 0 || old(self)@.i + num_lines <= MEMORY_SIZE,
        ensures
            final(self)@ == old(self)@.sprite(
                register_x_id as int,
                register_y_id as int,
                num_lines as int,
            ),
    {
        let ghost s0 = self@;
        let ghost (xi, yi, n) = (register_x_id as int, register_y_id as int, num_lines as int);
        let ox = (self.reg(register_x_id) % 64) as usize;
        let oy = (self.reg(register_y_id) % 32) as usize;
        let mut collided = false;
        let mut line: u8 = 0;
        proof {
            self.lemma_wf();
            reveal(drawn_before);
            assert forall|k: int| !drawn_before(ox as int, oy as int, k, 0, 0) by {}
        }
        while line < num_lines
            invariant
                0 <= line <= num_lines <= 0x0F,
                register_x_id <= 0x0F && register_y_id <= 0x0F,
                num_lines == 0 || s0.i + num_lines <= MEMORY_SIZE,
                s0.wf(),
                xi == register_x_id && yi == register_y_id && n == num_lines,
                ox == s0.v[xi] % 64,
                oy == s0.v[yi] % 32,
                self@ == (Machine { screen: self@.screen, ..s0 }),
                self@.screen.len() == SCREEN_CELLS,
                forall|k: int|
                    0 <= k < SCREEN_CELLS ==> #[trigger] self@.screen[k] == (s0.screen[k] != (hits(
                        s0,
                        xi,
                        yi,
                        n,
                        k,
                    ) && drawn_before(ox as int, oy as int, k, line as int, 0))),
                collided == exists|k: int|
                    0 <= k < SCREEN_CELLS && #[trigger] hits(s0, xi, yi, n, k) && drawn_before(
                        ox as int,
                        oy as int,
                        k,
                        line as int,
                        0,
                    ) && s0.screen[k],
            decreases num_lines - line,
        {
            let sprite_row = self.memory[(self.i + line as u16) as usize];
            let mut col: u8 = 0;
            while col < 8
                invariant
                    0 <= line < num_lines <= 0x0F,
                    0 <= col <= 8,
                    register_x_id <= 0x0F && register_y_id <= 0x0F,
                    s0.wf(),
                    s0.i + num_lines <= MEMORY_SIZE,
                    sprite_row == s0.mem[s0.i + line],
                    xi == register_x_id && yi == register_y_id && n == num_lines,
                    ox == s0.v[xi] % 64,
                    oy == s0.v[yi] % 32,
                    self@ == (Machine { screen: self@.screen, ..s0 }),
                    self@.screen.len() == SCREEN_CELLS,
                    forall|k: int|
                        0 <= k < SCREEN_CELLS ==> #[trigger] self@.screen[k] == (s0.screen[k]
                            != (hits(s0, xi, yi, n, k) && drawn_before(
                            ox as int,
                            oy as int,
                            k,
                            line as int,
                            col as int,
                        ))),
                    collided == exists|k: int|
                        0 <= k < SCREEN_CELLS && #[trigger] hits(s0, xi, yi, n, k)
                            && drawn_before(ox as int, oy as int, k, line as int, col as int)
                            && s0.screen[k],
                decreases 8 - col,
            {
                let ghost was_collided = collided;
                let bit = (sprite_row >> (7 - col)) & 1 == 1;
                let sx = (ox + col as usize) % SCREEN_WIDTH;
                let sy = (oy + line as usize) % SCREEN_HEIGHT;
                let address = sy * SCREEN_WIDTH + sx;
                proof {
                    lemma_draw_step(s0, xi, yi, n, line as int, col as int, sprite_row, address as int);
                }
                if bit {
                    let current = self.screen[address];
                    if current {
                        collided = true;
                    }
                    self.screen[address] = !current;
                }
                col = col + 1;
                proof {
                    let ghost (o1, o2, l, c) = (ox as int, oy as int, line as int, col as int);
                    if was_collided {
                        let k = choose|k: int|
                            0 <= k < SCREEN_CELLS && #[trigger] hits(s0, xi, yi, n, k)
                                && drawn_before(o1, o2, k, l, c - 1) && s0.screen[k];
                        assert(drawn_before(o1, o2, k, l, c));
                    } else if collided {
                        assert(hits(s0, xi, yi, n, address as int));
                    } else {
                        assert forall|k: int|
                            0 <= k < SCREEN_CELLS && #[trigger] hits(s0, xi, yi, n, k)
                                && drawn_before(o1, o2, k, l, c) implies !s0.screen[k] by {
                            if k != address {
                                assert(drawn_before(o1, o2, k, l, c - 1));
                            }
                        }
                    }
                }
            }
            proof {
                lemma_rows_done(s0, xi, yi, n, line as int);
            }
            line = line + 1;
        }
        proof {
            lemma_rows_done(s0, xi, yi, n, line as int);
            reveal(hits);
            if collided {
                let k = choose|k: int|
                    0 <= k < SCREEN_CELLS && #[trigger] hits(s0, xi, yi, n, k) && drawn_before(
                        ox as int,
                        oy as int,
                        k,
                        line as int,
                        0,
                    ) && s0.screen[k];
                assert(s0.sprite_hits(xi, yi, n, k));
            }
            if s0.sprite_collides(xi, yi, n) {
                let k = choose|k: int|
                    0 <= k < s0.screen.len() && s0.sprite_hits(xi, yi, n, k) && s0.screen[k];
                assert(hits(s0, xi, yi, n, k));
            }
        }
        self.register[FLAG as usize] = if collided { 1 } else { 0 };
        assert(self@.screen =~= s0.sprite(xi, yi, n).screen);
        self.advance();
    }

    /// 0xEX9E: skip the next instruction if the key VX names is pressed.
    pub fn skpr(&mut self, key_id: u8)
        requires
            key_id <= 0x0F,
        ensures
            final(self)@ == old(self)@.skpr(key_id as int),
    {
        let value = self.reg(key_id);
        let key = value & 0x0F;
        assert(value & 0x0F < 16) by (bit_vector);
        let pressed = self.key[key as usize];
        self.skip_if(pressed);
    }

    /// 0xEXA1: skip the next instruction if the key VX names is not pressed.
    pub fn skup(&mut self, key_id: u8)
        requires
            key_id <= 0x0F,
        ensures
            final(self)@ == old(self)@.skup(key_id as int),
    {
        let value = self.reg(key_id);
        let key = value & 0x0F;
        assert(value & 0x0F < 16) by (bit_vector);
        let pressed = self.key[key as usize];
        self.skip_if(!pressed);
    }

    /// 0xFX07: VX = delay timer.
    pub fn gdelay(&mut self, register_x_id: u8)
        requires
            register_x_id <= 0x0F,
        ensures
            final(self)@ == old(self)@.gdelay(register_x_id as int),
    {
        self.register[register_x_id as usize] = self.delay;
        self.advance();
    }

    /// 0xFX0A: wait for a keypress: the lowest pressed key goes into VX.
    /// With no key pressed the program counter stays, so the instruction
    /// runs again on the next tick.
    pub fn key(&mut self, register_x_id: u8)
        requires
            register_x_id <= 0x0F,
        ensures
            final(self)@ == old(self)@.wait_key(register_x_id as int),
    {
        let mut k: usize = 0;
        while k < 16
            invariant
                0 <= k <= 16,
                register_x_id <= 0x0F,
                self@ == old(self)@,
                self@.keys.len() == 16,
                first_pressed(self@.keys, 0) == first_pressed(self@.keys, k as int),
            decreases 16 - k,
        {
            if self.key[k] {
                self.register[register_x_id as usize] = k as u8;
                self.advance();
                return;
            }
            k = k + 1;
        }
    }

    /// 0xFX15: delay timer = VX.
    pub fn sdelay(&mut self, register_x_id: u8)
        requires
            register_x_id <= 0x0F,
        ensures
            final(self)@ == old(self)@.sdelay(register_x_id as int),
    {
        self.delay = self.reg(register_x_id);
        self.advance();
    }

    /// 0xFX18: sound timer = VX.
    pub fn ssound(&mut self, register_x_id: u8)
        requires
            register_x_id <= 0x0F,
        ensures
            final(self)@ == old(self)@.ssound(register_x_id as int),
    {
        self.sound = self.reg(register_x_id);
        self.advance();
    }

    /// 0xFX1E: add VX to the index register, wrapping at 16 bits.
    pub fn adi(&mut self, register_x_id: u8)
        requires
            register_x_id <= 0x0F,
        ensures
            final(self)@ == old(self)@.adi(register_x_id as int),
    {
        self.i = self.i.wrapping_add(self.reg(register_x_id) as u16);
        self.advance();
    }

    /// 0xFX29: point the index register at the glyph of the digit in VX.
    pub fn font(&mut self, register_x_id: u8)
        requires
            register_x_id <= 0x0F,
        ensures
            final(self)@ == old(self)@.font(register_x_id as int),
    {
        self.i = FONTSET_ADDRESS + self.reg(register_x_id) as u16 * 5;
        self.advance();
    }

    /// 0xFX33: store the decimal digits of VX at I, I+1 and I+2; I is kept.
    /// Nothing is written when I is above 4092.
    pub fn bcd(&mut self, register_x_id: u8)
        requires
            register_x_id <= 0x0F,
        ensures
            final(self)@ == old(self)@.bcd(register_x_id as int),
    {
        if self.i <= 4092 {
            let x = self.reg(register_x_id);
            let x100 = x / 100;
            let x10 = (x - x100 * 100) / 10;
            let x1 = x - x100 * 100 - x10 * 10;
            let i = self.i as usize;
            self.memory[i] = x100;
            self.memory[i + 1] = x10;
            self.memory[i + 2] = x1;
        }
        self.advance();
    }

    /// 0xFX55: store V0 .. VX in memory from I on; I ends just past them.
    pub fn str(&mut self, register_x_id: u8)
        requires
            register_x_id <= 0x0F,
            old(self)@.i + register_x_id < MEMORY_SIZE,
        ensures
            final(self)@ == old(self)@.str(register_x_id as int),
    {
        let base = self.i;
        let mut k: u8 = 0;
        while k <= register_x_id
            invariant
                0 <= k <= register_x_id + 1,
                register_x_id <= 0x0F,
                base == old(self)@.i,
                base + register_x_id < MEMORY_SIZE,
                self@ == (Machine { mem: self@.mem, ..old(self)@ }),
                self@.mem.len() == MEMORY_SIZE,
                forall|a: int|
                    0 <= a < MEMORY_SIZE ==> #[trigger] self@.mem[a] == if base <= a < base + k {
                        old(self)@.v[a - base]
                    } else {
                        old(self)@.mem[a]
                    },
            decreases register_x_id + 1 - k,
        {
            self.memory[(base + k as u16) as usize] = self.register[k as usize];
            k = k + 1;
        }
        self.i = base + register_x_id as u16 + 1;
        assert(self@.mem =~= old(self)@.str(register_x_id as int).mem);
        self.advance();
    }

    /// 0xFX65: load V0 .. VX from memory from I on; I ends just past them.
    pub fn ldr(&mut self, register_x_id: u8)
        requires
            register_x_id <= 0x0F,
            old(self)@.i + register_x_id < MEMORY_SIZE,
        ensures
            final(self)@ == old(self)@.ldr(register_x_id as int),
    {
        let base = self.i;
        let mut k: u8 = 0;
        while k <= register_x_id
            invariant
                0 <= k <= register_x_id + 1,
                register_x_id <= 0x0F,
                base == old(self)@.i,
                base + register_x_id < MEMORY_SIZE,
                self@ == (Machine { v: self@.v, ..old(self)@ }),
                self@.v.len() == 16,
                forall|r: int|
                    0 <= r < 16 ==> #[trigger] self@.v[r] == if r < k {
                        old(self)@.mem[base + r]
                    } else {
                        old(self)@.v[r]
                    },
            decreases register_x_id + 1 - k,
        {
            self.register[k as usize] = self.memory[(base + k as u16) as usize];
            k = k + 1;
        }
        self.i = base + register_x_id as u16 + 1;
        assert(self@.v =~= old(self)@.ldr(register_x_id as int).v);
        self.advance();
    }
}

impl Default for Cpu {
    fn default() -> (r: Cpu)
        ensures
            r@ == Machine::power_on(),
    {
        Cpu::new()
    }
}

} // verus!
