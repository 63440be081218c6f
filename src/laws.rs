//! Laws of the instruction set, proved over the machine model that the
//! contracts of `Cpu` are stated in.

use vstd::prelude::*;

use crate::machine::{
    first_pressed, fontset, glyph, lemma_opcode_group, op_kk, op_x, op_y, wrap16, Machine, FLAG,
};

verus! {

/// Whether `op` is one of the skips: `3XKK`, `4XKK`, `5XY0`, `9XY0`, `EX9E`, `EXA1`.
pub open spec fn is_skip(op: u16) -> bool {
    let hi = op & 0xF000;
    let low = op & 0x00FF;
    ||| hi == 0x3000
    ||| hi == 0x4000
    ||| hi == 0x5000
    ||| hi == 0x9000
    ||| hi == 0xE000 && (low == 0x9E || low == 0xA1)
}

/// Whether `op` sets the program counter itself: a return, jump, call or skip.
pub open spec fn directs_control(op: u16) -> bool {
    let hi = op & 0xF000;
    ||| op == 0x00EE
    ||| hi == 0x1000
    ||| hi == 0x2000
    ||| hi == 0xB000
    ||| is_skip(op)
}

/// Whether `op` is `FX0A`, which waits for a key.
pub open spec fn is_wait_key(op: u16) -> bool {
    op & 0xF000 == 0xF000 && op & 0x00FF == 0x0A
}

/// The condition under which skip `op` skips, as the instruction set defines it.
pub open spec fn skip_condition(s: Machine, op: u16) -> bool {
    let hi = op & 0xF000;
    let x = op_x(op) as int;
    let y = op_y(op) as int;
    if hi == 0x3000 {
        s.v[x] == op_kk(op)
    } else if hi == 0x4000 {
        s.v[x] != op_kk(op)
    } else if hi == 0x5000 {
        s.v[x] == s.v[y]
    } else if hi == 0x9000 {
        s.v[x] != s.v[y]
    } else if op & 0x00FF == 0x9E {
        s.keys[(s.v[x] & 0x0F) as int]
    } else {
        !s.keys[(s.v[x] & 0x0F) as int]
    }
}

/// Every instruction that is not a return, jump, call or skip, and is not an
/// `FX0A` still waiting for a key, moves the program counter on by 2, modulo 2^16.
pub proof fn lemma_pc_advance(s: Machine, op: u16, byte: u8)
    requires
        s.wf(),
        !directs_control(op),
        is_wait_key(op) ==> first_pressed(s.keys, 0) is Some,
    ensures
        s.execute(op, byte).pc == wrap16(s.pc + 2),
{
    lemma_opcode_group(op);
}

/// A skip moves the program counter on by 4 when its condition holds and by 2
/// when it does not, modulo 2^16.
pub proof fn lemma_skip(s: Machine, op: u16, byte: u8)
    requires
        s.wf(),
        is_skip(op),
    ensures
        s.execute(op, byte).pc == wrap16(s.pc + 4) <==> skip_condition(s, op),
        s.execute(op, byte).pc == wrap16(s.pc + 2) <==> !skip_condition(s, op),
{
}

/// `ADD.K` and `ADD.R` leave the sum modulo 256 in `VX`; for `ADD.R` that
/// holds unless `VX` is the flag register, which the carry overwrites.
pub proof fn lemma_add_wraps(s: Machine, x: int, y: int, k: u8)
    requires
        s.wf(),
        0 <= x < 16,
        0 <= y < 16,
    ensures
        s.add_const(x, k).v[x] == (s.v[x] + k) % 256,
        x != FLAG ==> s.add_reg(x, y).v[x] == (s.v[x] + s.v[y]) % 256,
{
}

/// `VF` after `ADD.R` is the carry, and after `SUB.R` and `RSB` it is 1
/// exactly when the subtraction does not borrow.
pub proof fn lemma_flags(s: Machine, x: int, y: int)
    requires
        s.wf(),
        0 <= x < 16,
        0 <= y < 16,
    ensures
        s.add_reg(x, y).v[FLAG as int] == if s.v[x] + s.v[y] >= 256 {
            1u8
        } else {
            0u8
        },
        s.sub_reg(x, y).v[FLAG as int] == if s.v[x] >= s.v[y] {
            1u8
        } else {
            0u8
        },
        s.rsb(x, y).v[FLAG as int] == if s.v[y] >= s.v[x] {
            1u8
        } else {
            0u8
        },
{
}

/// `SHR` halves `VX` and `SHL` doubles it modulo 256; the bit shifted out
/// lands in `VF`, unless `VX` is `VF` itself, where the shifted value stays.
pub proof fn lemma_shifts(s: Machine, x: int)
    requires
        s.wf(),
        0 <= x < 16,
    ensures
        s.shr(x).v[x] == s.v[x] >> 1,
        s.shl(x).v[x] == s.v[x] << 1,
        x != FLAG ==> s.shr(x).v[FLAG as int] == s.v[x] & 1,
        x != FLAG ==> s.shl(x).v[FLAG as int] == s.v[x] >> 7,
{
    let a = s.v[x];
    assert(a >> 1 == a / 2 && a << 1 == (a * 2) % 256 && a & 1 == a % 2 && a >> 7 == a / 128)
        by (bit_vector);
}

/// The machine after calling the subroutines at `addresses`, one from within
/// the other, in order.
pub open spec fn calls(s: Machine, addresses: Seq<u16>) -> Machine
    decreases addresses.len(),
{
    if addresses.len() == 0 {
        s
    } else {
        calls(s.jsr(addresses[0]), addresses.drop_first())
    }
}

/// The machine after `n` returns from subroutines.
pub open spec fn unwind(s: Machine, n: nat) -> Machine
    decreases n,
{
    if n == 0 {
        s
    } else {
        unwind(s, (n - 1) as nat).rts()
    }
}

/// A call followed by a return lands on the instruction after the call, with
/// the stack as it was.
pub proof fn lemma_call_return(s: Machine, address: u16)
    ensures
        s.jsr(address).rts() == s.next(),
{
    assert(s.jsr(address).stack.drop_last() =~= s.stack);
}

/// Calls nested `n` deep followed by `n` returns land on the instruction
/// after the outermost call, with the stack as it was.
pub proof fn lemma_nested_calls_return(s: Machine, addresses: Seq<u16>)
    requires
        addresses.len() > 0,
    ensures
        unwind(calls(s, addresses), addresses.len()) == s.next(),
    decreases addresses.len(),
{
    let t = s.jsr(addresses[0]);
    let rest = addresses.drop_first();
    lemma_call_return(s, addresses[0]);
    if rest.len() == 0 {
        assert(unwind(calls(t, rest), 0) == t);
    } else {
        lemma_nested_calls_return(t, rest);
        assert(t.next().rts() == s.next()) by {
            assert(t.next().stack.drop_last() =~= s.stack);
        }
    }
    assert(calls(s, addresses) == calls(t, rest));
    assert(unwind(calls(s, addresses), addresses.len()) == unwind(
        calls(t, rest),
        rest.len(),
    ).rts());
}

/// `BCD` writes three decimal digits that together give back `VX`, and
/// leaves `I` as it was; `I` must leave room for the three bytes.
pub proof fn lemma_bcd_round_trip(s: Machine, x: int)
    requires
        s.wf(),
        0 <= x < 16,
        s.i <= 4092,
    ensures
        ({
            let t = s.bcd(x);
            let i = s.i as int;
            &&& t.mem[i] * 100 + t.mem[i + 1] * 10 + t.mem[i + 2] == s.v[x]
            &&& t.mem[i] < 10 && t.mem[i + 1] < 10 && t.mem[i + 2] < 10
            &&& t.i == s.i
        }),
{
}

/// Drawing the same sprite at the same place twice gives back the screen
/// as it was. `VX` and `VY` must not be `VF`, which the first drawing
/// overwrites, moving the second.
pub proof fn lemma_sprite_involution(s: Machine, x: int, y: int, n: int)
    requires
        s.wf(),
        0 <= x < 16,
        0 <= y < 16,
        x != FLAG,
        y != FLAG,
    ensures
        s.sprite(x, y, n).sprite(x, y, n).screen == s.screen,
{
    let t = s.sprite(x, y, n);
    assert forall|k: int| 0 <= k < s.screen.len() implies t.sprite_hits(x, y, n, k)
        == s.sprite_hits(x, y, n, k) by {}
    assert(t.sprite(x, y, n).screen =~= s.screen);
}

/// Drawing over a cell that is on sets `VF` to 1; drawing where every cell
/// under the sprite is off sets it to 0.
pub proof fn lemma_sprite_collision(s: Machine, x: int, y: int, n: int)
    requires
        s.wf(),
        0 <= x < 16,
        0 <= y < 16,
    ensures
        (exists|k: int| 0 <= k < s.screen.len() && s.sprite_hits(x, y, n, k) && s.screen[k])
            ==> s.sprite(x, y, n).v[FLAG as int] == 1,
        (forall|k: int| 0 <= k < s.screen.len() && s.sprite_hits(x, y, n, k) ==> !s.screen[k])
            ==> s.sprite(x, y, n).v[FLAG as int] == 0,
{
}

/// `FONT` points `I` at `0x050 + 5 d` for the digit `d` in `VX`, where the
/// glyph of `d` lies while the font area is as power-on left it.
pub proof fn lemma_font(s: Machine, x: int)
    requires
        s.wf(),
        0 <= x < 16,
        s.v[x] < 16,
        s.mem.subrange(0x50, 0xA0) == fontset(),
    ensures
        s.font(x).i == 0x50 + 5 * s.v[x],
        s.font(x).mem.subrange(s.font(x).i as int, s.font(x).i + 5) == glyph(s.v[x] as int),
{
    let d = s.v[x] as int;
    let i = 0x50 + 5 * d;
    assert(s.font(x).mem.subrange(i, i + 5) =~= glyph(d)) by {
        assert forall|j: int| 0 <= j < 5 implies #[trigger] s.mem[i + j] == fontset()[5 * d + j] by {
            assert(s.mem.subrange(0x50, 0xA0)[5 * d + j] == s.mem[0x50 + 5 * d + j]);
        }
    }
}

/// Power-on loads the font area with the glyphs.
pub proof fn lemma_power_on_font()
    ensures
        Machine::power_on().wf(),
        Machine::power_on().mem.subrange(0x50, 0xA0) == fontset(),
{
    assert(Machine::power_on().mem.subrange(0x50, 0xA0) =~= fontset());
}

} // verus!
