//! Machine-wide laws of the instruction set, stated over the specification
//! functions that the engine's contracts use.

use crate::cpu::{spec_execute, spec_step, view_inv, with_v, CpuView};
use crate::opcode::spec_address;
use vstd::prelude::*;

verus! {

/// Loading an immediate into any register stores exactly that immediate:
/// for every register index `x` and byte `kk`, the instruction `0x6xkk`
/// succeeds and leaves `kk` in register `x`, touching nothing else.
pub proof fn lemma_load_register(c: CpuView, x: u16, kk: u8, rnd: u8, keys: u16)
    requires
        view_inv(c),
        x <= 0xF,
    ensures
        ({
            let op = (0x6000u16 | (x << 8u16)) | (kk as u16);
            spec_execute(op, c, rnd, keys) matches Ok(t) && t.0 == with_v(c, x as int, kk)
                && t.0.v[x as int] == kk && t.1 == false
        }),
{
    let op = (0x6000u16 | (x << 8u16)) | (kk as u16);
    assert(op & 0xF000 == 0x6000 && (op >> 8) & 0xF == x && (op & 0x00FF) as u8 == kk)
        by (bit_vector)
        requires
            x <= 0xF,
            op == (0x6000u16 | (x << 8u16)) | (kk as u16),
    ;
}

/// Byte addition reports its carry: adding `0x01` to a register holding
/// `0xFF` with `0x8xy4` wraps the register to zero and raises the flag
/// register, for every pair of distinct register indices with `x` not the
/// flag register itself.
pub proof fn lemma_add_carry(c: CpuView, x: u16, y: u16, rnd: u8, keys: u16)
    requires
        view_inv(c),
        x <= 0xF,
        y <= 0xF,
        x != y,
        x != 0xF,
        c.v[x as int] == 0xFF,
        c.v[y as int] == 0x01,
    ensures
        ({
            let op = (0x8004u16 | (x << 8u16)) | (y << 4u16);
            spec_execute(op, c, rnd, keys) matches Ok(t) && t.0.v[x as int] == 0x00
                && t.0.v[0xF] == 1 && t.0.pc == c.pc
        }),
{
    let op = (0x8004u16 | (x << 8u16)) | (y << 4u16);
    assert(op & 0xF000 == 0x8000 && op & 0xF == 0x4 && (op >> 8) & 0xF == x && (op >> 4) & 0xF
        == y) by (bit_vector)
        requires
            x <= 0xF,
            y <= 0xF,
            op == (0x8004u16 | (x << 8u16)) | (y << 4u16),
    ;
}

/// Byte subtraction reports its borrow: subtracting `0x02` from a register
/// holding `0x01` with `0x8xy5` wraps the register to `0xFF` and leaves the
/// flag register zero, for every pair of distinct register indices neither
/// of which is the flag register.
pub proof fn lemma_sub_borrow(c: CpuView, x: u16, y: u16, rnd: u8, keys: u16)
    requires
        view_inv(c),
        x <= 0xF,
        y <= 0xF,
        x != y,
        x != 0xF,
        y != 0xF,
        c.v[x as int] == 0x01,
        c.v[y as int] == 0x02,
    ensures
        ({
            let op = (0x8005u16 | (x << 8u16)) | (y << 4u16);
            spec_execute(op, c, rnd, keys) matches Ok(t) && t.0.v[x as int] == 0xFF
                && t.0.v[0xF] == 0 && t.0.pc == c.pc
        }),
{
    let op = (0x8005u16 | (x << 8u16)) | (y << 4u16);
    assert(op & 0xF000 == 0x8000 && op & 0xF == 0x5 && (op >> 8) & 0xF == x && (op >> 4) & 0xF
        == y) by (bit_vector)
        requires
            x <= 0xF,
            y <= 0xF,
            op == (0x8005u16 | (x << 8u16)) | (y << 4u16),
    ;
    assert((1 - 2) % 256 == 255);
}

/// Call/return round-trip: a call instruction followed by a return at the
/// called address resumes execution at the address immediately after the
/// call, with the stack depth restored — for every state with room on the
/// stack, every call target holding a return instruction, and whatever the
/// two cycles' random bytes were.
pub proof fn lemma_call_return(c: CpuView, rnd1: u8, rnd2: u8, keys: u16)
    requires
        view_inv(c),
        c.pc + 1 < 4096,
        c.sp < 16,
        ({
            let op = ((c.mem[c.pc] as u16) << 8u16) | (c.mem[c.pc + 1] as u16);
            let target = spec_address(op) as int;
            &&& op & 0xF000 == 0x2000
            &&& target + 1 < 4096
            &&& c.mem[target] == 0x00u8
            &&& c.mem[target + 1] == 0xEEu8
        }),
    ensures
        ({
            let first = spec_step(c, rnd1, keys);
            let second = spec_step(first.post, rnd2, keys);
            &&& first.err is None
            &&& first.post.pc == spec_address(
                ((c.mem[c.pc] as u16) << 8u16) | (c.mem[c.pc + 1] as u16),
            )
            &&& first.post.sp == c.sp + 1
            &&& second.err is None
            &&& second.post.pc == c.pc + 2
            &&& second.post.sp == c.sp
        }),
{
    let op = ((c.mem[c.pc] as u16) << 8u16) | (c.mem[c.pc + 1] as u16);
    let target = spec_address(op) as int;
    assert(op & 0xF000 != 0x0000 && op & 0x0FFF <= 0xFFF) by (bit_vector)
        requires
            op & 0xF000 == 0x2000,
    ;
    let first = spec_step(c, rnd1, keys);
    assert(first.post.pc == target && first.post.sp == c.sp + 1 && first.post.mem == c.mem
        && first.post.stack[c.sp] == (c.pc + 2) as u16);
    let op2 = ((first.post.mem[target] as u16) << 8u16) | (first.post.mem[target + 1] as u16);
    assert(op2 == 0x00EE) by (bit_vector)
        requires
            op2 == ((0x00u8 as u16) << 8u16) | (0xEEu8 as u16),
    ;
    assert(0x00EEu16 & 0xF000 == 0x0000) by (bit_vector);
    let second = spec_step(first.post, rnd2, keys);
    assert(second.err is None && second.post.pc == c.pc + 2 && second.post.sp == c.sp);
}

/// The instructions that neither jump, call, return, skip nor wait for a
/// key: exactly those whose whole effect leaves the already-advanced
/// program counter alone.
pub open spec fn plain_advance(op: u16) -> bool {
    let top = op & 0xF000;
    let low = op & 0xFF;
    ||| op == 0x00E0
    ||| top == 0x6000
    ||| top == 0x7000
    ||| top == 0x8000
    ||| top == 0xA000
    ||| top == 0xC000
    ||| top == 0xD000
    ||| (top == 0xF000 && (low == 0x07 || low == 0x15 || low == 0x18 || low == 0x1E || low
        == 0x29 || low == 0x33 || low == 0x55 || low == 0x65))
}

/// Program counter invariant: a successful cycle on any non-jump, non-skip
/// instruction advances the program counter by exactly the instruction
/// width of two bytes.
pub proof fn lemma_pc_advance(c: CpuView, rnd: u8, keys: u16)
    requires
        view_inv(c),
        c.pc + 1 < 4096,
        plain_advance(((c.mem[c.pc] as u16) << 8u16) | (c.mem[c.pc + 1] as u16)),
        spec_step(c, rnd, keys).err is None,
    ensures
        spec_step(c, rnd, keys).post.pc == c.pc + 2,
{
    let op = ((c.mem[c.pc] as u16) << 8u16) | (c.mem[c.pc + 1] as u16);
    if op == 0x00E0 {
        assert(0x00E0u16 & 0xF000 == 0x0000) by (bit_vector);
    }
}

} // verus!
