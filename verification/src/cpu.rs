//! The machine state and the fetch-decode-execute engine: memory, sixteen
//! byte registers, the address register, program counter, call stack, the
//! two countdown timers and the framebuffer, mutated one opcode at a time.

use crate::cartridge::Cartridge;
use crate::display::{draw_collision, draw_vram, Display};
use crate::opcode::{spec_address, spec_lowest_byte, spec_nibble, Opcode};
use crate::timer::{spec_timer_tick, Timer, TimerView};
use vstd::arithmetic::div_mod::lemma_mod_add_multiples_vanish;
use vstd::prelude::*;

verus! {

/// Addressable memory in bytes.
pub const RAM_SIZE: usize = 4096;

/// Call stack capacity in return addresses.
pub const STACK_SIZE: usize = 16;

/// Where a program image is loaded and where execution starts.
pub const START_OF_PROGRAM: usize = 0x200;

/// The built-in glyph sprites for digits 0-F, five bytes per glyph,
/// occupying the first 80 bytes of memory.
pub open spec fn spec_glyphs() -> Seq<u8> {
    seq![
        0xF0u8, 0x90u8, 0x90u8, 0x90u8, 0xF0u8, 0x20u8, 0x60u8, 0x20u8,
        0x20u8, 0x70u8, 0xF0u8, 0x10u8, 0xF0u8, 0x80u8, 0xF0u8, 0xF0u8,
        0x10u8, 0xF0u8, 0x10u8, 0xF0u8, 0x90u8, 0x90u8, 0xF0u8, 0x10u8,
        0x10u8, 0xF0u8, 0x80u8, 0xF0u8, 0x10u8, 0xF0u8, 0xF0u8, 0x80u8,
        0xF0u8, 0x90u8, 0xF0u8, 0xF0u8, 0x10u8, 0x20u8, 0x40u8, 0x40u8,
        0xF0u8, 0x90u8, 0xF0u8, 0x90u8, 0xF0u8, 0xF0u8, 0x90u8, 0xF0u8,
        0x10u8, 0xF0u8, 0xF0u8, 0x90u8, 0xF0u8, 0x90u8, 0x90u8, 0xE0u8,
        0x90u8, 0xE0u8, 0x90u8, 0xE0u8, 0xF0u8, 0x80u8, 0x80u8, 0x80u8,
        0xF0u8, 0xE0u8, 0x90u8, 0x90u8, 0x90u8, 0xE0u8, 0xF0u8, 0x80u8,
        0xF0u8, 0x80u8, 0xF0u8, 0xF0u8, 0x80u8, 0xF0u8, 0x80u8, 0x80u8,
    ]
}

/// The glyph sprite table as bytes.
pub fn letters_sprites() -> (v: Vec<u8>)
    ensures
        v@ == spec_glyphs(),
        v@.len() == 80,
{
    let v: Vec<u8> = vec![
        0xF0u8, 0x90u8, 0x90u8, 0x90u8, 0xF0u8, 0x20u8, 0x60u8, 0x20u8,
        0x20u8, 0x70u8, 0xF0u8, 0x10u8, 0xF0u8, 0x80u8, 0xF0u8, 0xF0u8,
        0x10u8, 0xF0u8, 0x10u8, 0xF0u8, 0x90u8, 0x90u8, 0xF0u8, 0x10u8,
        0x10u8, 0xF0u8, 0x80u8, 0xF0u8, 0x10u8, 0xF0u8, 0xF0u8, 0x80u8,
        0xF0u8, 0x90u8, 0xF0u8, 0xF0u8, 0x10u8, 0x20u8, 0x40u8, 0x40u8,
        0xF0u8, 0x90u8, 0xF0u8, 0x90u8, 0xF0u8, 0xF0u8, 0x90u8, 0xF0u8,
        0x10u8, 0xF0u8, 0xF0u8, 0x90u8, 0xF0u8, 0x90u8, 0x90u8, 0xE0u8,
        0x90u8, 0xE0u8, 0x90u8, 0xE0u8, 0xF0u8, 0x80u8, 0x80u8, 0x80u8,
        0xF0u8, 0xE0u8, 0x90u8, 0x90u8, 0x90u8, 0xE0u8, 0xF0u8, 0x80u8,
        0xF0u8, 0x80u8, 0xF0u8, 0xF0u8, 0x80u8, 0xF0u8, 0x80u8, 0x80u8,
    ];
    proof {
        assert(v@ =~= spec_glyphs());
    }
    v
}

/// A fault surfaced by one execution cycle; the machine state is left
/// exactly as it was before the cycle.
#[derive(Clone, Copy, Debug, PartialEq, Eq)]
pub enum Chip8Error {
    /// The fetched bit pattern matches no defined instruction.
    UnsupportedOpcode { opcode: u16, pc: usize },
    /// A call would exceed the stack capacity.
    StackOverflow { pc: usize },
    /// A return arrived with no active call frame.
    StackUnderflow { pc: usize },
    /// A memory access beyond the addressable range.
    MemoryOutOfBounds { address: usize },
}

/// What one successful cycle asks of the host.
#[derive(Clone, Copy, Debug, PartialEq, Eq)]
pub struct TickOutcome {
    /// The sound timer's activation transition fired: the host should beep.
    pub beep: bool,
    /// A key-wait instruction found no key down; the machine did not
    /// advance and the host should tick again once a key event arrives.
    pub waiting_for_key: bool,
}

/// Mathematical state of the whole machine.
pub struct CpuView {
    pub mem: Seq<u8>,
    pub v: Seq<u8>,
    pub i: int,
    pub pc: int,
    pub sp: int,
    pub stack: Seq<u16>,
    pub delay: TimerView,
    pub sound: TimerView,
    pub vram: Seq<u8>,
    pub dirty: bool,
}

/// Structural bounds every reachable machine state satisfies.
pub open spec fn view_inv(c: CpuView) -> bool {
    &&& c.mem.len() == 4096
    &&& c.v.len() == 16
    &&& c.stack.len() == 16
    &&& 0 <= c.sp <= 16
    &&& 0 <= c.i <= 0xFFF
    &&& 0 <= c.pc
    &&& c.vram.len() == 2048
    &&& forall|k: int| 0 <= k < 2048 ==> c.vram[k] <= 1
}

/// The view with register `x` set to `val`.
pub open spec fn with_v(c: CpuView, x: int, val: u8) -> CpuView {
    CpuView { v: c.v.update(x, val), ..c }
}

/// The view with the program counter moved to `pc`.
pub open spec fn with_pc(c: CpuView, pc: int) -> CpuView {
    CpuView { pc, ..c }
}

/// Whether the key named by the low nibble of `k` is down in the host's
/// key bitmask.
pub open spec fn key_pressed(keys: u16, k: u8) -> bool {
    (keys >> ((k & 0xF) as u16)) & 1 == 1
}

/// The smallest key index at or above `k` whose bit is set, or 16 when no
/// bit at or above `k` is set.
pub open spec fn spec_first_key_from(keys: u16, k: int) -> int
    decreases 16 - k,
{
    if k < 0 || k >= 16 {
        16
    } else if (keys >> (k as u16)) & 1 == 1 {
        k
    } else {
        spec_first_key_from(keys, k + 1)
    }
}

/// Memory after storing registers `0..=x` at addresses `i..=i + x`.
pub open spec fn store_regs(mem: Seq<u8>, i: int, v: Seq<u8>, x: int) -> Seq<u8> {
    Seq::new(mem.len(), |p: int| if i <= p <= i + x { v[p - i] } else { mem[p] })
}

/// Registers after loading `0..=x` from addresses `i..=i + x`.
pub open spec fn load_regs(v: Seq<u8>, mem: Seq<u8>, i: int, x: int) -> Seq<u8> {
    Seq::new(v.len(), |p: int| if 0 <= p <= x { mem[i + p] } else { v[p] })
}

/// Effect of the arithmetic/logic group (top nibble 8) on the registers:
/// the register file after the instruction, or `None` for an undefined low
/// nibble. Writes happen in the instruction's own order: the flag register
/// first where the instruction has a flag, the destination second, each
/// read seeing earlier writes.
pub open spec fn spec_alu(op: u16, v: Seq<u8>) -> Option<Seq<u8>> {
    let x = spec_nibble(op, 1) as int;
    let y = spec_nibble(op, 2) as int;
    let low = op & 0xF;
    if low == 0x0 {
        Some(v.update(x, v[y]))
    } else if low == 0x1 {
        Some(v.update(x, v[x] | v[y]))
    } else if low == 0x2 {
        Some(v.update(x, v[x] & v[y]))
    } else if low == 0x3 {
        Some(v.update(x, v[x] ^ v[y]))
    } else if low == 0x4 {
        let sum = v[x] + v[y];
        let v1 = v.update(
            0xF,
            if sum > 0xFF {
                1u8
            } else {
                0u8
            },
        );
        Some(v1.update(x, (sum % 256) as u8))
    } else if low == 0x5 {
        let v1 = v.update(
            0xF,
            if v[x] > v[y] {
                1u8
            } else {
                0u8
            },
        );
        Some(v1.update(x, ((v1[x] - v1[y]) % 256) as u8))
    } else if low == 0x6 {
        let v1 = v.update(0xF, v[x] & 1);
        Some(v1.update(x, v1[x] >> 1))
    } else if low == 0x7 {
        let v1 = v.update(
            0xF,
            if v[x] < v[y] {
                1u8
            } else {
                0u8
            },
        );
        Some(v1.update(x, ((v1[y] - v1[x]) % 256) as u8))
    } else if low == 0xE {
        let v1 = v.update(0xF, v[x] >> 7);
        Some(v1.update(x, v1[x] << 1))
    } else {
        None
    }
}

/// Effect of the miscellaneous group (top nibble F) on a machine state
/// whose program counter has already advanced past the instruction.
/// Returns the state and the waiting-for-key signal, or the fault.
pub open spec fn spec_fxxx(op: u16, c: CpuView, keys: u16) -> Result<
    (CpuView, bool),
    Chip8Error,
> {
    let x = spec_nibble(op, 1) as int;
    let low = op & 0xFF;
    if low == 0x07 {
        Ok((with_v(c, x, c.delay.value), false))
    } else if low == 0x0A {
        if keys == 0 {
            Ok((with_pc(c, c.pc - 2), true))
        } else {
            Ok((with_v(c, x, spec_first_key_from(keys, 0) as u8), false))
        }
    } else if low == 0x15 {
        Ok((CpuView { delay: TimerView { value: c.v[x], active: c.delay.active }, ..c }, false))
    } else if low == 0x18 {
        Ok((CpuView { sound: TimerView { value: c.v[x], active: c.sound.active }, ..c }, false))
    } else if low == 0x1E {
        Ok((CpuView { i: c.v[x] as int, ..c }, false))
    } else if low == 0x29 {
        Ok((CpuView { i: c.v[x] * 5, ..c }, false))
    } else if low == 0x33 {
        if c.i + 2 >= 4096 {
            Err(Chip8Error::MemoryOutOfBounds { address: (c.i + 2) as usize })
        } else {
            Ok(
                (
                    CpuView {
                        mem: c.mem.update(c.i, (c.v[x] / 100) as u8).update(
                            c.i + 1,
                            ((c.v[x] / 10) % 10) as u8,
                        ).update(c.i + 2, (c.v[x] % 10) as u8),
                        ..c
                    },
                    false,
                ),
            )
        }
    } else if low == 0x55 {
        if c.i + x >= 4096 {
            Err(Chip8Error::MemoryOutOfBounds { address: (c.i + x) as usize })
        } else {
            Ok((CpuView { mem: store_regs(c.mem, c.i, c.v, x), ..c }, false))
        }
    } else if low == 0x65 {
        if c.i + x >= 4096 {
            Err(Chip8Error::MemoryOutOfBounds { address: (c.i + x) as usize })
        } else {
            Ok((CpuView { v: load_regs(c.v, c.mem, c.i, x), ..c }, false))
        }
    } else {
        Err(Chip8Error::UnsupportedOpcode { opcode: op, pc: (c.pc - 2) as usize })
    }
}

/// Effect of one decoded instruction on a machine state whose program
/// counter has already advanced past it. `rnd` is the random byte the
/// instruction with top nibble C consumes; `keys` is the host's bitmask of
/// the sixteen keys currently down. Returns the next state and the
/// waiting-for-key signal, or the fault (which leaves the machine as it
/// was).
pub open spec fn spec_execute(op: u16, c: CpuView, rnd: u8, keys: u16) -> Result<
    (CpuView, bool),
    Chip8Error,
> {
    let x = spec_nibble(op, 1) as int;
    let y = spec_nibble(op, 2) as int;
    let kk = spec_lowest_byte(op);
    let a = spec_address(op) as int;
    let top = op & 0xF000;
    if top == 0x0000 {
        if op == 0x00E0 {
            Ok((CpuView { vram: Seq::new(2048nat, |p: int| 0u8), dirty: true, ..c }, false))
        } else if op == 0x00EE {
            if c.sp == 0 {
                Err(Chip8Error::StackUnderflow { pc: (c.pc - 2) as usize })
            } else {
                Ok((CpuView { pc: c.stack[c.sp - 1] as int, sp: c.sp - 1, ..c }, false))
            }
        } else {
            Err(Chip8Error::UnsupportedOpcode { opcode: op, pc: (c.pc - 2) as usize })
        }
    } else if top == 0x1000 {
        Ok((with_pc(c, a), false))
    } else if top == 0x2000 {
        if c.sp >= 16 {
            Err(Chip8Error::StackOverflow { pc: (c.pc - 2) as usize })
        } else {
            Ok(
                (
                    CpuView {
                        stack: c.stack.update(c.sp, c.pc as u16),
                        sp: c.sp + 1,
                        pc: a,
                        ..c
                    },
                    false,
                ),
            )
        }
    } else if top == 0x3000 {
        Ok(
            (
                if c.v[x] == kk {
                    with_pc(c, c.pc + 2)
                } else {
                    c
                },
                false,
            ),
        )
    } else if top == 0x4000 {
        Ok(
            (
                if c.v[x] != kk {
                    with_pc(c, c.pc + 2)
                } else {
                    c
                },
                false,
            ),
        )
    } else if top == 0x5000 {
        if op & 0xF == 0 {
            Ok(
                (
                    if c.v[x] == c.v[y] {
                        with_pc(c, c.pc + 2)
                    } else {
                        c
                    },
                    false,
                ),
            )
        } else {
            Err(Chip8Error::UnsupportedOpcode { opcode: op, pc: (c.pc - 2) as usize })
        }
    } else if top == 0x6000 {
        Ok((with_v(c, x, kk), false))
    } else if top == 0x7000 {
        Ok((with_v(c, x, ((c.v[x] + kk) % 256) as u8), false))
    } else if top == 0x8000 {
        match spec_alu(op, c.v) {
            Some(v1) => Ok((CpuView { v: v1, ..c }, false)),
            None => Err(Chip8Error::UnsupportedOpcode { opcode: op, pc: (c.pc - 2) as usize }),
        }
    } else if top == 0x9000 {
        if op & 0xF == 0 {
            Ok(
                (
                    if c.v[x] != c.v[y] {
                        with_pc(c, c.pc + 2)
                    } else {
                        c
                    },
                    false,
                ),
            )
        } else {
            Err(Chip8Error::UnsupportedOpcode { opcode: op, pc: (c.pc - 2) as usize })
        }
    } else if top == 0xA000 {
        Ok((CpuView { i: a, ..c }, false))
    } else if top == 0xB000 {
        Ok((with_pc(c, c.v[0] + a), false))
    } else if top == 0xC000 {
        Ok((with_v(c, x, kk & rnd), false))
    } else if top == 0xD000 {
        let n = spec_nibble(op, 3) as int;
        if c.i + n > 4096 {
            Err(Chip8Error::MemoryOutOfBounds { address: (c.i + n - 1) as usize })
        } else {
            let col = draw_collision(c.vram, c.mem, c.i, c.v[x] as int, c.v[y] as int, n);
            Ok(
                (
                    CpuView {
                        vram: draw_vram(c.vram, c.mem, c.i, c.v[x] as int, c.v[y] as int, n),
                        dirty: true,
                        v: c.v.update(
                            0xF,
                            if col {
                                1u8
                            } else {
                                0u8
                            },
                        ),
                        ..c
                    },
                    false,
                ),
            )
        }
    } else if top == 0xE000 {
        if op & 0xFF == 0x9E {
            Ok(
                (
                    if key_pressed(keys, c.v[x]) {
                        with_pc(c, c.pc + 2)
                    } else {
                        c
                    },
                    false,
                ),
            )
        } else if op & 0xFF == 0xA1 {
            Ok(
                (
                    if !key_pressed(keys, c.v[x]) {
                        with_pc(c, c.pc + 2)
                    } else {
                        c
                    },
                    false,
                ),
            )
        } else {
            Err(Chip8Error::UnsupportedOpcode { opcode: op, pc: (c.pc - 2) as usize })
        }
    } else {
        spec_fxxx(op, c, keys)
    }
}

/// What one whole cycle does: the fetched word, whether it faulted, the
/// machine afterwards (unchanged on a fault), and the beep and
/// waiting-for-key signals handed to the host.
pub struct StepResult {
    pub post: CpuView,
    pub err: Option<Chip8Error>,
    pub beep: bool,
    pub waiting_for_key: bool,
}

/// One full cycle from state `c`: fetch the two bytes at the program
/// counter (faulting if the fetch would leave memory), advance past them,
/// execute the instruction, then tick both timers. A fault leaves the
/// machine exactly as it was.
pub open spec fn spec_step(c: CpuView, rnd: u8, keys: u16) -> StepResult {
    if c.pc + 1 >= 4096 {
        StepResult {
            post: c,
            err: Some(Chip8Error::MemoryOutOfBounds { address: c.pc as usize }),
            beep: false,
            waiting_for_key: false,
        }
    } else {
        let op = ((c.mem[c.pc] as u16) << 8) | (c.mem[c.pc + 1] as u16);
        match spec_execute(op, with_pc(c, c.pc + 2), rnd, keys) {
            Err(e) => StepResult { post: c, err: Some(e), beep: false, waiting_for_key: false },
            Ok((c2, waiting)) => {
                let (delay, _) = spec_timer_tick(c2.delay);
                let (sound, beep) = spec_timer_tick(c2.sound);
                StepResult {
                    post: CpuView { delay, sound, ..c2 },
                    err: None,
                    beep,
                    waiting_for_key: waiting,
                }
            },
        }
    }
}

/// Whether the outcome `r` and the state change from `pre` to `post` are
/// exactly what [`spec_step`] prescribes for the random byte `rnd` and key
/// bitmask `keys`.
pub open spec fn step_matches(
    pre: CpuView,
    post: CpuView,
    rnd: u8,
    keys: u16,
    r: Result<TickOutcome, Chip8Error>,
) -> bool {
    let sr = spec_step(pre, rnd, keys);
    match r {
        Ok(o) => sr.err is None && post == sr.post && o.beep == sr.beep && o.waiting_for_key
            == sr.waiting_for_key,
        Err(e) => sr.err == Some(e) && post == pre,
    }
}

/// The machine: created once per program run, mutated only by the
/// per-cycle fetch-decode-execute step and the timer ticks.
pub struct Cpu {
    memory: Vec<u8>,
    v: Vec<u8>,
    i: usize,
    pc: usize,
    sp: usize,
    stack: Vec<u16>,
    timer: Timer,
    sound_timer: Timer,
    /// The logical framebuffer; the host renders it when `needs_draw` is
    /// set and then calls `update` to mark the frame consumed.
    pub display: Display,
}

impl Cpu {
    pub closed spec fn view(&self) -> CpuView {
        CpuView {
            mem: self.memory@,
            v: self.v@,
            i: self.i as int,
            pc: self.pc as int,
            sp: self.sp as int,
            stack: self.stack@,
            delay: self.timer@,
            sound: self.sound_timer@,
            vram: self.display.vram@,
            dirty: self.display.needs_draw,
        }
    }

    pub closed spec fn wf(&self) -> bool {
        &&& view_inv(self@)
        &&& self.display.wf()
        &&& self.pc <= 0x10000
    }

    /// `wf` constrains the view by exactly the structural bounds.
    pub proof fn lemma_wf_view(&self)
        requires
            self.wf(),
        ensures
            view_inv(self@),
    {
    }

    /// A fresh machine: glyph sprites in the reserved low memory, the
    /// program image at [`START_OF_PROGRAM`], everything else zeroed,
    /// execution about to start at the program's first byte.
    pub fn new(cartridge: &Cartridge) -> (cpu: Cpu)
        requires
            cartridge.wf(),
        ensures
            cpu.wf(),
            cpu@.pc == 0x200,
            cpu@.sp == 0,
            cpu@.i == 0,
            cpu@.v == Seq::new(16nat, |k: int| 0u8),
            cpu@.stack == Seq::new(16nat, |k: int| 0u16),
            forall|k: int| 0 <= k < 80 ==> cpu@.mem[k] == spec_glyphs()[k],
            forall|k: int| 80 <= k < 0x200 ==> cpu@.mem[k] == 0u8,
            forall|k: int|
                0 <= k < cartridge.size ==> cpu@.mem[0x200 + k] == cartridge.buffer@[k],
            forall|k: int| 0x200 + cartridge.size <= k < 4096 ==> cpu@.mem[k] == 0u8,
            cpu@.delay == (TimerView { value: 0u8, active: false }),
            cpu@.sound == (TimerView { value: 0u8, active: false }),
            cpu@.vram == Seq::new(2048nat, |p: int| 0u8),
            !cpu@.dirty,
    {
        let mut memory: Vec<u8> = Vec::new();
        let mut k: usize = 0;
        while k < 4096
            invariant
                k <= 4096,
                memory@.len() == k,
                forall|j: int| 0 <= j < k ==> memory@[j] == 0u8,
            decreases 4096 - k,
        {
            memory.push(0);
            k = k + 1;
        }
        let mut v: Vec<u8> = Vec::new();
        let mut k: usize = 0;
        while k < 16
            invariant
                k <= 16,
                v@.len() == k,
                forall|j: int| 0 <= j < k ==> v@[j] == 0u8,
            decreases 16 - k,
        {
            v.push(0);
            k = k + 1;
        }
        let mut stack: Vec<u16> = Vec::new();
        let mut k: usize = 0;
        while k < 16
            invariant
                k <= 16,
                stack@.len() == k,
                forall|j: int| 0 <= j < k ==> stack@[j] == 0u16,
            decreases 16 - k,
        {
            stack.push(0);
            k = k + 1;
        }
        let glyphs = letters_sprites();
        let mut k: usize = 0;
        while k < 80
            invariant
                k <= 80,
                memory@.len() == 4096,
                glyphs@ == spec_glyphs(),
                glyphs@.len() == 80,
                forall|j: int| 0 <= j < k ==> memory@[j] == spec_glyphs()[j],
                forall|j: int| k <= j < 4096 ==> memory@[j] == 0u8,
            decreases 80 - k,
        {
            memory[k] = glyphs[k];
            k = k + 1;
        }
        let mut k: usize = 0;
        while k < cartridge.size
            invariant
                cartridge.wf(),
                k <= cartridge.size,
                memory@.len() == 4096,
                forall|j: int| 0 <= j < 80 ==> memory@[j] == spec_glyphs()[j],
                forall|j: int| 80 <= j < 0x200 ==> memory@[j] == 0u8,
                forall|j: int| 0 <= j < k ==> memory@[0x200 + j] == cartridge.buffer@[j],
                forall|j: int| 0x200 + k <= j < 4096 ==> memory@[j] == 0u8,
            decreases cartridge.size - k,
        {
            memory[START_OF_PROGRAM + k] = cartridge.buffer[k];
            k = k + 1;
        }
        let cpu = Cpu {
            memory,
            v,
            i: 0,
            pc: START_OF_PROGRAM,
            sp: 0,
            stack,
            sound_timer: Timer::new(),
            timer: Timer::new_no_callback(),
            display: Display::new(),
        };
        proof {
            assert(cpu@.v =~= Seq::new(16nat, |k: int| 0u8));
            assert(cpu@.stack =~= Seq::new(16nat, |k: int| 0u16));
        }
        cpu
    }

    /// The value of general-purpose register `x`.
    pub fn register(&self, x: usize) -> (r: u8)
        requires
            self.wf(),
            x < 16,
        ensures
            r == self@.v[x as int],
    {
        self.v[x]
    }

    /// The current program counter.
    pub fn program_counter(&self) -> (r: usize)
        ensures
            r == self@.pc,
    {
        self.pc
    }

    /// The number of call-stack slots in use.
    pub fn stack_pointer(&self) -> (r: usize)
        ensures
            r == self@.sp,
    {
        self.sp
    }

    /// The 16-bit address register.
    pub fn address_register(&self) -> (r: usize)
        ensures
            r == self@.i,
    {
        self.i
    }

    /// The memory byte at `addr`.
    pub fn read_memory(&self, addr: usize) -> (r: u8)
        requires
            self.wf(),
            addr < 4096,
        ensures
            r == self@.mem[addr as int],
    {
        self.memory[addr]
    }

    /// The delay timer's current value.
    pub fn delay_timer_value(&self) -> (r: u8)
        ensures
            r == self@.delay.value,
    {
        self.timer.value
    }

    /// The sound timer's current value.
    pub fn sound_timer_value(&self) -> (r: u8)
        ensures
            r == self@.sound.value,
    {
        self.sound_timer.value
    }

    /// One cycle with an explicit random byte: fetch, advance, execute,
    /// then tick both timers, exactly as [`spec_step`] prescribes. On a
    /// fault the machine is left untouched and the fault is returned.
    pub fn step(&mut self, rnd: u8, keys: u16) -> (r: Result<TickOutcome, Chip8Error>)
        requires
            old(self).wf(),
        ensures
            final(self).wf(),
            step_matches(old(self)@, final(self)@, rnd, keys, r),
    {
        if self.pc >= 4095 {
            return Err(Chip8Error::MemoryOutOfBounds { address: self.pc });
        }
        let hi = self.memory[self.pc];
        let lo = self.memory[self.pc + 1];
        let opcode = Opcode::new(((hi as u16) << 8) | (lo as u16));
        let pc0 = self.pc;
        self.pc = self.pc + 2;
        match opcode.execute(self, rnd, keys) {
            Err(e) => {
                self.pc = pc0;
                Err(e)
            },
            Ok(waiting) => {
                let _delay_fired = self.timer.tick();
                let beep = self.sound_timer.tick();
                Ok(TickOutcome { beep, waiting_for_key: waiting })
            },
        }
    }

    /// One cycle at the host's cadence: draws the random byte the
    /// randomized instruction may consume, then runs [`Cpu::step`] with it.
    pub fn tick(&mut self, keys: u16) -> (r: Result<TickOutcome, Chip8Error>)
        requires
            old(self).wf(),
        ensures
            final(self).wf(),
            exists|rnd: u8| step_matches(old(self)@, final(self)@, rnd, keys, r),
    {
        let rnd = random_byte();
        let r = self.step(rnd, keys);
        proof {
            assert(step_matches(old(self)@, self@, rnd, keys, r));
        }
        r
    }
}

/// Relies on rand::random: a byte drawn uniformly from the thread-local
/// generator. Nothing is assumed about which byte comes back.
#[verifier::external_body]
fn random_byte() -> u8 {
    rand::random::<u8>()
}

impl Opcode {
    /// Apply this instruction to a machine whose program counter has
    /// already advanced past it; returns the waiting-for-key signal, or the
    /// fault, leaving the machine untouched on a fault. The effect is
    /// exactly [`spec_execute`].
    pub fn execute(&self, cpu: &mut Cpu, rnd: u8, keys: u16) -> (r: Result<bool, Chip8Error>)
        requires
            old(cpu).wf(),
            2 <= old(cpu)@.pc <= 4096,
        ensures
            final(cpu).wf(),
            r matches Ok(waiting) ==> spec_execute(self@, old(cpu)@, rnd, keys) == Ok::<
                (CpuView, bool),
                Chip8Error,
            >((final(cpu)@, waiting)),
            r matches Err(e) ==> spec_execute(self@, old(cpu)@, rnd, keys) == Err::<
                (CpuView, bool),
                Chip8Error,
            >(e) && final(cpu)@ == old(cpu)@,
    {
        let op = self.opcode;
        let top = op & 0xF000;
        proof {
            assert(top == 0x0000 || top == 0x1000 || top == 0x2000 || top == 0x3000 || top
                == 0x4000 || top == 0x5000 || top == 0x6000 || top == 0x7000 || top == 0x8000
                || top == 0x9000 || top == 0xA000 || top == 0xB000 || top == 0xC000 || top
                == 0xD000 || top == 0xE000 || top == 0xF000) by (bit_vector)
                requires
                    top == op & 0xF000,
            ;
        }
        if top == 0x0000 {
            self.run_0x0xxx_opcode(cpu)
        } else if top == 0x1000 {
            cpu.pc = self.get_address();
            Ok(false)
        } else if top == 0x2000 {
            if cpu.sp >= 16 {
                Err(Chip8Error::StackOverflow { pc: cpu.pc - 2 })
            } else {
                cpu.stack[cpu.sp] = cpu.pc as u16;
                cpu.sp = cpu.sp + 1;
                cpu.pc = self.get_address();
                Ok(false)
            }
        } else if top == 0x3000 {
            let x = self.get_nibble(1);
            if cpu.v[x] == self.get_lowest_byte() {
                cpu.pc = cpu.pc + 2;
            }
            Ok(false)
        } else if top == 0x4000 {
            let x = self.get_nibble(1);
            if cpu.v[x] != self.get_lowest_byte() {
                cpu.pc = cpu.pc + 2;
            }
            Ok(false)
        } else if top == 0x5000 {
            if self.opcode & 0xF != 0 {
                return Err(
                    Chip8Error::UnsupportedOpcode { opcode: self.opcode, pc: cpu.pc - 2 },
                );
            }
            let (x, y) = self.get_xy_register_numbers();
            if cpu.v[x] == cpu.v[y] {
                cpu.pc = cpu.pc + 2;
            }
            Ok(false)
        } else if top == 0x6000 {
            let x = self.get_nibble(1);
            cpu.v[x] = self.get_lowest_byte();
            Ok(false)
        } else if top == 0x7000 {
            let x = self.get_nibble(1);
            let res = (cpu.v[x] as u16 + self.get_lowest_byte() as u16) % 256;
            cpu.v[x] = res as u8;
            Ok(false)
        } else if top == 0x8000 {
            match self.run_0x8xxx_opcode(cpu) {
                Ok(_) => Ok(false),
                Err(e) => Err(e),
            }
        } else if top == 0x9000 {
            if self.opcode & 0xF != 0 {
                return Err(
                    Chip8Error::UnsupportedOpcode { opcode: self.opcode, pc: cpu.pc - 2 },
                );
            }
            let (x, y) = self.get_xy_register_numbers();
            if cpu.v[x] != cpu.v[y] {
                cpu.pc = cpu.pc + 2;
            }
            Ok(false)
        } else if top == 0xA000 {
            cpu.i = self.get_address();
            Ok(false)
        } else if top == 0xB000 {
            cpu.pc = cpu.v[0] as usize + self.get_address();
            Ok(false)
        } else if top == 0xC000 {
            let x = self.get_nibble(1);
            cpu.v[x] = self.get_lowest_byte() & rnd;
            Ok(false)
        } else if top == 0xD000 {
            let (x, y) = self.get_xy_register_numbers();
            let n = self.get_nibble(3);
            if cpu.i + n > 4096 {
                Err(Chip8Error::MemoryOutOfBounds { address: cpu.i + n - 1 })
            } else {
                let vf = cpu.display.draw_sprite(&cpu.memory, cpu.i, cpu.v[x], cpu.v[y], n);
                cpu.v[15] = vf;
                Ok(false)
            }
        } else if top == 0xE000 {
            self.run_0xexxx_opcode(cpu, keys)
        } else {
            self.run_0xfxxx_opcode(cpu, keys)
        }
    }

    /// The clear-screen and return instructions (top nibble 0).
    fn run_0x0xxx_opcode(&self, cpu: &mut Cpu) -> (r: Result<bool, Chip8Error>)
        requires
            old(cpu).wf(),
            2 <= old(cpu)@.pc <= 4096,
            self@ & 0xF000 == 0x0000,
        ensures
            final(cpu).wf(),
            r matches Ok(waiting) ==> spec_execute(self@, old(cpu)@, 0, 0) == Ok::<
                (CpuView, bool),
                Chip8Error,
            >((final(cpu)@, waiting)),
            r matches Err(e) ==> spec_execute(self@, old(cpu)@, 0, 0) == Err::<
                (CpuView, bool),
                Chip8Error,
            >(e) && final(cpu)@ == old(cpu)@,
    {
        if self.opcode == 0x00E0 {
            cpu.display.clear();
            proof {
                assert(forall|k: int| 0 <= k < 2048 ==> cpu@.vram[k] == 0u8);
            }
            Ok(false)
        } else if self.opcode == 0x00EE {
            if cpu.sp == 0 {
                Err(Chip8Error::StackUnderflow { pc: cpu.pc - 2 })
            } else {
                cpu.pc = cpu.stack[cpu.sp - 1] as usize;
                cpu.sp = cpu.sp - 1;
                Ok(false)
            }
        } else {
            Err(Chip8Error::UnsupportedOpcode { opcode: self.opcode, pc: cpu.pc - 2 })
        }
    }

    /// The register arithmetic/logic group (top nibble 8); touches the
    /// register file only, exactly as [`spec_alu`] says.
    fn run_0x8xxx_opcode(&self, cpu: &mut Cpu) -> (r: Result<(), Chip8Error>)
        requires
            old(cpu).wf(),
            2 <= old(cpu)@.pc <= 4096,
            self@ & 0xF000 == 0x8000,
        ensures
            final(cpu).wf(),
            r matches Ok(_) ==> spec_alu(self@, old(cpu)@.v) == Some(final(cpu)@.v)
                && final(cpu)@ == (CpuView { v: final(cpu)@.v, ..old(cpu)@ }),
            r matches Err(e) ==> spec_alu(self@, old(cpu)@.v) is None && e
                == (Chip8Error::UnsupportedOpcode {
                opcode: self@,
                pc: (old(cpu)@.pc - 2) as usize,
            }) && final(cpu)@ == old(cpu)@,
    {
        let (x, y) = self.get_xy_register_numbers();
        let low = self.opcode & 0xF;
        if low == 0x0 {
            cpu.v[x] = cpu.v[y];
            Ok(())
        } else if low == 0x1 {
            cpu.v[x] = cpu.v[x] | cpu.v[y];
            Ok(())
        } else if low == 0x2 {
            cpu.v[x] = cpu.v[x] & cpu.v[y];
            Ok(())
        } else if low == 0x3 {
            cpu.v[x] = cpu.v[x] ^ cpu.v[y];
            Ok(())
        } else if low == 0x4 {
            let sum = cpu.v[x] as u16 + cpu.v[y] as u16;
            cpu.v[15] = if sum > 0xFF {
                1
            } else {
                0
            };
            cpu.v[x] = (sum % 256) as u8;
            Ok(())
        } else if low == 0x5 {
            cpu.v[15] = if cpu.v[x] > cpu.v[y] {
                1
            } else {
                0
            };
            let a = cpu.v[x];
            let b = cpu.v[y];
            proof {
                lemma_mod_add_multiples_vanish(a - b, 256);
            }
            cpu.v[x] = (((a as u16 + 0x100) - b as u16) % 0x100) as u8;
            Ok(())
        } else if low == 0x6 {
            cpu.v[15] = cpu.v[x] & 1;
            cpu.v[x] = cpu.v[x] >> 1u8;
            Ok(())
        } else if low == 0x7 {
            cpu.v[15] = if cpu.v[x] < cpu.v[y] {
                1
            } else {
                0
            };
            let a = cpu.v[y];
            let b = cpu.v[x];
            proof {
                lemma_mod_add_multiples_vanish(a - b, 256);
            }
            cpu.v[x] = (((a as u16 + 0x100) - b as u16) % 0x100) as u8;
            Ok(())
        } else if low == 0xE {
            cpu.v[15] = cpu.v[x] >> 7u8;
            cpu.v[x] = cpu.v[x] << 1u8;
            Ok(())
        } else {
            Err(Chip8Error::UnsupportedOpcode { opcode: self.opcode, pc: cpu.pc - 2 })
        }
    }

    /// The key-state skip instructions (top nibble E), querying the host's
    /// key bitmask.
    fn run_0xexxx_opcode(&self, cpu: &mut Cpu, keys: u16) -> (r: Result<bool, Chip8Error>)
        requires
            old(cpu).wf(),
            2 <= old(cpu)@.pc <= 4096,
            self@ & 0xF000 == 0xE000,
        ensures
            final(cpu).wf(),
            r matches Ok(waiting) ==> spec_execute(self@, old(cpu)@, 0, keys) == Ok::<
                (CpuView, bool),
                Chip8Error,
            >((final(cpu)@, waiting)),
            r matches Err(e) ==> spec_execute(self@, old(cpu)@, 0, keys) == Err::<
                (CpuView, bool),
                Chip8Error,
            >(e) && final(cpu)@ == old(cpu)@,
    {
        let low = self.opcode & 0xFF;
        if low == 0x9E {
            let x = self.get_nibble(1);
            let vxv = cpu.v[x];
            let k = vxv & 0xF;
            proof {
                assert(vxv & 0xF < 16) by (bit_vector);
            }
            if (keys >> (k as u16)) & 1 == 1 {
                cpu.pc = cpu.pc + 2;
            }
            Ok(false)
        } else if low == 0xA1 {
            let x = self.get_nibble(1);
            let vxv = cpu.v[x];
            let k = vxv & 0xF;
            proof {
                assert(vxv & 0xF < 16) by (bit_vector);
            }
            if (keys >> (k as u16)) & 1 != 1 {
                cpu.pc = cpu.pc + 2;
            }
            Ok(false)
        } else {
            Err(Chip8Error::UnsupportedOpcode { opcode: self.opcode, pc: cpu.pc - 2 })
        }
    }

    /// The miscellaneous group (top nibble F): timers, address register,
    /// binary-coded decimal, bulk register transfer and the key wait.
    fn run_0xfxxx_opcode(&self, cpu: &mut Cpu, keys: u16) -> (r: Result<bool, Chip8Error>)
        requires
            old(cpu).wf(),
            2 <= old(cpu)@.pc <= 4096,
            self@ & 0xF000 == 0xF000,
        ensures
            final(cpu).wf(),
            r matches Ok(waiting) ==> spec_fxxx(self@, old(cpu)@, keys) == Ok::<
                (CpuView, bool),
                Chip8Error,
            >((final(cpu)@, waiting)),
            r matches Err(e) ==> spec_fxxx(self@, old(cpu)@, keys) == Err::<
                (CpuView, bool),
                Chip8Error,
            >(e) && final(cpu)@ == old(cpu)@,
    {
        let x = self.get_nibble(1);
        let low = self.opcode & 0xFF;
        if low == 0x07 {
            cpu.v[x] = cpu.timer.value;
            Ok(false)
        } else if low == 0x0A {
            if keys == 0 {
                cpu.pc = cpu.pc - 2;
                Ok(true)
            } else {
                let mut k: u16 = 0;
                while k < 16 && (keys >> k) & 1 != 1
                    invariant
                        k <= 16,
                        spec_first_key_from(keys, 0) == spec_first_key_from(keys, k as int),
                    decreases 16 - k,
                {
                    k = k + 1;
                }
                cpu.v[x] = k as u8;
                Ok(false)
            }
        } else if low == 0x15 {
            cpu.timer.value = cpu.v[x];
            Ok(false)
        } else if low == 0x18 {
            cpu.sound_timer.value = cpu.v[x];
            Ok(false)
        } else if low == 0x1E {
            cpu.i = cpu.v[x] as usize;
            Ok(false)
        } else if low == 0x29 {
            cpu.i = (cpu.v[x] as usize) * 5;
            Ok(false)
        } else if low == 0x33 {
            if cpu.i + 2 >= 4096 {
                Err(Chip8Error::MemoryOutOfBounds { address: cpu.i + 2 })
            } else {
                let val = cpu.v[x];
                cpu.memory[cpu.i] = val / 100;
                cpu.memory[cpu.i + 1] = (val / 10) % 10;
                cpu.memory[cpu.i + 2] = val % 10;
                Ok(false)
            }
        } else if low == 0x55 {
            if cpu.i + x >= 4096 {
                Err(Chip8Error::MemoryOutOfBounds { address: cpu.i + x })
            } else {
                let ghost c0 = cpu@;
                let mut reg: usize = 0;
                while reg <= x
                    invariant
                        cpu.wf(),
                        x < 16,
                        c0.i + x < 4096,
                        reg <= x + 1,
                        c0.mem.len() == 4096,
                        c0.v.len() == 16,
                        cpu@.i == c0.i,
                        cpu@.v == c0.v,
                        cpu@.pc == c0.pc,
                        cpu@.sp == c0.sp,
                        cpu@.stack == c0.stack,
                        cpu@.delay == c0.delay,
                        cpu@.sound == c0.sound,
                        cpu@.vram == c0.vram,
                        cpu@.dirty == c0.dirty,
                        cpu@.mem.len() == 4096,
                        forall|p: int|
                            c0.i <= p < c0.i + reg ==> cpu@.mem[p] == c0.v[p - c0.i],
                        forall|p: int|
                            0 <= p < 4096 && !(c0.i <= p < c0.i + reg) ==> cpu@.mem[p]
                                == c0.mem[p],
                    decreases x + 1 - reg,
                {
                    cpu.memory[cpu.i + reg] = cpu.v[reg];
                    reg = reg + 1;
                }
                proof {
                    assert(cpu@.mem =~= store_regs(c0.mem, c0.i, c0.v, x as int));
                }
                Ok(false)
            }
        } else if low == 0x65 {
            if cpu.i + x >= 4096 {
                Err(Chip8Error::MemoryOutOfBounds { address: cpu.i + x })
            } else {
                let ghost c0 = cpu@;
                let mut reg: usize = 0;
                while reg <= x
                    invariant
                        cpu.wf(),
                        x < 16,
                        c0.i + x < 4096,
                        reg <= x + 1,
                        c0.mem.len() == 4096,
                        c0.v.len() == 16,
                        cpu@.i == c0.i,
                        cpu@.mem == c0.mem,
                        cpu@.pc == c0.pc,
                        cpu@.sp == c0.sp,
                        cpu@.stack == c0.stack,
                        cpu@.delay == c0.delay,
                        cpu@.sound == c0.sound,
                        cpu@.vram == c0.vram,
                        cpu@.dirty == c0.dirty,
                        cpu@.v.len() == 16,
                        forall|p: int| 0 <= p < reg ==> cpu@.v[p] == c0.mem[c0.i + p],
                        forall|p: int| reg <= p < 16 ==> cpu@.v[p] == c0.v[p],
                    decreases x + 1 - reg,
                {
                    cpu.v[reg] = cpu.memory[cpu.i + reg];
                    reg = reg + 1;
                }
                proof {
                    assert(cpu@.v =~= load_regs(c0.v, c0.mem, c0.i, x as int));
                }
                Ok(false)
            }
        } else {
            Err(Chip8Error::UnsupportedOpcode { opcode: self.opcode, pc: cpu.pc - 2 })
        }
    }
}

} // verus!
