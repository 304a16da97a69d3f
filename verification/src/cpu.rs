//! The decode-execute engine.
//!
//! Each `step` is one atomic fetch-decode-execute transition: it reads the
//! two-byte big-endian instruction word at the program counter, extracts the
//! operand fields, and mutates the CPU and bus state according to the opcode
//! semantics given by [`step_spec`]. Faults (out-of-range memory access,
//! unknown opcode, return on an empty call stack) are reported as typed
//! errors with the machine state left untouched, never as a panic.
//!
//! Two opcode variants that differ between historical interpreters are fixed
//! here: the shift operation shifts `Vx` itself (it does not read `Vy`), and
//! subtract-with-borrow sets `VF = 1` only when `Vx > Vy` strictly, so equal
//! operands count as a borrow.
use crate::bus::{Bus, BusView};
use crate::display::{blit_collision, blit_row};
use crate::Chip8Error;
use vstd::prelude::*;

verus! {

/// Address at which ROM images are loaded and execution starts.
pub const PROGRAM_START: u16 = 0x200;

/// The CPU state as the contracts see it: the sixteen 8-bit registers, the
/// program counter, the index register and the call stack.
pub ghost struct CpuView {
    pub vx: Seq<u8>,
    pub pc: u16,
    pub i: u16,
    pub stack: Seq<u16>,
}

/// What one step does: the CPU and bus afterwards, and the fault if the step
/// stopped on one (in which case both states are unchanged).
pub ghost struct StepOutcome {
    pub cpu: CpuView,
    pub bus: BusView,
    pub err: Option<Chip8Error>,
}

/// The result value a stepping function returns for a given fault.
pub open spec fn result_of(err: Option<Chip8Error>) -> Result<(), Chip8Error> {
    match err {
        None => Ok(()),
        Some(e) => Err(e),
    }
}

/// The big-endian instruction word formed by two consecutive memory bytes.
pub open spec fn instr_word(lo: u8, hi: u8) -> u16 {
    (lo * 256 + hi) as u16
}

/// Top 4 bits: the instruction family selector.
pub open spec fn op_of(w: u16) -> u16 {
    w / 0x1000
}

/// Low 12 bits: the address operand.
pub open spec fn nnn_of(w: u16) -> u16 {
    w % 0x1000
}

/// Low 8 bits: the immediate byte operand.
pub open spec fn kk_of(w: u16) -> u8 {
    (w % 0x100) as u8
}

/// Low 4 bits: the nibble operand (sprite height).
pub open spec fn n_of(w: u16) -> u8 {
    (w % 0x10) as u8
}

/// Bits 8..12: the first register operand.
pub open spec fn x_of(w: u16) -> u8 {
    ((w / 0x100) % 0x10) as u8
}

/// Bits 4..8: the second register operand.
pub open spec fn y_of(w: u16) -> u8 {
    ((w / 0x10) % 0x10) as u8
}

/// 8-bit addition that wraps around at 256.
pub open spec fn wrap_add8(a: u8, b: u8) -> u8 {
    if a + b > 255 {
        (a + b - 256) as u8
    } else {
        (a + b) as u8
    }
}

/// 8-bit subtraction that wraps around below 0.
pub open spec fn wrap_sub8(a: u8, b: u8) -> u8 {
    if a >= b {
        (a - b) as u8
    } else {
        (a - b + 256) as u8
    }
}

/// 16-bit addition that wraps around at 65536.
pub open spec fn wrap_add16(a: u16, b: u16) -> u16 {
    if a + b > 0xFFFF {
        (a + b - 0x10000) as u16
    } else {
        (a + b) as u16
    }
}

/// The first out-of-range address touched by an ascending access that starts
/// at `base` and crosses the end of memory.
pub open spec fn first_oob(base: u16) -> u16 {
    if base >= 4096 {
        base
    } else {
        4096u16
    }
}

/// The screen after the first `k` rows of an `n`-row sprite are blitted:
/// row `r` is the memory byte at `I + r`, drawn at `(x, y + r)` with the
/// row coordinate wrapping as an 8-bit value.
pub open spec fn draw_rows(screen: Seq<u8>, ram: Seq<u8>, i0: u16, x: u8, y: u8, k: nat) -> Seq<u8>
    decreases k,
{
    if k == 0 {
        screen
    } else {
        blit_row(
            draw_rows(screen, ram, i0, x, y, (k - 1) as nat),
            ram[i0 + k - 1],
            x,
            wrap_add8(y, (k - 1) as u8),
        )
    }
}

/// Whether any of the first `k` rows of the sprite turned a pixel from 1 to
/// 0, each row judged against the screen as it stood when that row was drawn.
pub open spec fn draw_collision(
    screen: Seq<u8>,
    ram: Seq<u8>,
    i0: u16,
    x: u8,
    y: u8,
    k: nat,
) -> bool
    decreases k,
{
    if k == 0 {
        false
    } else {
        ||| draw_collision(screen, ram, i0, x, y, (k - 1) as nat)
        ||| blit_collision(
            draw_rows(screen, ram, i0, x, y, (k - 1) as nat),
            ram[i0 + k - 1],
            x,
            wrap_add8(y, (k - 1) as u8),
        )
    }
}

/// `ram` with the bytes from `base` on replaced by `vals`.
pub open spec fn write_seq(ram: Seq<u8>, base: int, vals: Seq<u8>) -> Seq<u8> {
    Seq::new(
        ram.len(),
        |j: int|
            if base <= j < base + vals.len() {
                vals[j - base]
            } else {
                ram[j]
            },
    )
}

/// The registers after `V0..Vx` inclusive are read back from memory at
/// `base`: registers past `Vx` keep their values.
pub open spec fn load_regs(vx: Seq<u8>, ram: Seq<u8>, base: int, x: int) -> Seq<u8> {
    Seq::new(
        vx.len(),
        |j: int|
            if 0 <= j <= x {
                ram[base + j]
            } else {
                vx[j]
            },
    )
}

/// Outcome of the draw-sprite operation (`Dxyn`): the `n` rows at `I` are
/// XOR-blitted at `(Vx, Vy)`, `VF` reports whether any pixel went from 1 to
/// 0, and the program counter advances; reading a row byte past the end of
/// memory is a fault that leaves the state unchanged.
pub open spec fn draw_outcome(c: CpuView, b: BusView, x: int, y: int, n: u8) -> StepOutcome {
    if c.i + n > 4096 {
        StepOutcome { cpu: c, bus: b, err: Some(Chip8Error::OutOfBounds { address: first_oob(c.i) }) }
    } else {
        let coll = draw_collision(b.screen, b.ram, c.i, c.vx[x], c.vx[y], n as nat);
        StepOutcome {
            cpu: CpuView {
                vx: c.vx.update(15, if coll { 1u8 } else { 0u8 }),
                pc: (c.pc + 2) as u16,
                ..c
            },
            bus: BusView { screen: draw_rows(b.screen, b.ram, c.i, c.vx[x], c.vx[y], n as nat), ..b },
            err: None,
        }
    }
}

/// Outcome of the register-dump operation (`Fx55`): `V0..Vx` inclusive are
/// written to memory at `I`; a write past the end of memory is a fault that
/// leaves the state unchanged.
pub open spec fn dump_outcome(c: CpuView, b: BusView, x: int) -> StepOutcome {
    if c.i + x + 1 > 4096 {
        StepOutcome { cpu: c, bus: b, err: Some(Chip8Error::OutOfBounds { address: first_oob(c.i) }) }
    } else {
        StepOutcome {
            cpu: CpuView { pc: (c.pc + 2) as u16, ..c },
            bus: BusView { ram: write_seq(b.ram, c.i as int, c.vx.take(x + 1)), ..b },
            err: None,
        }
    }
}

/// Outcome of the register-load operation (`Fx65`): `V0..Vx` inclusive are
/// read from memory at `I`; a read past the end of memory is a fault that
/// leaves the state unchanged.
pub open spec fn load_outcome(c: CpuView, b: BusView, x: int) -> StepOutcome {
    if c.i + x + 1 > 4096 {
        StepOutcome { cpu: c, bus: b, err: Some(Chip8Error::OutOfBounds { address: first_oob(c.i) }) }
    } else {
        StepOutcome {
            cpu: CpuView { vx: load_regs(c.vx, b.ram, c.i as int, x), pc: (c.pc + 2) as u16, ..c },
            bus: b,
            err: None,
        }
    }
}

/// Semantics of the `8xyn` register-arithmetic family. `n` selects copy,
/// OR, AND, XOR, add-with-carry, subtract-with-borrow or shift-right; the
/// program counter advances by 2 in every defined case. Flag writes follow
/// the engine's order: add-with-carry writes `Vx` before `VF`, while
/// subtract and shift write `VF` before `Vx`, so on `x == 15` the later
/// write wins.
pub open spec fn alu_outcome(c: CpuView, b: BusView, w: u16) -> StepOutcome {
    let x = x_of(w) as int;
    let vx = c.vx[x];
    let vy = c.vx[y_of(w) as int];
    let n = n_of(w);
    let pc2 = (c.pc + 2) as u16;
    if n == 0 {
        StepOutcome { cpu: CpuView { vx: c.vx.update(x, vy), pc: pc2, ..c }, bus: b, err: None }
    } else if n == 1 {
        StepOutcome { cpu: CpuView { vx: c.vx.update(x, vx | vy), pc: pc2, ..c }, bus: b, err: None }
    } else if n == 2 {
        StepOutcome { cpu: CpuView { vx: c.vx.update(x, vx & vy), pc: pc2, ..c }, bus: b, err: None }
    } else if n == 3 {
        StepOutcome { cpu: CpuView { vx: c.vx.update(x, vx ^ vy), pc: pc2, ..c }, bus: b, err: None }
    } else if n == 4 {
        let carry: u8 = if vx + vy > 255 {
            1u8
        } else {
            0u8
        };
        StepOutcome {
            cpu: CpuView { vx: c.vx.update(x, wrap_add8(vx, vy)).update(15, carry), pc: pc2, ..c },
            bus: b,
            err: None,
        }
    } else if n == 5 {
        let no_borrow: u8 = if vx > vy {
            1u8
        } else {
            0u8
        };
        StepOutcome {
            cpu: CpuView { vx: c.vx.update(15, no_borrow).update(x, wrap_sub8(vx, vy)), pc: pc2, ..c },
            bus: b,
            err: None,
        }
    } else if n == 6 {
        StepOutcome {
            cpu: CpuView { vx: c.vx.update(15, vx & 1).update(x, vx >> 1u8), pc: pc2, ..c },
            bus: b,
            err: None,
        }
    } else {
        StepOutcome {
            cpu: c,
            bus: b,
            err: Some(Chip8Error::UnknownOpcode { pc: c.pc, instruction: w }),
        }
    }
}

/// Semantics of the `Fxkk` miscellaneous family: timer transfers, wait for
/// key, add to index, font address, BCD store and register dump/load.
pub open spec fn misc_outcome(c: CpuView, b: BusView, w: u16) -> StepOutcome {
    let x = x_of(w) as int;
    let vx = c.vx[x];
    let kk = kk_of(w);
    let pc2 = (c.pc + 2) as u16;
    if kk == 0x07 {
        StepOutcome { cpu: CpuView { vx: c.vx.update(x, b.timer), pc: pc2, ..c }, bus: b, err: None }
    } else if kk == 0x0A {
        match b.key {
            Some(val) => StepOutcome {
                cpu: CpuView { vx: c.vx.update(x, val), pc: pc2, ..c },
                bus: b,
                err: None,
            },
            // no key latched: the program counter is not advanced, so the
            // next step re-executes this instruction
            None => StepOutcome { cpu: c, bus: b, err: None },
        }
    } else if kk == 0x15 {
        StepOutcome { cpu: CpuView { pc: pc2, ..c }, bus: BusView { timer: vx, ..b }, err: None }
    } else if kk == 0x18 {
        // sound timer is not modelled; the operation is accepted and skipped
        StepOutcome { cpu: CpuView { pc: pc2, ..c }, bus: b, err: None }
    } else if kk == 0x1E {
        StepOutcome {
            cpu: CpuView { i: wrap_add16(c.i, vx as u16), pc: pc2, ..c },
            bus: b,
            err: None,
        }
    } else if kk == 0x29 {
        // each font glyph is 5 bytes long
        StepOutcome { cpu: CpuView { i: (vx * 5) as u16, pc: pc2, ..c }, bus: b, err: None }
    } else if kk == 0x33 {
        if c.i + 2 >= 4096 {
            StepOutcome {
                cpu: c,
                bus: b,
                err: Some(Chip8Error::OutOfBounds { address: first_oob(c.i) }),
            }
        } else {
            StepOutcome {
                cpu: CpuView { pc: pc2, ..c },
                bus: BusView {
                    ram: b.ram.update(c.i as int, (vx / 100) as u8).update(
                        c.i + 1,
                        ((vx / 10) % 10) as u8,
                    ).update(c.i + 2, (vx % 10) as u8),
                    ..b
                },
                err: None,
            }
        }
    } else if kk == 0x55 {
        dump_outcome(c, b, x)
    } else if kk == 0x65 {
        load_outcome(c, b, x)
    } else {
        StepOutcome {
            cpu: c,
            bus: b,
            err: Some(Chip8Error::UnknownOpcode { pc: c.pc, instruction: w }),
        }
    }
}

/// The complete semantics of one fetch-decode-execute step, given the byte
/// `random` that the random-number source hands the `Cxkk` operation. This is
/// the reference the executable engine is proved against, opcode by opcode.
pub open spec fn step_spec(c: CpuView, b: BusView, random: u8) -> StepOutcome {
    if c.pc + 1 >= 4096 {
        StepOutcome { cpu: c, bus: b, err: Some(Chip8Error::OutOfBounds { address: first_oob(c.pc) }) }
    } else {
        let w = instr_word(b.ram[c.pc as int], b.ram[c.pc + 1]);
        let nnn = nnn_of(w);
        let kk = kk_of(w);
        let x = x_of(w) as int;
        let vx = c.vx[x];
        let vy = c.vx[y_of(w) as int];
        let pc2 = (c.pc + 2) as u16;
        let pc4 = (c.pc + 4) as u16;
        let unknown = StepOutcome {
            cpu: c,
            bus: b,
            err: Some(Chip8Error::UnknownOpcode { pc: c.pc, instruction: w }),
        };
        if op_of(w) == 0x0 {
            if kk == 0xE0 {
                // clear screen
                StepOutcome {
                    cpu: CpuView { pc: pc2, ..c },
                    bus: BusView { screen: Seq::new(2048, |j: int| 0u8), ..b },
                    err: None,
                }
            } else if kk == 0xEE {
                // return from subroutine
                if c.stack.len() == 0 {
                    StepOutcome {
                        cpu: c,
                        bus: b,
                        err: Some(Chip8Error::StackUnderflow { pc: c.pc }),
                    }
                } else {
                    StepOutcome {
                        cpu: CpuView { pc: c.stack.last(), stack: c.stack.drop_last(), ..c },
                        bus: b,
                        err: None,
                    }
                }
            } else {
                unknown
            }
        } else if op_of(w) == 0x1 {
            // jump
            StepOutcome { cpu: CpuView { pc: nnn, ..c }, bus: b, err: None }
        } else if op_of(w) == 0x2 {
            // call subroutine: push the return address, jump
            StepOutcome {
                cpu: CpuView { pc: nnn, stack: c.stack.push(pc2), ..c },
                bus: b,
                err: None,
            }
        } else if op_of(w) == 0x3 {
            // skip next instruction if Vx == kk
            StepOutcome {
                cpu: CpuView {
                    pc: if vx == kk {
                        pc4
                    } else {
                        pc2
                    },
                    ..c
                },
                bus: b,
                err: None,
            }
        } else if op_of(w) == 0x4 {
            // skip next instruction if Vx != kk
            StepOutcome {
                cpu: CpuView {
                    pc: if vx != kk {
                        pc4
                    } else {
                        pc2
                    },
                    ..c
                },
                bus: b,
                err: None,
            }
        } else if op_of(w) == 0x6 {
            // load immediate
            StepOutcome { cpu: CpuView { vx: c.vx.update(x, kk), pc: pc2, ..c }, bus: b, err: None }
        } else if op_of(w) == 0x7 {
            // add immediate, wrapping, no flag
            StepOutcome {
                cpu: CpuView { vx: c.vx.update(x, wrap_add8(vx, kk)), pc: pc2, ..c },
                bus: b,
                err: None,
            }
        } else if op_of(w) == 0x8 {
            alu_outcome(c, b, w)
        } else if op_of(w) == 0x9 {
            // skip next instruction if Vx != Vy
            StepOutcome {
                cpu: CpuView {
                    pc: if vx != vy {
                        pc4
                    } else {
                        pc2
                    },
                    ..c
                },
                bus: b,
                err: None,
            }
        } else if op_of(w) == 0xA {
            // load index register
            StepOutcome { cpu: CpuView { i: nnn, pc: pc2, ..c }, bus: b, err: None }
        } else if op_of(w) == 0xB {
            // jump with offset V0
            StepOutcome { cpu: CpuView { pc: (nnn + c.vx[0]) as u16, ..c }, bus: b, err: None }
        } else if op_of(w) == 0xC {
            // random byte masked by kk
            StepOutcome {
                cpu: CpuView { vx: c.vx.update(x, random & kk), pc: pc2, ..c },
                bus: b,
                err: None,
            }
        } else if op_of(w) == 0xD {
            draw_outcome(c, b, x, y_of(w) as int, n_of(w))
        } else if op_of(w) == 0xE {
            if kk == 0x9E {
                // skip next instruction if key Vx is pressed
                StepOutcome {
                    cpu: CpuView {
                        pc: if b.key == Some(vx) {
                            pc4
                        } else {
                            pc2
                        },
                        ..c
                    },
                    bus: b,
                    err: None,
                }
            } else if kk == 0xA1 {
                // skip next instruction if key Vx is not pressed
                StepOutcome {
                    cpu: CpuView {
                        pc: if b.key != Some(vx) {
                            pc4
                        } else {
                            pc2
                        },
                        ..c
                    },
                    bus: b,
                    err: None,
                }
            } else {
                unknown
            }
        } else if op_of(w) == 0xF {
            misc_outcome(c, b, w)
        } else {
            unknown
        }
    }
}

/// Holds the registers, program counter, index register and call stack, and
/// drives one fetch-decode-execute transition per `step` against the bus.
#[derive(Debug)]
pub struct Cpu {
    vx: Vec<u8>,
    pc: u16,
    i: u16,
    ret_stack: Vec<u16>,
}

impl View for Cpu {
    type V = CpuView;

    closed spec fn view(&self) -> CpuView {
        CpuView { vx: self.vx@, pc: self.pc, i: self.i, stack: self.ret_stack@ }
    }
}

/// Relies on rand::random: one byte drawn from the thread-local generator.
/// Nothing is promised of the value; callers state what holds of every byte.
#[verifier::external_body]
fn random_byte() -> u8 {
    rand::random::<u8>()
}

impl Cpu {
    pub open spec fn wf(&self) -> bool {
        self@.vx.len() == 16
    }

    /// A powered-on CPU: all registers 0, the program counter at
    /// `PROGRAM_START`, an empty call stack.
    pub fn new() -> (r: Cpu)
        ensures
            r.wf(),
            forall|j: int| 0 <= j < 16 ==> r@.vx[j] == 0u8,
            r@.pc == 0x200u16,
            r@.i == 0u16,
            r@.stack.len() == 0,
    {
        let mut vx: Vec<u8> = Vec::new();
        let mut k: usize = 0;
        while k < 16
            invariant
                k <= 16,
                vx@.len() == k,
                forall|j: int| 0 <= j < k ==> vx@[j] == 0u8,
            decreases 16 - k,
        {
            vx.push(0);
            k = k + 1;
        }
        Cpu { vx, pc: PROGRAM_START, i: 0, ret_stack: Vec::<u16>::new() }
    }

    pub fn write_reg_vx(&mut self, index: u8, value: u8)
        requires
            old(self).wf(),
            index < 16,
        ensures
            final(self).wf(),
            final(self)@ == (CpuView { vx: old(self)@.vx.update(index as int, value), ..old(self)@ }),
    {
        self.vx.set(index as usize, value);
    }

    pub fn read_reg_vx(&self, index: u8) -> (r: u8)
        requires
            self.wf(),
            index < 16,
        ensures
            r == self@.vx[index as int],
    {
        self.vx[index as usize]
    }

    pub fn write_reg_i(&mut self, value: u16)
        ensures
            final(self)@ == (CpuView { i: value, ..old(self)@ }),
            final(self).wf() == old(self).wf(),
    {
        self.i = value;
    }

    pub fn get_pc(&self) -> (r: u16)
        ensures
            r == self@.pc,
    {
        self.pc
    }

    pub fn get_i(&self) -> (r: u16)
        ensures
            r == self@.i,
    {
        self.i
    }

    /// Advance the program counter over one two-byte instruction.
    pub fn increment_pc(&mut self)
        requires
            old(self)@.pc + 2 <= u16::MAX,
        ensures
            final(self)@ == (CpuView { pc: (old(self)@.pc + 2) as u16, ..old(self)@ }),
            final(self).wf() == old(self).wf(),
    {
        self.pc = self.pc + 2;
    }

    /// One fetch-decode-execute step with the random byte supplied by the
    /// caller, so that the transition is a function of its arguments: the
    /// machine afterwards is exactly what [`step_spec`] maps it to, and the
    /// step faults exactly when `step_spec` names an error.
    pub fn step(&mut self, bus: &mut Bus, random: u8) -> (r: Result<(), Chip8Error>)
        requires
            old(self).wf(),
            old(bus).wf(),
        ensures
            final(self).wf(),
            final(bus).wf(),
            final(self)@ == step_spec(old(self)@, old(bus)@, random).cpu,
            final(bus)@ == step_spec(old(self)@, old(bus)@, random).bus,
            r == result_of(step_spec(old(self)@, old(bus)@, random).err),
    {
        if self.pc >= 4095 {
            let address = if self.pc >= 4096 {
                self.pc
            } else {
                4096
            };
            return Err(Chip8Error::OutOfBounds { address });
        }
        let lo = bus.ram_read_byte(self.pc);
        let hi = bus.ram_read_byte(self.pc + 1);
        let instruction: u16 = (lo as u16) * 256 + (hi as u16);
        let ghost w = instr_word(old(bus)@.ram[old(self)@.pc as int], old(bus)@.ram[old(self)@.pc + 1]);
        proof {
            assert(instruction == w);
        }

        let nnn: u16 = instruction % 0x1000;
        let kk: u8 = (instruction % 0x100) as u8;
        let n: u8 = (instruction % 0x10) as u8;
        let x: u8 = ((instruction / 0x100) % 0x10) as u8;
        let y: u8 = ((instruction / 0x10) % 0x10) as u8;
        let op: u16 = instruction / 0x1000;
        proof {
            assert(nnn == nnn_of(w) && kk == kk_of(w) && n == n_of(w) && x == x_of(w) && y == y_of(
                w,
            ) && op == op_of(w));
            assert(x < 16 && y < 16);
        }

        match op {
            0x0 => {
                if kk == 0xE0 {
                    // clear screen
                    bus.clear_screen();
                    proof {
                        assert(bus@.screen =~= Seq::new(2048, |j: int| 0u8));
                    }
                    self.increment_pc();
                    Ok(())
                } else if kk == 0xEE {
                    // return from subroutine
                    match self.ret_stack.pop() {
                        Some(addr) => {
                            self.pc = addr;
                            Ok(())
                        },
                        None => Err(Chip8Error::StackUnderflow { pc: self.pc }),
                    }
                } else {
                    Err(Chip8Error::UnknownOpcode { pc: self.pc, instruction })
                }
            },
            0x1 => {
                // jump to nnn
                self.pc = nnn;
                Ok(())
            },
            0x2 => {
                // call subroutine at nnn
                self.ret_stack.push(self.pc + 2);
                self.pc = nnn;
                Ok(())
            },
            0x3 => {
                // skip next instruction if Vx == kk
                let vx = self.read_reg_vx(x);
                if vx == kk {
                    self.increment_pc();
                }
                self.increment_pc();
                Ok(())
            },
            0x4 => {
                // skip next instruction if Vx != kk
                let vx = self.read_reg_vx(x);
                if vx != kk {
                    self.increment_pc();
                }
                self.increment_pc();
                Ok(())
            },
            0x6 => {
                // Vx = kk
                self.write_reg_vx(x, kk);
                self.increment_pc();
                Ok(())
            },
            0x7 => {
                // Vx = Vx + kk, wrapping, no flag
                let vx = self.read_reg_vx(x);
                self.write_reg_vx(x, vx.wrapping_add(kk));
                self.increment_pc();
                Ok(())
            },
            0x8 => {
                let vx = self.read_reg_vx(x);
                let vy = self.read_reg_vx(y);
                match n {
                    0 => {
                        // Vx = Vy
                        self.write_reg_vx(x, vy);
                    },
                    1 => {
                        // Vx = Vx OR Vy
                        self.write_reg_vx(x, vx | vy);
                    },
                    2 => {
                        // Vx = Vx AND Vy
                        self.write_reg_vx(x, vx & vy);
                    },
                    3 => {
                        // Vx = Vx XOR Vy
                        self.write_reg_vx(x, vx ^ vy);
                    },
                    4 => {
                        // Vx = Vx + Vy, VF = carry
                        let sum: u16 = vx as u16 + vy as u16;
                        self.write_reg_vx(x, vx.wrapping_add(vy));
                        if sum > 0xFF {
                            self.write_reg_vx(0xF, 1);
                        } else {
                            self.write_reg_vx(0xF, 0);
                        }
                    },
                    5 => {
                        // Vx = Vx - Vy wrapping, VF = 1 only on Vx > Vy strictly
                        if vx > vy {
                            self.write_reg_vx(0xF, 1);
                        } else {
                            self.write_reg_vx(0xF, 0);
                        }
                        self.write_reg_vx(x, vx.wrapping_sub(vy));
                    },
                    6 => {
                        // VF = low bit of Vx, then Vx is shifted right in place
                        self.write_reg_vx(0xF, vx & 1);
                        self.write_reg_vx(x, vx >> 1u8);
                    },
                    _ => {
                        return Err(Chip8Error::UnknownOpcode { pc: self.pc, instruction });
                    },
                }
                self.increment_pc();
                Ok(())
            },
            0x9 => {
                // skip next instruction if Vx != Vy
                let vx = self.read_reg_vx(x);
                let vy = self.read_reg_vx(y);
                if vx != vy {
                    self.increment_pc();
                }
                self.increment_pc();
                Ok(())
            },
            0xA => {
                // I = nnn
                self.write_reg_i(nnn);
                self.increment_pc();
                Ok(())
            },
            0xB => {
                // jump to nnn + V0
                let v0 = self.read_reg_vx(0);
                self.pc = nnn + v0 as u16;
                Ok(())
            },
            0xC => {
                // Vx = random byte AND kk
                self.write_reg_vx(x, random & kk);
                self.increment_pc();
                Ok(())
            },
            0xD => {
                // draw the n-row sprite at memory I at coordinates (Vx, Vy)
                self.exec_draw(bus, x, y, n)
            },
            0xE => {
                let vx = self.read_reg_vx(x);
                if kk == 0x9E {
                    // skip next instruction if key Vx is pressed
                    if bus.is_key_pressed(vx) {
                        self.increment_pc();
                    }
                    self.increment_pc();
                    Ok(())
                } else if kk == 0xA1 {
                    // skip next instruction if key Vx is not pressed
                    if !bus.is_key_pressed(vx) {
                        self.increment_pc();
                    }
                    self.increment_pc();
                    Ok(())
                } else {
                    Err(Chip8Error::UnknownOpcode { pc: self.pc, instruction })
                }
            },
            0xF => {
                if kk == 0x07 {
                    // Vx = delay timer
                    let t = bus.get_delay_timer();
                    self.write_reg_vx(x, t);
                    self.increment_pc();
                    Ok(())
                } else if kk == 0x0A {
                    // wait for a key: without one, the program counter stays
                    match bus.get_key_pressed() {
                        Some(val) => {
                            self.write_reg_vx(x, val);
                            self.increment_pc();
                        },
                        None => (),
                    }
                    Ok(())
                } else if kk == 0x15 {
                    // delay timer = Vx
                    let vx = self.read_reg_vx(x);
                    bus.set_delay_timer(vx);
                    self.increment_pc();
                    Ok(())
                } else if kk == 0x18 {
                    // sound timer is not modelled; accepted and skipped
                    self.increment_pc();
                    Ok(())
                } else if kk == 0x1E {
                    // I = I + Vx, wrapping as a 16-bit value, no flag
                    let vx = self.read_reg_vx(x);
                    self.write_reg_i(self.i.wrapping_add(vx as u16));
                    self.increment_pc();
                    Ok(())
                } else if kk == 0x29 {
                    // I = font address of digit Vx: 5 bytes per glyph
                    let vx = self.read_reg_vx(x);
                    self.write_reg_i(vx as u16 * 5);
                    self.increment_pc();
                    Ok(())
                } else if kk == 0x33 {
                    // store the BCD digits of Vx at I, I+1, I+2
                    if self.i >= 4094 {
                        let address = if self.i >= 4096 {
                            self.i
                        } else {
                            4096
                        };
                        return Err(Chip8Error::OutOfBounds { address });
                    }
                    let vx = self.read_reg_vx(x);
                    bus.ram_write_byte(self.i, vx / 100);
                    bus.ram_write_byte(self.i + 1, (vx / 10) % 10);
                    bus.ram_write_byte(self.i + 2, vx % 10);
                    self.increment_pc();
                    Ok(())
                } else if kk == 0x55 {
                    // store V0..Vx inclusive to memory starting at I
                    self.exec_dump(bus, x)
                } else if kk == 0x65 {
                    // load V0..Vx inclusive from memory starting at I
                    self.exec_load(bus, x)
                } else {
                    Err(Chip8Error::UnknownOpcode { pc: self.pc, instruction })
                }
            },
            _ => Err(Chip8Error::UnknownOpcode { pc: self.pc, instruction }),
        }
    }

    /// One fetch-decode-execute step, drawing the byte that the `Cxkk`
    /// random operation masks from the machine's random source: some byte
    /// exists for which this step is the [`step_spec`] transition.
    pub fn run_instruction(&mut self, bus: &mut Bus) -> (r: Result<(), Chip8Error>)
        requires
            old(self).wf(),
            old(bus).wf(),
        ensures
            final(self).wf(),
            final(bus).wf(),
            exists|rb: u8|
                (final(self)@ == step_spec(old(self)@, old(bus)@, rb).cpu && final(bus)@
                    == step_spec(old(self)@, old(bus)@, rb).bus && r == result_of(
                    step_spec(old(self)@, old(bus)@, rb).err,
                )),
    {
        let rb = random_byte();
        let res = self.step(bus, rb);
        proof {
            assert(self@ == step_spec(old(self)@, old(bus)@, rb).cpu && bus@ == step_spec(
                old(self)@,
                old(bus)@,
                rb,
            ).bus && res == result_of(step_spec(old(self)@, old(bus)@, rb).err));
        }
        res
    }

    /// Draw the `n`-row sprite stored at memory `I` at `(Vx, Vy)`, row by
    /// row, accumulating the collision flag into `VF`.
    fn exec_draw(&mut self, bus: &mut Bus, x: u8, y: u8, n: u8) -> (r: Result<(), Chip8Error>)
        requires
            old(self).wf(),
            old(bus).wf(),
            x < 16,
            y < 16,
            n < 16,
            old(self)@.pc + 2 <= u16::MAX,
        ensures
            final(self).wf(),
            final(bus).wf(),
            final(self)@ == draw_outcome(old(self)@, old(bus)@, x as int, y as int, n).cpu,
            final(bus)@ == draw_outcome(old(self)@, old(bus)@, x as int, y as int, n).bus,
            r == result_of(draw_outcome(old(self)@, old(bus)@, x as int, y as int, n).err),
    {
        if self.i as usize + n as usize > 4096 {
            let address = if self.i >= 4096 {
                self.i
            } else {
                4096
            };
            return Err(Chip8Error::OutOfBounds { address });
        }
        let vx = self.read_reg_vx(x);
        let vy = self.read_reg_vx(y);
        let i0 = self.i;
        let mut collision = false;
        let mut row: u8 = 0;
        while row < n
            invariant
                old(self).wf(),
                old(bus).wf(),
                self@ == old(self)@,
                i0 == old(self)@.i,
                vx == old(self)@.vx[x as int],
                vy == old(self)@.vx[y as int],
                n < 16,
                i0 + n <= 4096,
                row <= n,
                bus.wf(),
                bus@.ram == old(bus)@.ram,
                bus@.key == old(bus)@.key,
                bus@.timer == old(bus)@.timer,
                bus@.screen == draw_rows(old(bus)@.screen, old(bus)@.ram, i0, vx, vy, row as nat),
                collision == draw_collision(
                    old(bus)@.screen,
                    old(bus)@.ram,
                    i0,
                    vx,
                    vy,
                    row as nat,
                ),
            decreases n - row,
        {
            let byte = bus.ram_read_byte(i0 + row as u16);
            let flipped = bus.debug_draw_sprite(byte, vx, vy.wrapping_add(row));
            proof {
                assert(vy.wrapping_add(row) == wrap_add8(vy, row));
            }
            collision = collision || flipped;
            row = row + 1;
        }
        let flag: u8 = if collision {
            1
        } else {
            0
        };
        self.write_reg_vx(0xF, flag);
        self.increment_pc();
        Ok(())
    }

    /// Store `V0..Vx` inclusive to memory starting at `I`.
    fn exec_dump(&mut self, bus: &mut Bus, x: u8) -> (r: Result<(), Chip8Error>)
        requires
            old(self).wf(),
            old(bus).wf(),
            x < 16,
            old(self)@.pc + 2 <= u16::MAX,
        ensures
            final(self).wf(),
            final(bus).wf(),
            final(self)@ == dump_outcome(old(self)@, old(bus)@, x as int).cpu,
            final(bus)@ == dump_outcome(old(self)@, old(bus)@, x as int).bus,
            r == result_of(dump_outcome(old(self)@, old(bus)@, x as int).err),
    {
        if self.i as usize + x as usize + 1 > 4096 {
            let address = if self.i >= 4096 {
                self.i
            } else {
                4096
            };
            return Err(Chip8Error::OutOfBounds { address });
        }
        let i0 = self.i;
        let mut idx: u8 = 0;
        while idx <= x
            invariant
                old(self).wf(),
                old(bus).wf(),
                self@ == old(self)@,
                i0 == old(self)@.i,
                x < 16,
                i0 + x + 1 <= 4096,
                idx <= x + 1,
                bus.wf(),
                bus@.screen == old(bus)@.screen,
                bus@.key == old(bus)@.key,
                bus@.timer == old(bus)@.timer,
                bus@.ram.len() == 4096,
                forall|j: int|
                    0 <= j < 4096 ==> bus@.ram[j] == (if i0 <= j < i0 + idx {
                        old(self)@.vx[j - i0]
                    } else {
                        old(bus)@.ram[j]
                    }),
            decreases x + 1 - idx,
        {
            let value = self.read_reg_vx(idx);
            bus.ram_write_byte(i0 + idx as u16, value);
            idx = idx + 1;
        }
        proof {
            assert(bus@.ram =~= write_seq(old(bus)@.ram, i0 as int, old(self)@.vx.take(x + 1)));
        }
        self.increment_pc();
        Ok(())
    }

    /// Load `V0..Vx` inclusive from memory starting at `I`.
    fn exec_load(&mut self, bus: &mut Bus, x: u8) -> (r: Result<(), Chip8Error>)
        requires
            old(self).wf(),
            old(bus).wf(),
            x < 16,
            old(self)@.pc + 2 <= u16::MAX,
        ensures
            final(self).wf(),
            final(bus).wf(),
            final(self)@ == load_outcome(old(self)@, old(bus)@, x as int).cpu,
            final(bus)@ == load_outcome(old(self)@, old(bus)@, x as int).bus,
            r == result_of(load_outcome(old(self)@, old(bus)@, x as int).err),
    {
        if self.i as usize + x as usize + 1 > 4096 {
            let address = if self.i >= 4096 {
                self.i
            } else {
                4096
            };
            return Err(Chip8Error::OutOfBounds { address });
        }
        let i0 = self.i;
        let mut idx: u8 = 0;
        while idx <= x
            invariant
                old(self).wf(),
                old(bus).wf(),
                bus@ == old(bus)@,
                self.wf(),
                self@.pc == old(self)@.pc,
                self@.i == old(self)@.i,
                self@.stack == old(self)@.stack,
                i0 == old(self)@.i,
                x < 16,
                i0 + x + 1 <= 4096,
                idx <= x + 1,
                forall|j: int|
                    0 <= j < 16 ==> self@.vx[j] == (if 0 <= j < idx {
                        old(bus)@.ram[i0 + j]
                    } else {
                        old(self)@.vx[j]
                    }),
            decreases x + 1 - idx,
        {
            let value = bus.ram_read_byte(i0 + idx as u16);
            self.write_reg_vx(idx, value);
            idx = idx + 1;
        }
        proof {
            assert(self@.vx =~= load_regs(old(self)@.vx, old(bus)@.ram, i0 as int, x as int));
        }
        self.increment_pc();
        Ok(())
    }
}

/// How the operand fields of an instruction word come apart when the word is
/// built from a family nibble `t`, a register nibble `x` and a byte `kk`.
pub proof fn lemma_decode_fields(t: u8, x: u8, kk: u8)
    requires
        t < 16,
        x < 16,
    ensures
        op_of(instr_word((t * 16 + x) as u8, kk)) == t,
        x_of(instr_word((t * 16 + x) as u8, kk)) == x,
        kk_of(instr_word((t * 16 + x) as u8, kk)) == kk,
        nnn_of(instr_word((t * 16 + x) as u8, kk)) == x * 256 + kk,
        y_of(instr_word((t * 16 + x) as u8, kk)) == kk / 16,
        n_of(instr_word((t * 16 + x) as u8, kk)) == kk % 16,
{
    let w = instr_word((t * 16 + x) as u8, kk);
    assert(w == t * 4096 + x * 256 + kk);
    assert(w / 0x1000 == t && w % 0x1000 == x * 256 + kk && w % 0x100 == kk && (w / 0x100) % 0x10
        == x && (w / 0x10) % 0x10 == (kk / 16) % 16 && w % 0x10 == kk % 16) by (nonlinear_arith)
        requires
            w == t * 4096 + x * 256 + kk,
            0 <= t < 16,
            0 <= x < 16,
            0 <= kk < 256,
    ;
    assert((kk / 16) % 16 == kk / 16);
}

/// Law: loading an immediate and then adding an immediate leaves `Vx` at
/// their wrapped sum, advances the program counter by 4, and has no flag
/// side effect: every register but `Vx` — the flag register `VF` included,
/// whenever `x` is not 15 — keeps its value, as does the rest of the machine.
/// The hypotheses put `6xkk` then `7xkk` at the program counter.
pub proof fn lemma_load_then_add_immediate(
    c: CpuView,
    b: BusView,
    r1: u8,
    r2: u8,
    x: u8,
    kk1: u8,
    kk2: u8,
)
    requires
        c.vx.len() == 16,
        b.ram.len() == 4096,
        x < 16,
        c.pc + 3 < 4096,
        b.ram[c.pc as int] == (0x60 + x) as u8,
        b.ram[c.pc + 1] == kk1,
        b.ram[c.pc + 2] == (0x70 + x) as u8,
        b.ram[c.pc + 3] == kk2,
    ensures
        step_spec(c, b, r1).err == None::<Chip8Error>,
        step_spec(step_spec(c, b, r1).cpu, step_spec(c, b, r1).bus, r2).err == None::<Chip8Error>,
        step_spec(step_spec(c, b, r1).cpu, step_spec(c, b, r1).bus, r2).cpu.vx[x as int]
            == wrap_add8(kk1, kk2),
        step_spec(step_spec(c, b, r1).cpu, step_spec(c, b, r1).bus, r2).cpu.pc == c.pc + 4,
        forall|j: int|
            0 <= j < 16 && j != x ==> step_spec(
                step_spec(c, b, r1).cpu,
                step_spec(c, b, r1).bus,
                r2,
            ).cpu.vx[j] == c.vx[j],
        x != 15 ==> step_spec(step_spec(c, b, r1).cpu, step_spec(c, b, r1).bus, r2).cpu.vx[15]
            == c.vx[15],
        step_spec(step_spec(c, b, r1).cpu, step_spec(c, b, r1).bus, r2).cpu.i == c.i,
        step_spec(step_spec(c, b, r1).cpu, step_spec(c, b, r1).bus, r2).cpu.stack == c.stack,
        step_spec(step_spec(c, b, r1).cpu, step_spec(c, b, r1).bus, r2).bus == b,
{
    let w1 = instr_word(b.ram[c.pc as int], b.ram[c.pc + 1]);
    lemma_decode_fields(6, x, kk1);
    assert((0x60 + x) as u8 == (6 * 16 + x) as u8);
    assert(op_of(w1) == 6 && x_of(w1) == x && kk_of(w1) == kk1);
    let s1 = step_spec(c, b, r1);
    assert(s1 == (StepOutcome {
        cpu: CpuView { vx: c.vx.update(x as int, kk1), pc: (c.pc + 2) as u16, ..c },
        bus: b,
        err: None::<Chip8Error>,
    }));
    let w2 = instr_word(b.ram[c.pc + 2], b.ram[c.pc + 3]);
    lemma_decode_fields(7, x, kk2);
    assert((0x70 + x) as u8 == (7 * 16 + x) as u8);
    assert(op_of(w2) == 7 && x_of(w2) == x && kk_of(w2) == kk2);
    let s2 = step_spec(s1.cpu, s1.bus, r2);
    assert(s1.cpu.vx[x as int] == kk1);
    assert(s2 == (StepOutcome {
        cpu: CpuView {
            vx: c.vx.update(x as int, kk1).update(x as int, wrap_add8(kk1, kk2)),
            pc: (c.pc + 4) as u16,
            ..c
        },
        bus: b,
        err: None::<Chip8Error>,
    }));
}

/// Law: call/return round trip. A subroutine call pushes the address of the
/// following instruction and jumps; a return from the called address pops it
/// back into the program counter, leaving the call stack, the registers and
/// the bus exactly as they were. The hypotheses put `2nnn` at the program
/// counter and `00EE` at `nnn`.
pub proof fn lemma_call_then_return(c: CpuView, b: BusView, r1: u8, r2: u8, nnn: u16)
    requires
        c.vx.len() == 16,
        b.ram.len() == 4096,
        c.pc + 1 < 4096,
        nnn < 4095,
        b.ram[c.pc as int] == (0x20 + nnn / 256) as u8,
        b.ram[c.pc + 1] == (nnn % 256) as u8,
        b.ram[nnn as int] == 0x00u8,
        b.ram[nnn + 1] == 0xEEu8,
    ensures
        step_spec(c, b, r1).err == None::<Chip8Error>,
        step_spec(c, b, r1).cpu.pc == nnn,
        step_spec(c, b, r1).cpu.stack == c.stack.push((c.pc + 2) as u16),
        step_spec(step_spec(c, b, r1).cpu, step_spec(c, b, r1).bus, r2).err == None::<Chip8Error>,
        step_spec(step_spec(c, b, r1).cpu, step_spec(c, b, r1).bus, r2).cpu.pc == c.pc + 2,
        step_spec(step_spec(c, b, r1).cpu, step_spec(c, b, r1).bus, r2).cpu.stack == c.stack,
        step_spec(step_spec(c, b, r1).cpu, step_spec(c, b, r1).bus, r2).cpu.vx == c.vx,
        step_spec(step_spec(c, b, r1).cpu, step_spec(c, b, r1).bus, r2).cpu.i == c.i,
        step_spec(step_spec(c, b, r1).cpu, step_spec(c, b, r1).bus, r2).bus == b,
{
    let w1 = instr_word((0x20 + nnn / 256) as u8, (nnn % 256) as u8);
    assert(w1 == 0x2000 + (nnn / 256) * 256 + nnn % 256);
    assert((nnn / 256) * 256 + nnn % 256 == nnn) by {
        vstd::arithmetic::div_mod::lemma_fundamental_div_mod(nnn as int, 256);
    }
    assert(op_of(w1) == 2 && nnn_of(w1) == nnn);
    let s1 = step_spec(c, b, r1);
    assert(s1.cpu.stack == c.stack.push((c.pc + 2) as u16));
    let w2 = instr_word(0x00u8, 0xEEu8);
    assert(op_of(w2) == 0 && kk_of(w2) == 0xEE);
    let s2 = step_spec(s1.cpu, s1.bus, r2);
    assert(s1.cpu.stack.last() == (c.pc + 2) as u16);
    assert(s1.cpu.stack.drop_last() =~= c.stack);
}

/// Law: register dump/load round trip. Writing `V0..Vx` inclusive to memory
/// and loading the same range back restores every register exactly, whatever
/// stood in memory before.
pub proof fn lemma_dump_load_roundtrip(vx: Seq<u8>, ram: Seq<u8>, base: int, x: int)
    requires
        vx.len() == 16,
        ram.len() == 4096,
        0 <= x < 16,
        0 <= base,
        base + x + 1 <= 4096,
    ensures
        load_regs(vx, write_seq(ram, base, vx.take(x + 1)), base, x) == vx,
{
    assert(load_regs(vx, write_seq(ram, base, vx.take(x + 1)), base, x) =~= vx);
}

} // verus!
