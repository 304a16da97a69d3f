//! The whole machine: a CPU wired to its bus, with ROM loading.
use crate::bus::{Bus, BusView};
use crate::cpu::{result_of, step_spec, write_seq, Cpu, CpuView, PROGRAM_START};
use crate::Chip8Error;
use vstd::prelude::*;

verus! {

/// The machine state as the contracts see it.
pub ghost struct Chip8View {
    pub cpu: CpuView,
    pub bus: BusView,
}

/// A complete machine, created once at power-on.
pub struct Chip8 {
    cpu: Cpu,
    bus: Bus,
}

impl View for Chip8 {
    type V = Chip8View;

    closed spec fn view(&self) -> Chip8View {
        Chip8View { cpu: self.cpu@, bus: self.bus@ }
    }
}

impl Chip8 {
    pub open spec fn wf(&self) -> bool {
        &&& self@.cpu.vx.len() == 16
        &&& self@.bus.ram.len() == 4096
        &&& crate::display::screen_wf(self@.bus.screen)
    }

    /// A powered-on machine: zeroed memory, registers and screen, the
    /// program counter at `PROGRAM_START`, no key latched, timer 0.
    pub fn new() -> (r: Chip8)
        ensures
            r.wf(),
            forall|j: int| 0 <= j < 16 ==> r@.cpu.vx[j] == 0u8,
            r@.cpu.pc == 0x200u16,
            r@.cpu.i == 0u16,
            r@.cpu.stack.len() == 0,
            forall|j: int| 0 <= j < 4096 ==> r@.bus.ram[j] == 0u8,
            forall|j: int| 0 <= j < 2048 ==> r@.bus.screen[j] == 0u8,
            r@.bus.key == None::<u8>,
            r@.bus.timer == 0u8,
    {
        Chip8 { cpu: Cpu::new(), bus: Bus::new() }
    }

    /// Copy a ROM image verbatim into memory starting at `PROGRAM_START`.
    /// An image that does not fit below the end of memory is rejected whole,
    /// before any byte is written.
    pub fn load_rom(&mut self, data: &[u8]) -> (r: Result<(), Chip8Error>)
        requires
            old(self).wf(),
        ensures
            final(self).wf(),
            final(self)@.cpu == old(self)@.cpu,
            final(self)@.bus.screen == old(self)@.bus.screen,
            final(self)@.bus.key == old(self)@.bus.key,
            final(self)@.bus.timer == old(self)@.bus.timer,
            if 0x200 + data@.len() <= 4096 {
                final(self)@.bus.ram == write_seq(old(self)@.bus.ram, 0x200, data@) && r == Ok::<
                    (),
                    Chip8Error,
                >(())
            } else {
                final(self)@.bus.ram == old(self)@.bus.ram && r == Err::<(), Chip8Error>(
                    Chip8Error::RomTooLarge { size: data@.len() as usize },
                )
            },
    {
        if data.len() > 4096 - PROGRAM_START as usize {
            return Err(Chip8Error::RomTooLarge { size: data.len() });
        }
        let mut k: usize = 0;
        while k < data.len()
            invariant
                old(self).wf(),
                data@.len() <= 4096 - 0x200,
                k <= data@.len(),
                self@.cpu == old(self)@.cpu,
                self@.bus.screen == old(self)@.bus.screen,
                self@.bus.key == old(self)@.bus.key,
                self@.bus.timer == old(self)@.bus.timer,
                self.wf(),
                forall|j: int|
                    0 <= j < 4096 ==> self@.bus.ram[j] == (if 0x200 <= j < 0x200 + k {
                        data@[j - 0x200]
                    } else {
                        old(self)@.bus.ram[j]
                    }),
            decreases data@.len() - k,
        {
            let value = data[k];
            self.bus.ram_write_byte(PROGRAM_START + k as u16, value);
            k = k + 1;
        }
        proof {
            assert(self@.bus.ram =~= write_seq(old(self)@.bus.ram, 0x200, data@));
        }
        Ok(())
    }

    /// Latch the key the host currently reports, or clear the latch.
    pub fn set_key_pressed(&mut self, key_code: Option<u8>)
        requires
            old(self).wf(),
        ensures
            final(self).wf(),
            final(self)@.cpu == old(self)@.cpu,
            final(self)@.bus == (BusView { key: key_code, ..old(self)@.bus }),
    {
        self.bus.set_key_pressed(key_code);
    }

    /// One fetch-decode-execute step; see [`crate::cpu::Cpu::run_instruction`].
    pub fn run_instruction(&mut self) -> (r: Result<(), Chip8Error>)
        requires
            old(self).wf(),
        ensures
            final(self).wf(),
            exists|rb: u8|
                (final(self)@.cpu == step_spec(old(self)@.cpu, old(self)@.bus, rb).cpu
                    && final(self)@.bus == step_spec(old(self)@.cpu, old(self)@.bus, rb).bus
                    && r == result_of(step_spec(old(self)@.cpu, old(self)@.bus, rb).err)),
    {
        self.cpu.run_instruction(&mut self.bus)
    }

    /// One delay-timer tick; see [`crate::bus::Bus::tick`].
    pub fn tick(&mut self)
        requires
            old(self).wf(),
        ensures
            final(self).wf(),
            final(self)@.cpu == old(self)@.cpu,
            final(self)@.bus == (BusView {
                timer: crate::bus::tick_spec(old(self)@.bus.timer),
                ..old(self)@.bus
            }),
    {
        self.bus.tick();
    }

    /// Read-only view of the pixel grid, for presentation.
    pub fn get_display_buffer(&self) -> (r: &[u8])
        ensures
            r@ == self@.bus.screen,
    {
        self.bus.get_display_buffer()
    }
}

} // verus!
