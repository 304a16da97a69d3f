//! The system bus: memory, display, input latch and delay timer behind one
//! interface, exposed uniformly to the CPU.
use crate::display::{blit_collision, blit_row, screen_wf, Display};
use crate::keyboard::Keyboard;
use crate::ram::{Ram, MEMORY_SIZE};
use vstd::prelude::*;

verus! {

/// The bus state as the contracts see it: the memory bytes, the pixel grid,
/// the latched key and the delay timer value.
pub ghost struct BusView {
    pub ram: Seq<u8>,
    pub screen: Seq<u8>,
    pub key: Option<u8>,
    pub timer: u8,
}

/// One delay-timer tick: decrement by 1, floored at 0.
pub open spec fn tick_spec(t: u8) -> u8 {
    if t > 0 {
        (t - 1) as u8
    } else {
        0u8
    }
}

/// The timer value after `k` ticks from `t`.
pub open spec fn ticks(t: u8, k: nat) -> u8
    decreases k,
{
    if k == 0 {
        t
    } else {
        tick_spec(ticks(t, (k - 1) as nat))
    }
}

/// Owns the machine's peripherals; the CPU is its only mutator.
pub struct Bus {
    ram: Ram,
    keyboard: Keyboard,
    display: Display,
    delay_timer: u8,
}

impl View for Bus {
    type V = BusView;

    closed spec fn view(&self) -> BusView {
        BusView {
            ram: self.ram@,
            screen: self.display@,
            key: self.keyboard@,
            timer: self.delay_timer,
        }
    }
}

impl Bus {
    pub open spec fn wf(&self) -> bool {
        &&& self@.ram.len() == MEMORY_SIZE
        &&& screen_wf(self@.screen)
    }

    /// A powered-on bus: memory and screen all zero, no key latched, timer 0.
    pub fn new() -> (r: Bus)
        ensures
            r.wf(),
            forall|j: int| 0 <= j < MEMORY_SIZE ==> r@.ram[j] == 0u8,
            forall|j: int| 0 <= j < 2048 ==> r@.screen[j] == 0u8,
            r@.key == None::<u8>,
            r@.timer == 0u8,
    {
        Bus { ram: Ram::new(), keyboard: Keyboard::new(), display: Display::new(), delay_timer: 0 }
    }

    pub fn ram_read_byte(&self, address: u16) -> (r: u8)
        requires
            self.wf(),
            address < MEMORY_SIZE,
        ensures
            r == self@.ram[address as int],
    {
        self.ram.read_byte(address)
    }

    pub fn ram_write_byte(&mut self, address: u16, value: u8)
        requires
            old(self).wf(),
            address < MEMORY_SIZE,
        ensures
            final(self).wf(),
            final(self)@ == (BusView {
                ram: old(self)@.ram.update(address as int, value),
                ..old(self)@
            }),
    {
        self.ram.write_byte(address, value);
    }

    /// XOR-blit one sprite row byte onto the screen; see
    /// [`crate::display::blit_row`].
    pub fn debug_draw_sprite(&mut self, byte: u8, x: u8, y: u8) -> (flipped: bool)
        requires
            old(self).wf(),
        ensures
            final(self).wf(),
            final(self)@ == (BusView { screen: blit_row(old(self)@.screen, byte, x, y), ..old(self)@ }),
            flipped == blit_collision(old(self)@.screen, byte, x, y),
    {
        self.display.debug_draw_sprite(byte, x, y)
    }

    pub fn get_key_pressed(&self) -> (r: Option<u8>)
        ensures
            r == self@.key,
    {
        self.keyboard.get_key_pressed()
    }

    pub fn set_key_pressed(&mut self, key_code: Option<u8>)
        ensures
            final(self)@ == (BusView { key: key_code, ..old(self)@ }),
            final(self).wf() == old(self).wf(),
    {
        self.keyboard.set_key_pressed(key_code);
    }

    /// A key counts as pressed exactly when it is the latched key.
    pub fn is_key_pressed(&self, key: u8) -> (r: bool)
        ensures
            r == (self@.key == Some(key)),
    {
        self.keyboard.is_key_pressed(key)
    }

    /// Set every pixel of the screen to 0.
    pub fn clear_screen(&mut self)
        requires
            old(self).wf(),
        ensures
            final(self).wf(),
            final(self)@.ram == old(self)@.ram,
            final(self)@.key == old(self)@.key,
            final(self)@.timer == old(self)@.timer,
            final(self)@.screen.len() == 2048,
            forall|j: int| 0 <= j < 2048 ==> final(self)@.screen[j] == 0u8,
    {
        self.display.clear_screen();
    }

    pub fn get_delay_timer(&self) -> (r: u8)
        ensures
            r == self@.timer,
    {
        self.delay_timer
    }

    pub fn set_delay_timer(&mut self, value: u8)
        ensures
            final(self)@ == (BusView { timer: value, ..old(self)@ }),
            final(self).wf() == old(self).wf(),
    {
        self.delay_timer = value;
    }

    /// One timer tick: decrement the delay timer by 1, floored at 0.
    pub fn tick(&mut self)
        ensures
            final(self)@ == (BusView { timer: tick_spec(old(self)@.timer), ..old(self)@ }),
            final(self).wf() == old(self).wf(),
    {
        if self.delay_timer > 0 {
            self.delay_timer = self.delay_timer - 1;
        }
    }

    /// Read-only view of the pixel grid, for presentation.
    pub fn get_display_buffer(&self) -> (r: &[u8])
        ensures
            r@ == self@.screen,
    {
        self.display.get_display_buffer()
    }
}

/// Law: the timer reaches its floor and stays there. After `k` ticks from any
/// starting value `t`, the timer reads `t - k` while `k < t` and 0 from then
/// on; it never wraps below zero.
pub proof fn lemma_timer_reaches_floor(t: u8, k: nat)
    ensures
        ticks(t, k) == if k < t {
            (t - k) as u8
        } else {
            0u8
        },
    decreases k,
{
    if k > 0 {
        lemma_timer_reaches_floor(t, (k - 1) as nat);
    }
}

} // verus!
