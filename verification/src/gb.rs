use vstd::prelude::*;
use crate::bus::{Bus, BusView};
use crate::cartridge::{Cartridge, cartridge_of};
use crate::cpu::Cpu;
use crate::cpu_spec::{step_spec, lemma_step_cycles, lemma_step_keeps_frame_inv};
use crate::joypad::{Joypad, JoypadButton};
use crate::ppu::{
    PpuView, entered_vblank, lemma_frame_ready_tracks_vblank, lemma_step_keeps_inv,
    lemma_stat_mode_bits,
};
use crate::timer::{lemma_disabled_timer_holds_tima, lemma_step_leaves_less_than_period};
use crate::{SCREEN_WIDTH, SCREEN_HEIGHT, CYCLES_PER_FRAME};

verus! {

/// Main Game Boy emulator
pub struct GameBoy {
    pub cpu: Cpu,
    pub bus: Bus,
}

/// The whole machine as mathematical values.
pub struct GameBoyView {
    pub cpu: Cpu,
    pub bus: BusView,
}

impl View for GameBoy {
    type V = GameBoyView;

    open spec fn view(&self) -> GameBoyView {
        GameBoyView { cpu: self.cpu, bus: self.bus@ }
    }
}

impl GameBoyView {
    /// The machine is well-formed and its frame invariant holds.
    pub open spec fn inv(self) -> bool {
        self.bus.wf() && self.bus.frame_inv()
    }

    /// The machine at power-on with the given ROM inserted.
    pub open spec fn initial(rom: Seq<u8>) -> GameBoyView {
        GameBoyView { cpu: Cpu::initial(), bus: BusView::initial(cartridge_of(rom)) }
    }
}

/// One round of the frame loop: a CPU step, then the timer and the PPU
/// run for the cycles it took, their interrupt requests and a pending
/// joypad interrupt are merged into IF. Returns the new machine and the
/// cycles taken.
pub open spec fn tick(g: GameBoyView) -> (GameBoyView, u32) {
    let (cpu, bus, cycles) = step_spec(g.cpu, g.bus);
    let timer = bus.timer.stepped(cycles);
    let if1 = if timer.interrupt { bus.if_reg | 0x04 } else { bus.if_reg };
    let ppu = bus.ppu.step(cycles);
    let if2 = if1 | ppu.interrupt_flags;
    let (if3, joypad) = if bus.joypad.interrupt {
        (if2 | 0x10, Joypad { interrupt: false, ..bus.joypad })
    } else {
        (if2, bus.joypad)
    };
    (GameBoyView { cpu, bus: BusView { timer, ppu, if_reg: if3, joypad, ..bus } }, cycles)
}

/// Cycles left in the frame after `done` cycles.
pub open spec fn cycles_left(done: nat) -> nat {
    if done < CYCLES_PER_FRAME {
        (CYCLES_PER_FRAME - done) as nat
    } else {
        0
    }
}

/// Whether the timer and the PPU can run the cycles of the next CPU step
/// without arithmetic overflow.
pub open spec fn tick_safe(g: GameBoyView) -> bool {
    let (cpu, bus, cycles) = step_spec(g.cpu, g.bus);
    &&& bus.timer.enabled() ==> bus.timer.timer_counter + cycles <= u32::MAX
    &&& bus.ppu.step_safe(cycles)
}

/// The frame loop from `done` cycles into the frame, with `ready` telling
/// whether the PPU has entered VBlank in an earlier round: rounds run
/// until a frame's worth of cycles (70224) has passed.
pub open spec fn run_from(g: GameBoyView, done: nat, ready: bool) -> (GameBoyView, bool)
    decreases cycles_left(done),
{
    if done >= CYCLES_PER_FRAME {
        (g, ready)
    } else {
        let (cpu, bus, _) = step_spec(g.cpu, g.bus);
        let (g2, cycles) = tick(g);
        proof {
            lemma_step_cycles(g.cpu, g.bus);
        }
        run_from(g2, (done + cycles) as nat, ready || entered_vblank(bus.ppu, g2.bus.ppu))
    }
}

/// Whether every round of the frame loop from `done` cycles on runs
/// without arithmetic overflow.
pub open spec fn run_safe(g: GameBoyView, done: nat) -> bool
    decreases cycles_left(done),
{
    if done >= CYCLES_PER_FRAME {
        true
    } else {
        let (g2, cycles) = tick(g);
        proof {
            lemma_step_cycles(g.cpu, g.bus);
        }
        tick_safe(g) && run_safe(g2, (done + cycles) as nat)
    }
}

/// The machine with the PPU's frame-ready flag lowered, as a frame starts.
pub open spec fn cleared(g: GameBoyView) -> GameBoyView {
    GameBoyView { bus: BusView { ppu: PpuView { frame_ready: false, ..g.bus.ppu }, ..g.bus }, ..g }
}

/// A frame's run: the machine after it, and whether the PPU entered
/// VBlank (finished drawing a frame) during it.
pub open spec fn run_frame_spec(g: GameBoyView) -> (GameBoyView, bool) {
    run_from(cleared(g), 0, false)
}

/// One round keeps the frame invariant and runs without overflow.
pub proof fn lemma_tick_keeps_frame_inv(g: GameBoyView)
    requires
        g.bus.frame_inv(),
    ensures
        tick_safe(g),
        tick(g).0.bus.frame_inv(),
{
    let (cpu, bus, cycles) = step_spec(g.cpu, g.bus);
    lemma_step_cycles(g.cpu, g.bus);
    lemma_step_keeps_frame_inv(g.cpu, g.bus);
    lemma_step_keeps_inv(bus.ppu, cycles);
    if bus.timer.enabled() {
        lemma_step_leaves_less_than_period(bus.timer, cycles);
    } else {
        lemma_disabled_timer_holds_tima(bus.timer, cycles);
    }
}

/// From a state that satisfies the frame invariant, every round of the
/// frame loop runs without overflow.
pub proof fn lemma_frame_inv_runs_safely(g: GameBoyView, done: nat)
    requires
        g.bus.frame_inv(),
    ensures
        run_safe(g, done),
    decreases cycles_left(done),
{
    if done < CYCLES_PER_FRAME {
        lemma_step_cycles(g.cpu, g.bus);
        lemma_tick_keeps_frame_inv(g);
        let (g2, cycles) = tick(g);
        lemma_frame_inv_runs_safely(g2, (done + cycles) as nat);
    }
}

/// A frame started from a state that satisfies the frame invariant (as
/// the power-on state does) runs without overflow.
pub proof fn lemma_frame_runs_safely(g: GameBoyView)
    requires
        g.bus.frame_inv(),
    ensures
        run_safe(cleared(g), 0),
{
    lemma_frame_inv_runs_safely(cleared(g), 0);
}

/// What one round of the frame loop does to the interrupt requests: IF
/// keeps every request it had after the CPU step and gains every request
/// of the round's PPU step (VBlank, LCD STAT), the timer request (bit 2)
/// when the timer overflowed, and the joypad request (bit 4) when one was
/// pending, which is then cleared; it gains no other bit. The timer and
/// PPU are those stepped by the cycles of the CPU step.
pub proof fn lemma_tick_requests(g: GameBoyView)
    ensures
        ({
            let (cpu, bus, cycles) = step_spec(g.cpu, g.bus);
            let t = bus.timer.stepped(cycles);
            let q = bus.ppu.step(cycles);
            let g2 = tick(g).0;
            let r = g2.bus.if_reg;
            &&& g2.cpu == cpu
            &&& g2.bus.timer == t
            &&& g2.bus.ppu == q
            &&& r & q.interrupt_flags == q.interrupt_flags
            &&& r & bus.if_reg == bus.if_reg
            &&& t.interrupt ==> r & 0x04 == 0x04
            &&& bus.joypad.interrupt ==> r & 0x10 == 0x10
            &&& !g2.bus.joypad.interrupt
            &&& r & !(bus.if_reg | q.interrupt_flags | 0x04 | 0x10) == 0
            &&& !t.interrupt && !bus.joypad.interrupt ==> r == bus.if_reg | q.interrupt_flags
        }),
{
    let (cpu, bus, cycles) = step_spec(g.cpu, g.bus);
    let t = bus.timer.stepped(cycles);
    let q = bus.ppu.step(cycles);
    let x = bus.if_reg;
    let f = q.interrupt_flags;
    assert({
        let if1 = x | 0x04;
        let if2 = if1 | f;
        &&& (if2 | 0x10) & f == f && (if2 | 0x10) & x == x && (if2 | 0x10) & 0x04 == 0x04
        &&& (if2 | 0x10) & 0x10 == 0x10 && (if2 | 0x10) & !(x | f | 0x04 | 0x10) == 0
        &&& if2 & f == f && if2 & x == x && if2 & 0x04 == 0x04 && if2 & !(x | f | 0x04 | 0x10) == 0
        &&& ((x | f) | 0x10) & f == f && ((x | f) | 0x10) & x == x && ((x | f) | 0x10) & 0x10 == 0x10
        &&& ((x | f) | 0x10) & !(x | f | 0x04 | 0x10) == 0
        &&& (x | f) & f == f && (x | f) & x == x && (x | f) & !(x | f | 0x04 | 0x10) == 0
    }) by (bit_vector);
}

/// The power-on state satisfies the frame invariant.
pub proof fn lemma_initial_inv(rom: Seq<u8>)
    ensures
        GameBoyView::initial(rom).bus.frame_inv(),
{
    lemma_stat_mode_bits(0, 0, 0);
    assert(0u8 & 0x03 == 0) by (bit_vector);
}

impl GameBoy {
    pub fn new(rom: Vec<u8>) -> (g: Self)
        requires
            rom@.len() >= 0x143,
        ensures
            g@ == GameBoyView::initial(rom@),
            g@.inv(),
    {
        let ghost rom_seq = rom@;
        let cartridge = Cartridge::new(rom);
        proof {
            lemma_initial_inv(rom_seq);
        }
        GameBoy { cpu: Cpu::new(), bus: Bus::new(cartridge) }
    }

    /// Run one frame (~70224 T-cycles). Returns true when frame is ready.
    pub fn run_frame(&mut self) -> (ready: bool)
        requires
            old(self)@.bus.wf(),
            run_safe(cleared(old(self)@), 0),
        ensures
            (final(self)@, ready) == run_frame_spec(old(self)@),
            final(self).bus.ppu.frame_ready == ready,
            final(self)@.bus.wf(),
            old(self)@.inv() ==> final(self)@.inv(),
    {
        let mut cycles_this_frame: u32 = 0;
        let mut frame_ready = false;
        self.bus.ppu.frame_ready = false;
        let ghost g0 = self@;

        while cycles_this_frame < CYCLES_PER_FRAME
            invariant
                self@.bus.wf(),
                g0.inv() ==> self@.inv(),
                cycles_this_frame < CYCLES_PER_FRAME + 24,
                run_safe(self@, cycles_this_frame as nat),
                run_from(self@, cycles_this_frame as nat, frame_ready) == run_from(g0, 0, false),
                frame_ready == self.bus.ppu.frame_ready,
            decreases cycles_left(cycles_this_frame as nat),
        {
            let ghost g1 = self@;
            let cycles = self.cpu.step(&mut self.bus);
            cycles_this_frame += cycles;

            // Update timer
            proof {
                if self.bus.timer.enabled() {
                    lemma_step_leaves_less_than_period(self.bus.timer, cycles);
                }
            }
            self.bus.timer.step(cycles);
            if self.bus.timer.interrupt {
                self.bus.if_reg |= 0x04;  // Timer interrupt
            }

            // Update PPU
            proof {
                lemma_frame_ready_tracks_vblank(self.bus.ppu@, cycles);
                if g0.inv() {
                    lemma_step_keeps_inv(self.bus.ppu@, cycles);
                }
            }
            self.bus.ppu.step(cycles);
            self.bus.if_reg |= self.bus.ppu.interrupt_flags;
            if self.bus.ppu.frame_ready {
                frame_ready = true;
            }

            // Joypad interrupt
            if self.bus.joypad.interrupt {
                self.bus.if_reg |= 0x10;
                self.bus.joypad.interrupt = false;
            }
            assert(self@ == tick(g1).0);
        }

        frame_ready
    }

    /// Get framebuffer as RGBA bytes
    pub fn framebuffer(&self) -> (fb: &[u8])
        ensures
            fb@ == self.bus.ppu.framebuffer@,
    {
        &self.bus.ppu.framebuffer
    }

    /// Get screen dimensions
    pub fn screen_size(&self) -> (size: (usize, usize))
        ensures
            size == (160usize, 144usize),
    {
        (SCREEN_WIDTH, SCREEN_HEIGHT)
    }

    /// Get ROM title
    pub fn title(&self) -> (t: &str)
        ensures
            t@ == self.bus.cartridge.title@,
    {
        self.bus.cartridge.title.as_str()
    }

    pub fn press(&mut self, button: JoypadButton)
        ensures
            final(self)@ == (GameBoyView {
                bus: BusView { joypad: old(self).bus.joypad.pressed(button), ..old(self)@.bus },
                ..old(self)@
            }),
    {
        self.bus.joypad.press(button);
    }

    pub fn release(&mut self, button: JoypadButton)
        ensures
            final(self)@ == (GameBoyView {
                bus: BusView { joypad: old(self).bus.joypad.released(button), ..old(self)@.bus },
                ..old(self)@
            }),
    {
        self.bus.joypad.release(button);
    }
}

} // verus!
