use vstd::prelude::*;

verus! {

/// Game Boy Timer — DIV, TIMA, TMA, TAC
pub struct Timer {
    /// Internal divider counter (incremented every T-cycle)
    pub div_counter: u16,
    /// Timer counter (0xFF05)
    pub tima: u8,
    /// Timer modulo (0xFF06)
    pub tma: u8,
    /// Timer control (0xFF07)
    pub tac: u8,
    /// Internal timer counter: T-cycles not yet turned into TIMA ticks
    pub timer_counter: u32,
    /// Interrupt flag
    pub interrupt: bool,
}

/// TIMA and the overflow flag after one tick: TIMA counts up, and on
/// overflow is reloaded from TMA and requests the timer interrupt.
pub open spec fn tick(tima: u8, tma: u8) -> (u8, bool) {
    if tima == 255 {
        (tma, true)
    } else {
        ((tima + 1) as u8, false)
    }
}

/// Spends `counter` T-cycles in ticks of `period` cycles each: the cycles
/// left over, TIMA after the ticks, and whether an overflow happened
/// (or `irq` was already set).
pub open spec fn run_ticks(counter: nat, period: nat, tima: u8, tma: u8, irq: bool) -> (nat, u8, bool)
    decreases counter,
{
    if period == 0 || counter < period {
        (counter, tima, irq)
    } else {
        let (t, o) = tick(tima, tma);
        run_ticks((counter - period) as nat, period, t, tma, irq || o)
    }
}

impl Timer {
    /// The DIV register: the upper 8 bits of the internal divider.
    pub open spec fn div_spec(&self) -> u8 {
        (self.div_counter >> 8) as u8
    }

    /// Whether TAC bit 2 enables TIMA.
    pub open spec fn enabled(&self) -> bool {
        self.tac & 0x04 != 0
    }

    /// T-cycles per TIMA tick, from TAC bits 0-1.
    pub open spec fn period(&self) -> u32 {
        let sel = self.tac & 0x03;
        if sel == 0 {
            1024
        } else if sel == 1 {
            16
        } else if sel == 2 {
            64
        } else {
            256
        }
    }

    /// The timer after `cycles` T-cycles: DIV advances (wrapping), the
    /// interrupt flag is cleared, and when enabled the cycles are turned
    /// into TIMA ticks of one period each.
    pub open spec fn stepped(self, cycles: u32) -> Timer {
        let t0 = Timer {
            interrupt: false,
            div_counter: self.div_counter.wrapping_add(cycles as u16),
            ..self
        };
        if !self.enabled() {
            t0
        } else {
            let (rest, tima, irq) = run_ticks(
                (self.timer_counter + cycles) as nat,
                self.period() as nat,
                self.tima,
                self.tma,
                false,
            );
            Timer { timer_counter: rest as u32, tima, interrupt: irq, ..t0 }
        }
    }

    /// The timer right after reset_div.
    pub open spec fn with_div_reset(self) -> Timer {
        Timer { div_counter: 0, ..self }
    }

    /// The state after the boot ROM: DIV counter at 0xABCC, TIMA stopped.
    pub open spec fn initial() -> Timer {
        Timer { div_counter: 0xABCC, tima: 0, tma: 0, tac: 0, timer_counter: 0, interrupt: false }
    }

    pub fn new() -> (t: Self)
        ensures
            t == Timer::initial(),
    {
        Timer { div_counter: 0xABCC, tima: 0, tma: 0, tac: 0, timer_counter: 0, interrupt: false }
    }

    /// DIV register (upper 8 bits of internal counter)
    pub fn div(&self) -> (r: u8)
        ensures
            r == self.div_spec(),
    {
        (self.div_counter >> 8) as u8
    }

    /// Reset DIV
    pub fn reset_div(&mut self)
        ensures
            *final(self) == old(self).with_div_reset(),
    {
        self.div_counter = 0;
    }

    fn timer_enabled(&self) -> (r: bool)
        ensures
            r == self.enabled(),
    {
        self.tac & 0x04 != 0
    }

    fn clock_select(&self) -> (r: u32)
        ensures
            r == self.period(),
    {
        match self.tac & 0x03 {
            0 => 1024,  // 4096 Hz
            1 => 16,  // 262144 Hz
            2 => 64,  // 65536 Hz
            _ => 256,  // 16384 Hz
        }
    }

    /// Step timer by T-cycles
    pub fn step(&mut self, cycles: u32)
        requires
            old(self).enabled() ==> old(self).timer_counter + cycles <= u32::MAX,
        ensures
            *final(self) == old(self).stepped(cycles),
    {
        let ghost t_old = *self;
        self.interrupt = false;
        self.div_counter = self.div_counter.wrapping_add(cycles as u16);

        if !self.timer_enabled() {
            return;
        }

        self.timer_counter += cycles;
        let freq = self.clock_select();

        while self.timer_counter >= freq
            invariant
                freq == t_old.period(),
                freq > 0,
                self.tma == t_old.tma,
                self.tac == t_old.tac,
                self.div_counter == t_old.div_counter.wrapping_add(cycles as u16),
                run_ticks(self.timer_counter as nat, freq as nat, self.tima, self.tma, self.interrupt)
                    == run_ticks((t_old.timer_counter + cycles) as nat, freq as nat, t_old.tima, t_old.tma, false),
            decreases self.timer_counter,
        {
            self.timer_counter -= freq;
            if self.tima == 255 {
                self.tima = self.tma;
                self.interrupt = true;
            } else {
                self.tima = self.tima + 1;
            }
        }
    }
}

/// After `run_ticks`, fewer cycles than one period are left over.
pub proof fn lemma_run_ticks_rest(counter: nat, period: nat, tima: u8, tma: u8, irq: bool)
    requires
        period > 0,
    ensures
        run_ticks(counter, period, tima, tma, irq).0 < period,
    decreases counter,
{
    if counter >= period {
        let (t, o) = tick(tima, tma);
        lemma_run_ticks_rest((counter - period) as nat, period, t, tma, irq || o);
    }
}

/// A running timer never keeps a full period of cycles unspent: after a
/// step with TIMA enabled, the internal counter is below the period, and
/// so below 1024.
pub proof fn lemma_step_leaves_less_than_period(t: Timer, cycles: u32)
    requires
        t.enabled(),
    ensures
        t.stepped(cycles).timer_counter < t.period(),
        t.stepped(cycles).timer_counter < 1024,
{
    lemma_run_ticks_rest((t.timer_counter + cycles) as nat, t.period() as nat, t.tima, t.tma, false);
}

/// A write to DIV resets it: right after, DIV reads 0, and the rest of
/// the timer is untouched.
pub proof fn lemma_div_reset_reads_zero(t: Timer)
    ensures
        t.with_div_reset().div_spec() == 0,
        t.with_div_reset().tima == t.tima,
        t.with_div_reset().timer_counter == t.timer_counter,
{
    assert((0u16 >> 8) as u8 == 0) by (bit_vector);
}

/// While TAC bit 2 is clear, TIMA does not move and no timer interrupt
/// is requested.
pub proof fn lemma_disabled_timer_holds_tima(t: Timer, cycles: u32)
    requires
        !t.enabled(),
    ensures
        t.stepped(cycles).tima == t.tima,
        t.stepped(cycles).timer_counter == t.timer_counter,
        !t.stepped(cycles).interrupt,
{
}

/// TIMA advances once per period: `counter` cycles make `counter / period`
/// ticks and leave `counter % period` over, as long as TIMA does not pass
/// 0xFF on the way.
pub proof fn lemma_ticks_per_period(counter: nat, period: nat, tima: u8, tma: u8, irq: bool)
    requires
        period > 0,
        tima + counter / period <= 255,
    ensures
        run_ticks(counter, period, tima, tma, irq) == (counter % period, (tima + counter / period) as u8, irq),
    decreases counter,
{
    if counter >= period {
        let c2 = (counter - period) as nat;
        assert(c2 / period == counter / period - 1 && c2 % period == counter % period) by (nonlinear_arith)
            requires
                counter >= period,
                period > 0,
                c2 == counter - period,
        {
            vstd::arithmetic::div_mod::lemma_fundamental_div_mod(counter as int, period as int);
            vstd::arithmetic::div_mod::lemma_fundamental_div_mod(c2 as int, period as int);
        }
        lemma_ticks_per_period(c2, period, (tima + 1) as u8, tma, irq);
    } else {
        assert(counter / period == 0 && counter % period == counter) by (nonlinear_arith)
            requires
                counter < period,
        ;
    }
}

/// Whether a tick overflowed on the way does not change what the ticks
/// do: only the overflow flag carries it along.
pub proof fn lemma_run_ticks_irq(counter: nat, period: nat, tima: u8, tma: u8, irq: bool)
    ensures
        ({
            let (r, t, o) = run_ticks(counter, period, tima, tma, false);
            run_ticks(counter, period, tima, tma, irq) == (r, t, irq || o)
        }),
    decreases counter,
{
    if period != 0 && counter >= period {
        let (t, o) = tick(tima, tma);
        lemma_run_ticks_irq((counter - period) as nat, period, t, tma, irq || o);
        lemma_run_ticks_irq((counter - period) as nat, period, t, tma, o);
    }
}

/// Spending `n` cycles and then, with what is left over, `m` more does
/// the same as spending `n + m` cycles at once.
pub proof fn lemma_run_ticks_split(n: nat, m: nat, period: nat, tima: u8, tma: u8, irq: bool)
    ensures
        ({
            let (r, t, o) = run_ticks(n, period, tima, tma, irq);
            run_ticks(r + m, period, t, tma, o) == run_ticks(n + m, period, tima, tma, irq)
        }),
    decreases n,
{
    if period != 0 && n >= period {
        let (t, o) = tick(tima, tma);
        lemma_run_ticks_split((n - period) as nat, m, period, t, tma, irq || o);
        assert((n + m - period) as nat == ((n - period) as nat + m) as nat);
    }
}

/// Splitting a step in two changes neither TIMA nor DIV, nor the rest of
/// the timer: stepping `a` cycles and then `b` gives the timer that one
/// step of `a + b` gives, and the interrupt flag of the single step is
/// raised exactly when one of the two raised it.
pub proof fn lemma_split_step(t: Timer, a: u32, b: u32)
    requires
        a + b <= u32::MAX,
    ensures
        t.stepped(a).stepped(b) == (Timer {
            interrupt: t.stepped(a).stepped(b).interrupt,
            ..t.stepped((a + b) as u32)
        }),
        t.stepped((a + b) as u32).interrupt == (t.stepped(a).interrupt || t.stepped(a).stepped(b).interrupt),
        t.stepped(a).stepped(b).tima == t.stepped((a + b) as u32).tima,
        t.stepped(a).stepped(b).div_spec() == t.stepped((a + b) as u32).div_spec(),
{
    let d = t.div_counter;
    assert(d.wrapping_add(a as u16).wrapping_add(b as u16) == d.wrapping_add(((a + b) as u32) as u16))
        by (bit_vector)
        requires
            a + b <= 0xFFFF_FFFF,
    ;
    if t.enabled() {
        let n = (t.timer_counter + a) as nat;
        let p = t.period() as nat;
        let (r, t1, o1) = run_ticks(n, p, t.tima, t.tma, false);
        lemma_run_ticks_rest(n, p, t.tima, t.tma, false);
        lemma_run_ticks_split(n, b as nat, p, t.tima, t.tma, false);
        lemma_run_ticks_irq((r + b) as nat, p, t1, t.tma, o1);
    }
}

/// T-cycles per TIMA tick as TAC bits 1-0 select them: 1024 (4096 Hz),
/// 16 (262144 Hz), 64 (65536 Hz), 256 (16384 Hz).
pub open spec fn tick_cycles(tac: u8) -> int {
    let sel = tac % 4;
    if sel == 0 {
        1024
    } else if sel == 1 {
        16
    } else if sel == 2 {
        64
    } else {
        256
    }
}

/// How a step of `cycles` T-cycles moves the timer. The divider counts
/// every cycle, modulo 2^16. With TAC bit 2 clear TIMA, the spare-cycle
/// counter and the interrupt stay quiet. With it set, the spare cycles
/// plus `cycles` make one TIMA tick per period of `tick_cycles(TAC)`
/// cycles, the rest staying spare: without an overflow TIMA simply grows
/// by the number of ticks and no interrupt is requested; when TIMA is 0xFF
/// and exactly one tick happens, TIMA is reloaded from TMA and the timer
/// interrupt is requested.
pub proof fn lemma_timer_step(t: Timer, cycles: u32)
    ensures
        ({
            let u = t.stepped(cycles);
            let total = t.timer_counter + cycles;
            let p = tick_cycles(t.tac);
            &&& u.div_counter == (t.div_counter + cycles) % 65536
            &&& u.tma == t.tma && u.tac == t.tac
            &&& t.tac & 0x04 == 0 ==> u.tima == t.tima && u.timer_counter == t.timer_counter && !u.interrupt
            &&& (t.tac & 0x04 != 0 && t.tima + total / p <= 255) ==> u.tima == t.tima + total / p
                && u.timer_counter == total % p && !u.interrupt
            &&& (t.tac & 0x04 != 0 && t.tima == 255 && p <= total < 2 * p) ==> u.tima == t.tma
                && u.timer_counter == total - p && u.interrupt
        }),
{
    let tac = t.tac;
    assert((tac & 0x03) == tac % 4) by (bit_vector);
    let d = t.div_counter;
    assert(d.wrapping_add(cycles as u16) == (d + cycles) % 65536) by (bit_vector);
    let total = (t.timer_counter + cycles) as nat;
    let p = t.period() as nat;
    if t.tac & 0x04 != 0 {
        if t.tima + total / p <= 255 {
            lemma_ticks_per_period(total, p, t.tima, t.tma, false);
        }
        if t.tima == 255 && p <= total < 2 * p {
            reveal_with_fuel(run_ticks, 2);
            let rest = (total - p) as nat;
            assert(rest < p);
        }
    }
}

} // verus!
