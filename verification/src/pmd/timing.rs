use vstd::prelude::*;

verus! {

broadcast use crate::bits::group_bit_bounds;

pub const FIXED_TIME_SHIFT: u32 = 48;
pub const FIXED_TIME_ONE: u128 = 0x1_0000_0000_0000;
pub const MICROSECONDS_PER_SECOND: u128 = 1_000_000;
pub const REDUCED_MICROSECONDS_PER_SECOND: u128 = 15_625;
pub const TIMER_OPERATORS: u64 = 24;
pub const DEFAULT_PRESCALE: u32 = 6;
pub const DEFAULT_TIMER_B: u8 = 200;
pub const DEFAULT_MEASURE_LENGTH: u32 = 96;
pub const TEMPO_CONSTANT: u32 = 0x112c;
pub const OPNA_CLOCK_HZ: u32 = 7_987_200;

/// The quarter-note tempo that a timer B value gives, rounded to nearest
/// and capped at 255.
pub open spec fn quarter_of(timer_b: u8) -> u8 {
    let denominator = 256 - timer_b;
    let value = ((TEMPO_CONSTANT * 2 / denominator) + 1) / 2;
    if value > 255 { 255 } else { value as u8 }
}

/// The timer B value for a quarter-note tempo (0 below 18).
pub open spec fn timer_b_of(quarter: u8) -> u8 {
    if quarter < 18 {
        0
    } else {
        let value = 256 - TEMPO_CONSTANT / (quarter as u32);
        (if TEMPO_CONSTANT % (quarter as u32) >= 128 { value - 1 } else { value }) as u8
    }
}

pub fn timer_b_to_quarter(timer_b: u8) -> (quarter: u8)
    ensures
        quarter == quarter_of(timer_b),
{
    let denominator = 256u32 - timer_b as u32;
    let value = (TEMPO_CONSTANT * 2 / denominator + 1) / 2;
    if value > 255 {
        255
    } else {
        value as u8
    }
}

pub fn quarter_to_timer_b(quarter: u8) -> (timer_b: u8)
    ensures
        timer_b == timer_b_of(quarter),
{
    if quarter < 18 {
        return 0;
    }
    let quarter = quarter as u32;
    assert(17 <= TEMPO_CONSTANT / quarter <= 244) by (nonlinear_arith)
        requires 18 <= quarter <= 255, TEMPO_CONSTANT == 0x112c;
    let mut value = 256 - TEMPO_CONSTANT / quarter;
    if TEMPO_CONSTANT % quarter >= 128 {
        value = value - 1;
    }
    value as u8
}

/// The song tempo, kept both as timer B value and quarter-note rate; the
/// saved copies are what relative changes start from.
#[derive(Clone, Copy, Debug, PartialEq, Eq, Structural)]
pub struct Tempo {
    pub timer_b: u8,
    pub timer_b_saved: u8,
    pub quarter: u8,
    pub quarter_saved: u8,
}

/// A tempo set through its timer B value.
pub open spec fn tempo_from_timer_b(value: u8) -> Tempo {
    Tempo { timer_b: value, timer_b_saved: value, quarter: quarter_of(value), quarter_saved: quarter_of(value) }
}

/// A tempo set through its quarter-note rate.
pub open spec fn tempo_from_quarter(value: u8) -> Tempo {
    Tempo { timer_b: timer_b_of(value), timer_b_saved: timer_b_of(value), quarter: value, quarter_saved: value }
}

impl Tempo {
    pub fn new() -> (tempo: Self)
        ensures
            tempo == tempo_from_timer_b(DEFAULT_TIMER_B),
    {
        let timer_b = DEFAULT_TIMER_B;
        let quarter = timer_b_to_quarter(timer_b);
        Tempo { timer_b, timer_b_saved: timer_b, quarter, quarter_saved: quarter }
    }

    pub fn timer_b(self) -> (value: u8)
        ensures
            value == self.timer_b,
    {
        self.timer_b
    }

    pub fn quarter(self) -> (value: u8)
        ensures
            value == self.quarter,
    {
        self.quarter
    }

    /// Sets timer B (capped at 250) and the matching quarter rate.
    pub fn set_timer_b(&mut self, value: u8)
        ensures
            *final(self) == tempo_from_timer_b(if value > 250 { 250 } else { value }),
    {
        let value = if value > 250 { 250 } else { value };
        self.timer_b = value;
        self.timer_b_saved = value;
        self.quarter = timer_b_to_quarter(value);
        self.quarter_saved = self.quarter;
    }

    /// Sets the quarter rate (at least 18) and the matching timer B value.
    pub fn set_quarter(&mut self, value: u8)
        ensures
            *final(self) == tempo_from_quarter(if value < 18 { 18 } else { value }),
    {
        let value = if value < 18 { 18 } else { value };
        self.quarter = value;
        self.quarter_saved = value;
        self.timer_b = quarter_to_timer_b(value);
        self.timer_b_saved = self.timer_b;
    }

    /// Moves timer B from its saved value, staying within 0..=250.
    pub fn adjust_timer_b(&mut self, delta: i8)
        ensures
            *final(self) == tempo_from_timer_b(
                crate::opna::adpcm::clamp_spec(old(self).timer_b_saved + delta, 0, 250) as u8,
            ),
    {
        let sum = self.timer_b_saved as i16 + delta as i16;
        let value = (if sum < 0 { 0 } else if sum > 250 { 250 } else { sum }) as u8;
        self.timer_b = value;
        self.timer_b_saved = value;
        self.quarter = timer_b_to_quarter(value);
        self.quarter_saved = self.quarter;
    }

    /// Moves the quarter rate from its saved value, staying within 18..=255.
    pub fn adjust_quarter(&mut self, delta: i8)
        ensures
            *final(self) == tempo_from_quarter(
                crate::opna::adpcm::clamp_spec(old(self).quarter_saved + delta, 18, 255) as u8,
            ),
    {
        let sum = self.quarter_saved as i16 + delta as i16;
        let value = (if sum < 18 { 18 } else if sum > 255 { 255 } else { sum }) as u8;
        self.quarter = value;
        self.quarter_saved = value;
        self.timer_b = quarter_to_timer_b(value);
        self.timer_b_saved = self.timer_b;
    }
}

/// Which timers have overflowed.
#[derive(Clone, Copy, Debug, PartialEq, Eq, Structural)]
pub struct TimerStatus {
    pub timer_a: bool,
    pub timer_b: bool,
}

impl Default for TimerStatus {
    fn default() -> (status: Self)
        ensures
            status == (TimerStatus { timer_a: false, timer_b: false }),
    {
        TimerStatus { timer_a: false, timer_b: false }
    }
}

impl TimerStatus {
    pub fn from_bits(bits: u8) -> (status: Self)
        ensures
            status == (TimerStatus { timer_a: bits & 1 != 0, timer_b: bits & 2 != 0 }),
    {
        TimerStatus { timer_a: bits & 0x01 != 0, timer_b: bits & 0x02 != 0 }
    }
}

/// A position in the song: measure and tick within it.
#[derive(Clone, Copy, Debug, PartialEq, Eq, Structural)]
pub struct SongPosition {
    pub measure: u32,
    pub tick: u32,
}

impl Default for SongPosition {
    fn default() -> (position: Self)
        ensures
            position == (SongPosition { measure: 0, tick: 0 }),
    {
        SongPosition { measure: 0, tick: 0 }
    }
}

/// The position one tick later.
pub open spec fn advanced(p: SongPosition, measure_length: u32) -> SongPosition {
    if p.tick + 1 == measure_length {
        SongPosition { measure: vstd::wrapping::u32_specs::wrapping_add(p.measure, 1), tick: 0 }
    } else {
        SongPosition { measure: p.measure, tick: (p.tick + 1) as u32 }
    }
}

impl SongPosition {
    pub fn advance(&mut self, measure_length: u32)
        requires
            old(self).tick < u32::MAX,
        ensures
            *final(self) == advanced(*old(self), measure_length),
    {
        if self.tick + 1 == measure_length {
            self.measure = self.measure.wrapping_add(1);
            self.tick = 0;
        } else {
            self.tick = self.tick + 1;
        }
    }

    /// The number of ticks since the start (wrapping at 32 bits).
    pub fn count(self, measure_length: u32) -> (count: u32)
        ensures
            count == vstd::wrapping::u32_specs::wrapping_add(
                vstd::wrapping::u32_specs::wrapping_mul(self.measure, measure_length),
                self.tick,
            ),
    {
        self.measure.wrapping_mul(measure_length).wrapping_add(self.tick)
    }
}


/// The YM2608's two interval timers, counted in 2^-48 second units.
#[derive(Clone, Copy, Debug)]
pub struct TimerClock {
    pub clock_hz: u32,
    pub prescale: u32,
    pub timer_a_value: u16,
    pub timer_b_value: u8,
    pub mode: u8,
    pub status: u8,
    pub running: [bool; 2],
    pub periods: [u64; 2],
    pub counts: [i64; 2],
}

/// A timer's period in fixed-point time: its length in chip clocks (24
/// operator slots per step, times the prescaler) scaled by the clock rate.
pub open spec fn period_spec(t: TimerClock, timer: int, delta_clocks: int) -> int {
    let base = if timer == 0 { 1024 - t.timer_a_value } else { 16 * (256 - t.timer_b_value) };
    let clocks = (base + delta_clocks) * 24 * t.prescale;
    (clocks * 0x800_0000_0000 / (t.clock_hz as int)) * 32
}

/// The stored period: capped at the largest signed 64-bit value.
pub open spec fn capped_period(t: TimerClock, timer: int, delta_clocks: int) -> u64 {
    let p = period_spec(t, timer, delta_clocks);
    (if p > i64::MAX { i64::MAX as int } else { p }) as u64
}

/// Microseconds in fixed-point time.
pub open spec fn fixed_us(microseconds: u32) -> int {
    microseconds * 0x400_0000_0000 / 15625
}

/// A timer's count after counting down for some microseconds (only while
/// its count bit is set and it has time left).
pub open spec fn counted(t: TimerClock, timer: int, count_bit: u8, microseconds: u32) -> int {
    if t.mode & count_bit != 0 && t.counts@[timer] > 0 {
        t.counts@[timer] - fixed_us(microseconds)
    } else {
        t.counts@[timer] as int
    }
}

/// Whether a timer expires while counting down, with its flag enabled.
pub open spec fn fires(t: TimerClock, timer: int, count_bit: u8, enable_bit: u8, microseconds: u32) -> bool {
    t.mode & enable_bit != 0 && counted(t, timer, count_bit, microseconds) < 0
}

/// The state of one timer: running, period, count.
pub open spec fn timer_fields(t: TimerClock, timer: int) -> (bool, u64, i64) {
    (t.running@[timer], t.periods@[timer], t.counts@[timer])
}

/// A timer's state after its load bit is written: loading starts a stopped
/// timer from its full period; clearing the bit stops and clears it.
pub open spec fn loaded_fields(t: TimerClock, timer: int, load: bool, delta_clocks: int) -> (bool, u64, i64) {
    if load && !t.running@[timer] {
        let p = capped_period(t, timer, delta_clocks);
        (true, p, p as i64)
    } else if !load {
        (false, 0u64, 0i64)
    } else {
        timer_fields(t, timer)
    }
}

/// The shortest time, in microseconds rounded up, until a running timer
/// expires (0 when none is counting down), capped at 32 bits.
pub open spec fn next_event_spec(t: TimerClock) -> u32 {
    let c0 = t.counts@[0];
    let c1 = t.counts@[1];
    if c0 <= 0 && c1 <= 0 {
        0
    } else {
        let count = if c0 > 0 && (c1 <= 0 || c0 <= c1) { c0 } else { c1 };
        let fixed = (count + 281_474_976) * 15625 / 0x400_0000_0000;
        if fixed > u32::MAX { u32::MAX } else { fixed as u32 }
    }
}

impl TimerClock {
    pub open spec fn wf(&self) -> bool {
        &&& self.clock_hz > 0
        &&& (self.prescale == 2 || self.prescale == 3 || self.prescale == 6)
        &&& self.timer_a_value <= 0x3ff
        &&& forall|i: int| 0 <= i < 2 ==> #[trigger] self.periods@[i] <= i64::MAX
        &&& forall|i: int| 0 <= i < 2 ==> -0x2000_0000_0000_0000 <= #[trigger] self.counts@[i]
    }

    /// Timers for a chip clock and prescaler (2, 3 or 6); `None` otherwise.
    pub fn new(clock_hz: u32, prescale: u32) -> (timers: Option<Self>)
        ensures
            timers is Some <==> (clock_hz != 0 && (prescale == 2 || prescale == 3 || prescale == 6)),
            timers matches Some(t) ==> {
                &&& t.wf()
                &&& t.clock_hz == clock_hz && t.prescale == prescale
                &&& t.timer_a_value == 0 && t.timer_b_value == 0 && t.mode == 0 && t.status == 0
                &&& t.running@ == seq![false, false]
                &&& t.periods@ == seq![0u64, 0]
                &&& t.counts@ == seq![0i64, 0]
            },
    {
        if clock_hz == 0 || !(prescale == 2 || prescale == 3 || prescale == 6) {
            return None;
        }
        let t = TimerClock {
            clock_hz,
            prescale,
            timer_a_value: 0,
            timer_b_value: 0,
            mode: 0,
            status: 0,
            running: [false, false],
            periods: [0, 0],
            counts: [0, 0],
        };
        assert(t.running@ =~= seq![false, false]);
        assert(t.periods@ =~= seq![0u64, 0]);
        assert(t.counts@ =~= seq![0i64, 0]);
        Some(t)
    }

    pub fn reset(&mut self)
        requires
            old(self).wf(),
        ensures
            final(self).wf(),
            final(self).clock_hz == old(self).clock_hz,
            final(self).prescale == old(self).prescale,
            final(self).timer_a_value == 0 && final(self).timer_b_value == 0,
            final(self).mode == 0 && final(self).status == 0,
            final(self).running@ == seq![false, false],
            final(self).periods@ == seq![0u64, 0],
            final(self).counts@ == seq![0i64, 0],
    {
        self.timer_a_value = 0;
        self.timer_b_value = 0;
        self.mode = 0;
        self.status = 0;
        self.running = [false, false];
        self.periods = [0, 0];
        self.counts = [0, 0];
        assert(self.running@ =~= seq![false, false]);
        assert(self.periods@ =~= seq![0u64, 0]);
        assert(self.counts@ =~= seq![0i64, 0]);
    }

    /// Sets timer A's 10-bit value (higher bits are dropped).
    pub fn set_timer_a_value(&mut self, value: u16)
        requires
            old(self).wf(),
        ensures
            final(self).wf(),
            *final(self) == (TimerClock { timer_a_value: value & 0x3ff, ..*old(self) }),
    {
        self.timer_a_value = value & 0x03ff;
    }

    pub fn set_timer_b_value(&mut self, value: u8)
        requires
            old(self).wf(),
        ensures
            final(self).wf(),
            *final(self) == (TimerClock { timer_b_value: value, ..*old(self) }),
    {
        self.timer_b_value = value;
    }

    pub fn timer_a_value(&self) -> (value: u16)
        ensures
            value == self.timer_a_value,
    {
        self.timer_a_value
    }

    pub fn timer_b_value(&self) -> (value: u8)
        ensures
            value == self.timer_b_value,
    {
        self.timer_b_value
    }

    pub fn mode(&self) -> (mode: u8)
        ensures
            mode == self.mode,
    {
        self.mode
    }

    pub fn status(&self) -> (status: TimerStatus)
        ensures
            status == (TimerStatus { timer_a: self.status & 1 != 0, timer_b: self.status & 2 != 0 }),
    {
        TimerStatus::from_bits(self.status)
    }

    pub fn period(&self, timer: usize) -> (period: u64)
        requires
            timer < 2,
        ensures
            period == self.periods@[timer as int],
    {
        self.periods[timer]
    }

    fn period_for(&self, timer: usize, delta_clocks: i64) -> (period: u128)
        requires
            self.wf(),
            timer < 2,
            -15 <= delta_clocks <= 0,
            timer == 0 ==> delta_clocks == 0,
        ensures
            period == period_spec(*self, timer as int, delta_clocks as int),
            period <= 0x8_0000_0000_0000_0000_0000,
    {
        let base: u64 = if timer == 0 { 1024 - self.timer_a_value as u64 } else { 16 * (256 - self.timer_b_value as u64) };
        let duration: u64 = base - ((-delta_clocks) as u64);
        assert(duration <= 4096);
        let clocks = duration * TIMER_OPERATORS * self.prescale as u64;
        assert(clocks <= 589824) by (nonlinear_arith)
            requires clocks == duration * 24 * self.prescale, duration <= 4096, self.prescale <= 6;
        let numerator = (clocks as u128) * 0x800_0000_0000;
        let divisor = self.clock_hz as u128;
        let scaled = numerator / divisor;
        assert(scaled <= numerator) by (nonlinear_arith)
            requires scaled == numerator / divisor, divisor >= 1;
        scaled * 32
    }

    fn update_timer(&mut self, timer: usize, load: bool, delta_clocks: i64)
        requires
            old(self).wf(),
            timer < 2,
            -15 <= delta_clocks <= 0,
            timer == 0 ==> delta_clocks == 0,
        ensures
            final(self).wf(),
            timer_fields(*final(self), timer as int) == loaded_fields(*old(self), timer as int, load, delta_clocks as int),
            timer_fields(*final(self), 1 - timer) == timer_fields(*old(self), 1 - timer),
            final(self).clock_hz == old(self).clock_hz,
            final(self).prescale == old(self).prescale,
            final(self).timer_a_value == old(self).timer_a_value,
            final(self).timer_b_value == old(self).timer_b_value,
            final(self).mode == old(self).mode,
            final(self).status == old(self).status,
    {
        if load && !self.running[timer] {
            let period = self.period_for(timer, delta_clocks);
            let capped = if period > 0x7fff_ffff_ffff_ffff { 0x7fff_ffff_ffff_ffffu64 } else { period as u64 };
            self.periods[timer] = capped;
            self.counts[timer] = capped as i64;
            self.running[timer] = true;
        } else if !load {
            self.periods[timer] = 0;
            self.counts[timer] = 0;
            self.running[timer] = false;
        }
    }

    fn reload(&mut self, timer: usize)
        requires
            old(self).wf(),
            timer < 2,
        ensures
            final(self).wf(),
            final(self).periods@[timer as int] == capped_period(*old(self), timer as int, 0),
            final(self).counts@[timer as int] == capped_period(*old(self), timer as int, 0) as i64,
            final(self).running == old(self).running,
            final(self).periods@[1 - timer] == old(self).periods@[1 - timer],
            final(self).counts@[1 - timer] == old(self).counts@[1 - timer],
            final(self).clock_hz == old(self).clock_hz,
            final(self).prescale == old(self).prescale,
            final(self).timer_a_value == old(self).timer_a_value,
            final(self).timer_b_value == old(self).timer_b_value,
            final(self).mode == old(self).mode,
            final(self).status == old(self).status,
    {
        let period = self.period_for(timer, 0);
        let capped = if period > 0x7fff_ffff_ffff_ffff { 0x7fff_ffff_ffff_ffffu64 } else { period as u64 };
        self.periods[timer] = capped;
        if capped == 0 {
            self.counts[timer] = 0;
            return;
        }
        self.counts[timer] = capped as i64;
    }

    /// Writes the mode register: bits 4 and 5 clear the flags, bits 0 and 1
    /// load (start) or stop timers A and B; timer B's first period is
    /// shortened by `total_clocks & 15` steps.
    pub fn write_mode(&mut self, mode: u8, total_clocks: u8)
        requires
            old(self).wf(),
        ensures
            final(self).wf(),
            final(self).mode == mode,
            final(self).status == ({
                let s1 = if mode & 0x20 != 0 { old(self).status & !2u8 } else { old(self).status };
                if mode & 0x10 != 0 { s1 & !1u8 } else { s1 }
            }),
            timer_fields(*final(self), 1) == loaded_fields(*old(self), 1, mode & 2 != 0, -((total_clocks & 0x0f) as int)),
            timer_fields(*final(self), 0) == loaded_fields(*old(self), 0, mode & 1 != 0, 0),
            final(self).clock_hz == old(self).clock_hz,
            final(self).prescale == old(self).prescale,
            final(self).timer_a_value == old(self).timer_a_value,
            final(self).timer_b_value == old(self).timer_b_value,
    {
        self.mode = mode;
        if mode & 0x20 != 0 {
            self.status = self.status & !0x02;
        }
        if mode & 0x10 != 0 {
            self.status = self.status & !0x01;
        }
        let delta = -((total_clocks & 0x0f) as i64);
        self.update_timer(1, mode & 0x02 != 0, delta);
        self.update_timer(0, mode & 0x01 != 0, 0);
    }

    /// The shortest time until a running timer expires.
    pub fn next_event_microseconds(&self) -> (microseconds: u32)
        requires
            self.wf(),
        ensures
            microseconds == next_event_spec(*self),
    {
        let c0 = self.counts[0];
        let c1 = self.counts[1];
        if c0 <= 0 && c1 <= 0 {
            return 0;
        }
        let count = if c0 > 0 && (c1 <= 0 || c0 <= c1) { c0 } else { c1 };
        let fixed = ((count as u128) + 281_474_976) * 15625 / 0x400_0000_0000;
        if fixed > 0xffff_ffff {
            0xffff_ffff
        } else {
            fixed as u32
        }
    }

    /// Advances the timers by some microseconds: running timers count
    /// down, and an expired timer whose flag is enabled sets its status bit
    /// and reloads. Returns the flags.
    pub fn count(&mut self, microseconds: u32) -> (status: TimerStatus)
        requires
            old(self).wf(),
        ensures
            final(self).wf(),
            status == (TimerStatus { timer_a: final(self).status & 1 != 0, timer_b: final(self).status & 2 != 0 }),
            final(self).mode == old(self).mode,
            final(self).running == old(self).running,
            final(self).clock_hz == old(self).clock_hz,
            final(self).prescale == old(self).prescale,
            final(self).timer_a_value == old(self).timer_a_value,
            final(self).timer_b_value == old(self).timer_b_value,
            final(self).counts@[0] == (if fires(*old(self), 0, 1, 4, microseconds) {
                capped_period(*old(self), 0, 0) as int
            } else {
                counted(*old(self), 0, 1, microseconds)
            }),
            final(self).counts@[1] == (if fires(*old(self), 1, 2, 8, microseconds) {
                capped_period(*old(self), 1, 0) as int
            } else {
                counted(*old(self), 1, 2, microseconds)
            }),
            final(self).periods@[0] == (if fires(*old(self), 0, 1, 4, microseconds) {
                capped_period(*old(self), 0, 0)
            } else {
                old(self).periods@[0]
            }),
            final(self).periods@[1] == (if fires(*old(self), 1, 2, 8, microseconds) {
                capped_period(*old(self), 1, 0)
            } else {
                old(self).periods@[1]
            }),
            final(self).status == ({
                let s1 = if fires(*old(self), 0, 1, 4, microseconds) { old(self).status | 1 } else { old(self).status };
                if fires(*old(self), 1, 2, 8, microseconds) { s1 | 2 } else { s1 }
            }),
            fires(*old(self), 1, 2, 8, microseconds) ==> status.timer_b,
            fires(*old(self), 0, 1, 4, microseconds) ==> status.timer_a,
    {
        let delta = fixed_microseconds(microseconds) as i64;
        proof { lemma_timer_bits(self.status); }
        if self.mode & 0x01 != 0 && self.counts[0] > 0 {
            self.counts[0] = self.counts[0] - delta;
        }
        if self.mode & 0x02 != 0 && self.counts[1] > 0 {
            self.counts[1] = self.counts[1] - delta;
        }
        if self.mode & 0x04 != 0 && self.counts[0] < 0 {
            self.status = self.status | 0x01;
            self.reload(0);
        }
        let ghost s1 = self.status;
        proof { lemma_timer_bits(s1); }
        if self.mode & 0x08 != 0 && self.counts[1] < 0 {
            self.status = self.status | 0x02;
            self.reload(1);
        }
        proof { lemma_timer_bits(self.status); }
        self.status()
    }
}


/// Microseconds as fixed-point time.
pub fn fixed_microseconds(microseconds: u32) -> (fixed: u128)
    ensures
        fixed == fixed_us(microseconds),
        fixed <= 0x2000_0000_0000_0000,
        microseconds >= 1 ==> fixed >= 1,
{
    let wide = (microseconds as u128) * 0x400_0000_0000 / 15625;
    assert(wide <= 0x2000_0000_0000_0000) by (nonlinear_arith)
        requires wide == (microseconds as u128) * 0x400_0000_0000 / 15625, microseconds <= 0xffff_ffff;
    assert(microseconds >= 1 ==> wide >= 1) by (nonlinear_arith)
        requires wide == (microseconds as u128) * 0x400_0000_0000 / 15625;
    wide
}

/// The driver's timing: tempo, the two chip timers, the song position and
/// the elapsed time.
#[derive(Clone, Copy, Debug)]
pub struct PmdTiming {
    pub tempo: Tempo,
    pub timers: TimerClock,
    pub position: SongPosition,
    pub measure_length: u32,
    pub timer_a_time: u32,
    pub last_timer_a_time: u32,
    pub timer_b_ticks: u64,
    pub elapsed_us: u64,
}

/// What happened up to one timer B tick.
#[derive(Clone, Copy, Debug, PartialEq, Eq)]
pub struct TimerBTick {
    pub position: SongPosition,
    pub timer_a_delta: u32,
    pub tick: u64,
    pub time_us: u64,
    pub timer_a_count: u8,
    pub timer_a_times: [u64; 8],
}

impl PmdTiming {
    pub open spec fn wf(&self) -> bool {
        &&& self.timers.wf()
        &&& self.measure_length >= 1
        &&& self.position.tick < self.measure_length
    }

    /// Timing for a chip clock (`None` for a zero clock).
    pub fn new(clock_hz: u32) -> (timing: Option<Self>)
        ensures
            timing is Some <==> clock_hz != 0,
            timing matches Some(t) ==> {
                &&& t.wf()
                &&& t.tempo == tempo_from_timer_b(DEFAULT_TIMER_B)
                &&& t.timers.clock_hz == clock_hz && t.timers.prescale == DEFAULT_PRESCALE
                &&& t.position == (SongPosition { measure: 0, tick: 0 })
                &&& t.measure_length == DEFAULT_MEASURE_LENGTH
                &&& t.timer_a_time == 0 && t.last_timer_a_time == 0
                &&& t.timer_b_ticks == 0 && t.elapsed_us == 0
            },
    {
        let timers = match TimerClock::new(clock_hz, DEFAULT_PRESCALE) {
            Some(t) => t,
            None => {
                return None;
            },
        };
        Some(PmdTiming {
            tempo: Tempo::new(),
            timers,
            position: SongPosition::default(),
            measure_length: DEFAULT_MEASURE_LENGTH,
            timer_a_time: 0,
            last_timer_a_time: 0,
            timer_b_ticks: 0,
            elapsed_us: 0,
        })
    }

    pub fn start(&mut self)
        requires
            old(self).wf(),
        ensures
            final(self).wf(),
            final(self).tempo == tempo_from_timer_b(DEFAULT_TIMER_B),
            final(self).timers.mode == 0x3f,
            final(self).timers.timer_a_value == 0,
            final(self).timers.timer_b_value == DEFAULT_TIMER_B,
            timer_fields(final(self).timers, 0) == (true, capped_period(final(self).timers, 0, 0), capped_period(final(self).timers, 0, 0) as i64),
            timer_fields(final(self).timers, 1) == (true, capped_period(final(self).timers, 1, 0), capped_period(final(self).timers, 1, 0) as i64),
            final(self).position == (SongPosition { measure: 0, tick: 0 }),
            final(self).measure_length == DEFAULT_MEASURE_LENGTH,
            final(self).timer_a_time == 0 && final(self).last_timer_a_time == 0,
            final(self).timer_b_ticks == 0 && final(self).elapsed_us == 0,
    {
        self.start_with_timer_b_delta(0);
    }

    /// Restarts timing with the default tempo; timer B's first period is
    /// shortened by `delta_clocks & 15` steps.
    pub fn start_with_timer_b_delta(&mut self, delta_clocks: u8)
        requires
            old(self).wf(),
        ensures
            final(self).wf(),
            final(self).tempo == tempo_from_timer_b(DEFAULT_TIMER_B),
            final(self).timers.mode == 0x3f,
            final(self).timers.status == 0,
            final(self).timers.timer_a_value == 0,
            final(self).timers.timer_b_value == DEFAULT_TIMER_B,
            final(self).timers.clock_hz == old(self).timers.clock_hz,
            final(self).timers.prescale == old(self).timers.prescale,
            timer_fields(final(self).timers, 0) == (true, capped_period(final(self).timers, 0, 0), capped_period(final(self).timers, 0, 0) as i64),
            timer_fields(final(self).timers, 1) == (true,
                capped_period(final(self).timers, 1, -((delta_clocks & 0x0f) as int)),
                capped_period(final(self).timers, 1, -((delta_clocks & 0x0f) as int)) as i64),
            final(self).position == (SongPosition { measure: 0, tick: 0 }),
            final(self).measure_length == DEFAULT_MEASURE_LENGTH,
            final(self).timer_a_time == 0 && final(self).last_timer_a_time == 0,
            final(self).timer_b_ticks == 0 && final(self).elapsed_us == 0,
    {
        self.tempo = Tempo::new();
        self.timers.reset();
        self.timers.set_timer_a_value(0);
        self.timers.set_timer_b_value(self.tempo.timer_b());
        self.timers.write_mode(0x3f, delta_clocks);
        proof { lemma_timer_bits(0); }
        self.position = SongPosition::default();
        self.measure_length = DEFAULT_MEASURE_LENGTH;
        self.timer_a_time = 0;
        self.last_timer_a_time = 0;
        self.timer_b_ticks = 0;
        self.elapsed_us = 0;
    }

    pub fn position(&self) -> (position: SongPosition)
        ensures
            position == self.position,
    {
        self.position
    }

    pub fn timer_a_time(&self) -> (time: u32)
        ensures
            time == self.timer_a_time,
    {
        self.timer_a_time
    }

    /// Counts one timer A interrupt.
    pub fn timer_a_tick(&mut self)
        ensures
            *final(self) == (PmdTiming {
                timer_a_time: vstd::wrapping::u32_specs::wrapping_add(old(self).timer_a_time, 1),
                ..*old(self)
            }),
    {
        self.timer_a_time = self.timer_a_time.wrapping_add(1);
    }

    /// Runs the timers until timer B next expires (or until no timer is
    /// counting), counting the timer A interrupts on the way, and advances
    /// the song position by one tick.
    pub fn timer_b_tick(&mut self) -> (tick: TimerBTick)
        requires
            old(self).wf(),
        ensures
            final(self).wf(),
            final(self).timer_b_ticks == (if old(self).timer_b_ticks == u64::MAX { u64::MAX } else { (old(self).timer_b_ticks + 1) as u64 }),
            final(self).position == advanced(old(self).position, old(self).measure_length),
            final(self).measure_length == old(self).measure_length,
            final(self).tempo == old(self).tempo,
            final(self).last_timer_a_time == final(self).timer_a_time,
            final(self).elapsed_us >= old(self).elapsed_us,
            tick.position == final(self).position,
            tick.tick == final(self).timer_b_ticks,
            tick.time_us == final(self).elapsed_us,
            tick.timer_a_delta == vstd::wrapping::u32_specs::wrapping_sub(final(self).timer_a_time, old(self).last_timer_a_time),
            tick.timer_a_count <= 8,
            forall|k: int| 0 <= k < tick.timer_a_count ==> old(self).elapsed_us <= #[trigger] tick.timer_a_times@[k] <= final(self).elapsed_us,
    {
        let ghost start = *self;
        let mut timer_a_times: [u64; 8] = [0, 0, 0, 0, 0, 0, 0, 0];
        let mut timer_a_count: usize = 0;
        let mut first = true;
        loop
            invariant
                self.wf(),
                start == *old(self),
                timer_a_count <= 8,
                self.position == start.position,
                self.measure_length == start.measure_length,
                self.tempo == start.tempo,
                self.timer_b_ticks == start.timer_b_ticks,
                self.last_timer_a_time == start.last_timer_a_time,
                self.elapsed_us >= start.elapsed_us,
                forall|k: int| 0 <= k < timer_a_count ==> start.elapsed_us <= #[trigger] timer_a_times@[k] <= self.elapsed_us,
                !first ==> self.timers.mode == 0x3f && self.timers.running@[1],
            decreases (if first { 1int } else { 0int }), (if self.timers.counts@[1] > 0 { self.timers.counts@[1] as int } else { 0int }),
        {
            if !first && self.timers.counts[1] == 0 {
                break;
            }
            let interval = self.timers.next_event_microseconds();
            if interval == 0 {
                break;
            }
            let ghost before_count = self.timers.counts@[1];
            let ghost was_first = first;
            proof { lemma_timer_bits(self.timers.status); }
            self.elapsed_us = if self.elapsed_us > u64::MAX - interval as u64 { u64::MAX } else { self.elapsed_us + interval as u64 };
            proof { let _ = fixed_us(interval); }
            let status = self.timers.count(interval);
            if status.timer_a {
                self.timer_a_time = self.timer_a_time.wrapping_add(1);
                if timer_a_count < 8 {
                    timer_a_times[timer_a_count] = self.elapsed_us;
                    timer_a_count = timer_a_count + 1;
                }
            }
            if status.timer_b {
                self.timer_b_ticks = if self.timer_b_ticks == u64::MAX { u64::MAX } else { self.timer_b_ticks + 1 };
                self.position.advance(self.measure_length);
                let timer_a_delta = self.timer_a_time.wrapping_sub(self.last_timer_a_time);
                self.last_timer_a_time = self.timer_a_time;
                self.timers.write_mode(0x3f, 0);
                return TimerBTick {
                    position: self.position,
                    timer_a_delta,
                    tick: self.timer_b_ticks,
                    time_us: self.elapsed_us,
                    timer_a_count: timer_a_count as u8,
                    timer_a_times,
                };
            }
            proof {
                if !was_first {
                    assert(before_count > 0);
                    assert(self.timers.counts@[1] == before_count - fixed_us(interval));
                }
            }
            proof { lemma_timer_bits(self.timers.status); }
            self.timers.write_mode(0x3f, 0);
            first = false;
        }
        self.timer_b_ticks = if self.timer_b_ticks == u64::MAX { u64::MAX } else { self.timer_b_ticks + 1 };
        self.position.advance(self.measure_length);
        let timer_a_delta = self.timer_a_time.wrapping_sub(self.last_timer_a_time);
        self.last_timer_a_time = self.timer_a_time;
        TimerBTick {
            position: self.position,
            timer_a_delta,
            tick: self.timer_b_ticks,
            time_us: self.elapsed_us,
            timer_a_count: timer_a_count as u8,
            timer_a_times,
        }
    }
}

proof fn lemma_timer_bits(x: u8)
    by (bit_vector)
    ensures
        (x | 2u8) & 2u8 != 0,
        (x | 1u8) & 1u8 != 0,
        ((x | 1u8) & 2u8 != 0) == (x & 2u8 != 0),
        ((x | 2u8) & 1u8 != 0) == (x & 1u8 != 0),
        0x3fu8 & 1u8 != 0,
        0x3fu8 & 2u8 != 0,
        0x3fu8 & 4u8 != 0,
        0x3fu8 & 8u8 != 0,
        0x3fu8 & 0x10u8 != 0,
        0x3fu8 & 0x20u8 != 0,
        (0u8 & !2u8) & !1u8 == 0,
{
}

} // verus!
