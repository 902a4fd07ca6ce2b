use vstd::prelude::*;
use super::fm::mask_has;
use super::adpcm::{clamp_i32, clamp_spec};

verus! {

broadcast use crate::bits::group_bit_bounds;

pub const RHYTHM_VOICES: usize = 6;
pub const RHYTHM_TL_POS: i32 = 32;

/// Linear gain (20-bit fixed point) for each 0.75 dB attenuation step,
/// starting 32 steps above unity.
pub const RHYTHM_TL_TABLE: [u32; 160] = [
    0xfffff, 0xeac0b, 0xd744e, 0xc5671, 0xb504e, 0xa5fec, 0x9837e, 0x8b95b, 0x7ffff, 0x75605,
    0x6ba26, 0x62b38, 0x5a826, 0x52ff5, 0x4c1be, 0x45cad, 0x3ffff, 0x3ab02, 0x35d12, 0x3159b,
    0x2d412, 0x297fa, 0x260de, 0x22e56, 0x1ffff, 0x1d580, 0x1ae88, 0x18acd, 0x16a08, 0x14bfc,
    0x1306e, 0x1172a, 0xffff, 0xeabf, 0xd743, 0xc566, 0xb503, 0xa5fd, 0x9836, 0x8b94, 0x7fff,
    0x755f, 0x6ba1, 0x62b2, 0x5a81, 0x52fe, 0x4c1a, 0x45c9, 0x3fff, 0x3aaf, 0x35d0, 0x3158, 0x2d40,
    0x297e, 0x260c, 0x22e4, 0x1fff, 0x1d57, 0x1ae7, 0x18ab, 0x169f, 0x14be, 0x1305, 0x1171, 0xfff,
    0xeab, 0xd73, 0xc55, 0xb4f, 0xa5e, 0x982, 0x8b8, 0x7ff, 0x755, 0x6b9, 0x62a, 0x5a7, 0x52e,
    0x4c0, 0x45b, 0x3ff, 0x3aa, 0x35c, 0x314, 0x2d3, 0x296, 0x25f, 0x22d, 0x1ff, 0x1d4, 0x1ad,
    0x189, 0x169, 0x14a, 0x12f, 0x116, 0xff, 0xe9, 0xd6, 0xc4, 0xb4, 0xa4, 0x97, 0x8a, 0x7f, 0x74,
    0x6a, 0x61, 0x59, 0x51, 0x4b, 0x44, 0x3f, 0x39, 0x34, 0x30, 0x2c, 0x28, 0x25, 0x21, 0x1f, 0x1c,
    0x19, 0x17, 0x15, 0x13, 0x12, 0x10, 0xf, 0xd, 0xc, 0xb, 0xa, 0x9, 0x8, 0x7, 0x7, 0x6, 0x5, 0x5,
    0x4, 0x4, 0x3, 0x3, 0x3, 0x2, 0x2, 0x2, 0x1, 0x1, 0x1, 0x1, 0x1, 0x0, 0x0, 0x0, 0x0, 0x0, 0x0,
    0x0,
];

/// One rhythm voice playing a PCM sample at a fixed step.
#[derive(Debug)]
pub struct RhythmVoice {
    pub pan: u8,
    pub level: i8,
    pub volume: i32,
    pub sample: Option<Vec<i16>>,
    pub size: u32,
    pub pos: u32,
    pub step: u32,
    pub rate: u32,
}

/// The PCM data of a voice (empty when it has none).
pub open spec fn voice_samples(v: RhythmVoice) -> Seq<i16> {
    match v.sample {
        Some(s) => s@,
        None => Seq::empty(),
    }
}

/// The position of a voice after `k` steps (positions are 22.10 fixed point).
pub open spec fn voice_pos(v: RhythmVoice, k: nat) -> u32
    decreases k,
{
    if k == 0 {
        v.pos
    } else {
        vstd::wrapping::u32_specs::wrapping_add(voice_pos(v, (k - 1) as nat), v.step)
    }
}

/// Whether the voice is still inside its sample for each of its first `k + 1` frames.
pub open spec fn voice_plays(v: RhythmVoice, k: nat) -> bool
    decreases k,
{
    voice_pos(v, k) < v.size && (k == 0 || voice_plays(v, (k - 1) as nat))
}

/// How many of the first `n` frames the voice plays.
pub open spec fn voice_played(v: RhythmVoice, n: nat) -> nat
    decreases n,
{
    if n == 0 {
        0
    } else if voice_plays(v, (n - 1) as nat) {
        n
    } else {
        voice_played(v, (n - 1) as nat)
    }
}

/// A bank slot after its sample has been dropped.
pub open spec fn voice_cleared(v: RhythmVoice) -> RhythmVoice {
    RhythmVoice { sample: None, size: 0, pos: 0, step: 0, rate: 0, ..v }
}

impl RhythmVoice {
    pub open spec fn wf(&self) -> bool {
        &&& self.pan <= 3
        &&& 0 <= self.level <= 31
        &&& -13 <= self.volume <= 0x3000_0000
        &&& match self.sample {
            Some(s) => s@.len() < 0x100000 && self.size == s@.len() * 1024,
            None => self.size == 0,
        }
    }

    pub fn new() -> (voice: Self)
        ensures
            voice.wf(),
            voice == (RhythmVoice { pan: 0, level: 0, volume: 0, sample: None, size: 0, pos: 0, step: 0, rate: 0 }),
    {
        RhythmVoice { pan: 0, level: 0, volume: 0, sample: None, size: 0, pos: 0, step: 0, rate: 0 }
    }

    pub fn clear_sample(&mut self)
        requires
            old(self).wf(),
        ensures
            final(self).wf(),
            *final(self) == voice_cleared(*old(self)),
    {
        self.sample = None;
        self.size = 0;
        self.pos = 0;
        self.step = 0;
        self.rate = 0;
    }
}

/// The six-voice rhythm sound source, playing PCM drum samples when no
/// ADPCM rhythm ROM is present.
#[derive(Debug)]
pub struct RhythmEngine {
    pub voices: [RhythmVoice; 6],
    pub total_volume: i32,
    pub total_level: i8,
    pub key_mask: u8,
    pub adpcm_rom_present: bool,
    pub peaks: [i32; 6],
}

/// Whether rendering adds nothing: a ROM is present, the volume is off, no
/// voice is keyed, or the bank is incomplete.
pub open spec fn rhythm_silent(e: RhythmEngine) -> bool {
    ||| e.adpcm_rom_present
    ||| e.total_volume >= 128
    ||| e.key_mask & 0x3f == 0
    ||| exists|i: int| 0 <= i < 6 && (#[trigger] e.voices@[i]).sample is None
}

/// The attenuation of a voice in 0.75 dB steps, within the table.
pub open spec fn voice_db(e: RhythmEngine, i: int) -> int {
    clamp_spec(e.total_level + e.total_volume + e.voices@[i].level + e.voices@[i].volume, -31, 127)
}

/// The gain of a voice.
pub open spec fn voice_gain(e: RhythmEngine, i: int) -> i32 {
    (RHYTHM_TL_TABLE@[RHYTHM_TL_POS + voice_db(e, i)] >> 4) as i32
}

/// The scaled sample a voice plays on frame `k`.
pub open spec fn voice_sample_at(e: RhythmEngine, i: int, k: nat) -> i32 {
    let v = e.voices@[i];
    ((voice_samples(v)[(voice_pos(v, k) / 1024) as int] * voice_gain(e, i)) as i32) >> 12u32
}

/// What voice `i` adds to one side of frame `f`.
pub open spec fn voice_contribution(e: RhythmEngine, i: int, f: nat, right: bool) -> int {
    let v = e.voices@[i];
    let panned = if right { v.pan & 1 != 0 } else { v.pan & 2 != 0 };
    if mask_has(e.key_mask as u32, i) && voice_plays(v, f) && panned {
        voice_sample_at(e, i, f) as int
    } else {
        0
    }
}

/// What the voices below `n` add to one side of frame `f`.
pub open spec fn rhythm_mix(e: RhythmEngine, f: nat, right: bool, n: int) -> int
    decreases n,
{
    if n <= 0 {
        0
    } else {
        rhythm_mix(e, f, right, n - 1) + voice_contribution(e, n - 1, f, right)
    }
}

/// The largest magnitude among the first `n` frames voice `i` plays, at least `peak`.
pub open spec fn voice_peak(e: RhythmEngine, i: int, peak: i32, n: nat) -> i32
    decreases n,
{
    if n == 0 {
        peak
    } else {
        let before = voice_peak(e, i, peak, (n - 1) as nat);
        if voice_plays(e.voices@[i], (n - 1) as nat) {
            let s = voice_sample_at(e, i, (n - 1) as nat);
            let m: int = if s < 0 { -s } else { s as int };
            if m > before { m as i32 } else { before }
        } else {
            before
        }
    }
}

/// One side of an interleaved stereo frame.
/// The engine after `frames` frames of playback: each keyed voice moves
/// on and records its peak; the rest stays.
pub open spec fn rhythm_advanced(o: RhythmEngine, f: RhythmEngine, frames: nat) -> bool {
    &&& forall|i: int| 0 <= i < 6 ==> #[trigger] f.voices@[i] == (if mask_has(o.key_mask as u32, i) {
        RhythmVoice { pos: voice_pos(o.voices@[i], voice_played(o.voices@[i], frames)), ..o.voices@[i] }
    } else {
        o.voices@[i]
    })
    &&& forall|i: int| 0 <= i < 6 ==> #[trigger] f.peaks@[i] == (if mask_has(o.key_mask as u32, i) {
        voice_peak(o, i, o.peaks@[i], frames)
    } else {
        o.peaks@[i]
    })
    &&& f.key_mask == o.key_mask
    &&& f.total_level == o.total_level
    &&& f.total_volume == o.total_volume
    &&& f.adpcm_rom_present == o.adpcm_rom_present
}

pub open spec fn frame_value(s: Seq<i32>, f: int, right: bool) -> i32 {
    s[2 * f + if right { 1int } else { 0int }]
}

proof fn lemma_plays_prefix(v: RhythmVoice, j: nat, k: nat)
    requires
        j <= k,
        voice_plays(v, k),
    ensures
        voice_plays(v, j),
    decreases k - j,
{
    if j < k {
        lemma_plays_prefix(v, j, (k - 1) as nat);
    }
}

proof fn lemma_played_full(v: RhythmVoice, n: nat)
    requires
        n == 0 || voice_plays(v, (n - 1) as nat),
    ensures
        voice_played(v, n) == n,
{
}

proof fn lemma_played_stops(v: RhythmVoice, f: nat, n: nat)
    requires
        f <= n,
        voice_played(v, f) == f,
        !voice_plays(v, f),
    ensures
        voice_played(v, n) == f,
        forall|k: nat| f <= k < n ==> !#[trigger] voice_plays(v, k),
    decreases n - f,
{
    assert forall|k: nat| f <= k < n implies !#[trigger] voice_plays(v, k) by {
        if voice_plays(v, k) {
            lemma_plays_prefix(v, f, k);
        }
    }
    if n > f {
        lemma_played_stops(v, f, (n - 1) as nat);
    }
}

proof fn lemma_peak_stops(e: RhythmEngine, i: int, peak: i32, f: nat, n: nat)
    requires
        f <= n,
        forall|k: nat| f <= k < n ==> !#[trigger] voice_plays(e.voices@[i], k),
    ensures
        voice_peak(e, i, peak, n) == voice_peak(e, i, peak, f),
    decreases n - f,
{
    if n > f {
        lemma_peak_stops(e, i, peak, f, (n - 1) as nat);
    }
}

proof fn lemma_gain_bound(entry: u32)
    by (bit_vector)
    requires
        entry <= 0xfffff,
    ensures
        (entry >> 4) <= 0xffff,
{
}

proof fn lemma_table_bounded(index: int)
    requires
        0 <= index < 160,
    ensures
        RHYTHM_TL_TABLE@[index] <= 0xfffff,
{
    assert(forall|k: int| 0 <= k < 160 ==> #[trigger] RHYTHM_TL_TABLE@[k] <= 0xfffff);
}

proof fn lemma_sample_bound(x: i32)
    by (bit_vector)
    requires
        -2147450880 <= x <= 2147450880,
    ensures
        -524288 <= (x >> 12u32) <= 524287,
{
}

proof fn lemma_contribution_bound(e: RhythmEngine, i: int, f: nat, right: bool)
    requires
        e.wf(),
        0 <= i < 6,
    ensures
        -524288 <= voice_contribution(e, i, f, right) <= 524287,
        voice_plays(e.voices@[i], f) ==> -524288 <= voice_sample_at(e, i, f) <= 524287,
{
    let v = e.voices@[i];
    if voice_plays(v, f) {
        let idx = (voice_pos(v, f) / 1024) as int;
        let db = voice_db(e, i);
        lemma_table_bounded(RHYTHM_TL_POS + db);
        let gain = voice_gain(e, i);
        lemma_gain_bound(RHYTHM_TL_TABLE@[RHYTHM_TL_POS + db]);
        let raw = voice_samples(v)[idx] as int;
        assert(-2147450880 <= raw * gain <= 2147450880) by (nonlinear_arith)
            requires -32768 <= raw <= 32767, 0 <= gain <= 0xffff;
        lemma_sample_bound((raw * gain) as i32);
    }
}

proof fn lemma_mix_bound(e: RhythmEngine, f: nat, right: bool, n: int)
    requires
        0 <= n <= 6,
        forall|i: int| 0 <= i < 6 ==> -524288 <= #[trigger] voice_contribution(e, i, f, right) <= 524287,
    ensures
        -524288 * n <= rhythm_mix(e, f, right, n) <= 524287 * n,
    decreases n,
{
    if n > 0 {
        lemma_mix_bound(e, f, right, n - 1);
        let _ = voice_contribution(e, n - 1, f, right);
    }
}

fn copy_samples(samples: &[i16]) -> (copy: Vec<i16>)
    ensures
        copy@ == samples@,
{
    let mut copy: Vec<i16> = Vec::new();
    let mut i: usize = 0;
    while i < samples.len()
        invariant
            i <= samples@.len(),
            copy@ == samples@.subrange(0, i as int),
        decreases samples@.len() - i,
    {
        copy.push(samples[i]);
        i = i + 1;
        proof { assert(copy@ =~= samples@.subrange(0, i as int)); }
    }
    proof { assert(samples@.subrange(0, samples@.len() as int) =~= samples@); }
    copy
}

impl RhythmEngine {
    pub open spec fn wf(&self) -> bool {
        &&& forall|i: int| 0 <= i < 6 ==> (#[trigger] self.voices@[i]).wf()
        &&& 0 <= self.total_level <= 63
        &&& -0x1000_0000 <= self.total_volume <= 0x1000_0000
        &&& forall|i: int| 0 <= i < 6 ==> 0 <= #[trigger] self.peaks@[i] <= 524288
    }

    pub fn new() -> (engine: Self)
        ensures
            engine.wf(),
            engine.key_mask == 0,
            engine.total_level == 0,
            engine.total_volume == 0,
            !engine.adpcm_rom_present,
            engine.peaks@ == seq![0i32, 0, 0, 0, 0, 0],
            forall|i: int| 0 <= i < 6 ==> (#[trigger] engine.voices@[i]).sample is None,
    {
        let engine = RhythmEngine {
            voices: [
                RhythmVoice::new(),
                RhythmVoice::new(),
                RhythmVoice::new(),
                RhythmVoice::new(),
                RhythmVoice::new(),
                RhythmVoice::new(),
            ],
            peaks: [0, 0, 0, 0, 0, 0],
            total_volume: 0,
            total_level: 0,
            key_mask: 0,
            adpcm_rom_present: false,
        };
        assert(engine.peaks@ =~= seq![0i32, 0, 0, 0, 0, 0]);
        engine
    }

    /// Installs the PCM data of one voice, resampled from `sample_rate` to
    /// `output_rate`; the voice starts silent (at its end). An invalid
    /// request clears the whole bank instead and returns false.
    pub fn set_sample(&mut self, index: usize, sample_rate: u32, samples: &[i16], output_rate: u32) -> (ok: bool)
        requires
            old(self).wf(),
        ensures
            final(self).wf(),
            ok == (index < 6 && samples@.len() < 0x100000 && output_rate != 0),
            ok ==> {
                let v = final(self).voices@[index as int];
                let o = old(self).voices@[index as int];
                &&& v.sample is Some
                &&& voice_samples(v) == samples@
                &&& v.rate == sample_rate
                &&& v.step == vstd::wrapping::u32_specs::wrapping_mul(sample_rate, 1024) / output_rate
                &&& v.size == samples@.len() * 1024
                &&& v.pos == v.size
                &&& v.pan == o.pan && v.level == o.level && v.volume == o.volume
                &&& forall|j: int| 0 <= j < 6 && j != index ==> #[trigger] final(self).voices@[j] == old(self).voices@[j]
                &&& final(self).key_mask == old(self).key_mask
            },
            !ok ==> {
                &&& forall|j: int| 0 <= j < 6 ==> #[trigger] final(self).voices@[j] == voice_cleared(old(self).voices@[j])
                &&& final(self).key_mask == 0
            },
            final(self).total_level == old(self).total_level,
            final(self).total_volume == old(self).total_volume,
            final(self).adpcm_rom_present == old(self).adpcm_rom_present,
            final(self).peaks == old(self).peaks,
    {
        if index >= RHYTHM_VOICES || samples.len() >= 0x100000 || output_rate == 0 {
            self.clear_samples();
            return false;
        }
        let copy = copy_samples(samples);
        let size = (samples.len() as u32) * 1024;
        self.voices[index].sample = Some(copy);
        self.voices[index].rate = sample_rate;
        self.voices[index].step = sample_rate.wrapping_mul(1024) / output_rate;
        self.voices[index].size = size;
        self.voices[index].pos = size;
        true
    }

    /// Drops every voice's sample and releases all keys.
    pub fn clear_samples(&mut self)
        requires
            old(self).wf(),
        ensures
            final(self).wf(),
            forall|j: int| 0 <= j < 6 ==> #[trigger] final(self).voices@[j] == voice_cleared(old(self).voices@[j]),
            final(self).key_mask == 0,
            final(self).total_level == old(self).total_level,
            final(self).total_volume == old(self).total_volume,
            final(self).adpcm_rom_present == old(self).adpcm_rom_present,
            final(self).peaks == old(self).peaks,
    {
        let mut i: usize = 0;
        while i < RHYTHM_VOICES
            invariant
                0 <= i <= 6,
                self.wf(),
                forall|j: int| 0 <= j < i ==> #[trigger] self.voices@[j] == voice_cleared(old(self).voices@[j]),
                forall|j: int| i <= j < 6 ==> #[trigger] self.voices@[j] == old(self).voices@[j],
                self.key_mask == old(self).key_mask,
                self.total_level == old(self).total_level,
                self.total_volume == old(self).total_volume,
                self.adpcm_rom_present == old(self).adpcm_rom_present,
                self.peaks == old(self).peaks,
            decreases 6 - i,
        {
            self.voices[i].clear_sample();
            i = i + 1;
        }
        self.key_mask = 0;
    }

    pub fn set_adpcm_rom_present(&mut self, present: bool)
        ensures
            *final(self) == (RhythmEngine { adpcm_rom_present: present, ..*old(self) }),
    {
        self.adpcm_rom_present = present;
    }

    /// A write to the rhythm registers: 0x10 keys voices on (bit 7 clear) or
    /// off, 0x11 sets the total level, 0x18..0x1d set each voice's pan and
    /// level. Ignored while an ADPCM rhythm ROM is present.
    pub fn write_register(&mut self, address: u8, data: u8)
        requires
            old(self).wf(),
        ensures
            final(self).wf(),
            final(self).adpcm_rom_present == old(self).adpcm_rom_present,
            final(self).total_volume == old(self).total_volume,
            final(self).peaks == old(self).peaks,
            old(self).adpcm_rom_present || !(address == 0x10 || address == 0x11 || 0x18 <= address <= 0x1d)
                ==> *final(self) == *old(self),
            !old(self).adpcm_rom_present && address == 0x10 ==> {
                &&& final(self).key_mask == (if data & 0x80 == 0 {
                    old(self).key_mask | (data & 0x3f)
                } else {
                    old(self).key_mask & !data
                })
                &&& forall|j: int| 0 <= j < 6 ==> #[trigger] final(self).voices@[j] == (if data & 0x80 == 0
                    && mask_has(data as u32, j) {
                    RhythmVoice { pos: 0, ..old(self).voices@[j] }
                } else {
                    old(self).voices@[j]
                })
                &&& final(self).total_level == old(self).total_level
            },
            !old(self).adpcm_rom_present && address == 0x11 ==> {
                &&& final(self).total_level == 63 - (data & 63)
                &&& final(self).voices == old(self).voices
                &&& final(self).key_mask == old(self).key_mask
            },
            !old(self).adpcm_rom_present && 0x18 <= address <= 0x1d ==> {
                &&& forall|j: int| 0 <= j < 6 ==> #[trigger] final(self).voices@[j] == (if j == address - 0x18 {
                    RhythmVoice { pan: data / 64, level: (31 - (data & 31)) as i8, ..old(self).voices@[j] }
                } else {
                    old(self).voices@[j]
                })
                &&& final(self).total_level == old(self).total_level
                &&& final(self).key_mask == old(self).key_mask
            },
    {
        if self.adpcm_rom_present {
            return;
        }
        if address == 0x10 {
            if data & 0x80 == 0 {
                self.key_mask = self.key_mask | (data & 0x3f);
                let mut i: usize = 0;
                while i < RHYTHM_VOICES
                    invariant
                        0 <= i <= 6,
                        self.wf(),
                        data & 0x80 == 0,
                        self.key_mask == old(self).key_mask | (data & 0x3f),
                        self.total_level == old(self).total_level,
                        self.total_volume == old(self).total_volume,
                        self.adpcm_rom_present == old(self).adpcm_rom_present,
                        self.peaks == old(self).peaks,
                        forall|j: int| 0 <= j < i ==> #[trigger] self.voices@[j] == (if mask_has(data as u32, j) {
                            RhythmVoice { pos: 0, ..old(self).voices@[j] }
                        } else {
                            old(self).voices@[j]
                        }),
                        forall|j: int| i <= j < 6 ==> #[trigger] self.voices@[j] == old(self).voices@[j],
                    decreases 6 - i,
                {
                    if (data as u32) & (1u32 << i as u32) != 0 {
                        self.voices[i].pos = 0;
                    }
                    i = i + 1;
                }
            } else {
                self.key_mask = self.key_mask & !data;
            }
        } else if address == 0x11 {
            assert(!data & 63 == 63 - (data & 63)) by (bit_vector);
            self.total_level = (!data & 63) as i8;
        } else if 0x18 <= address && address <= 0x1d {
            let index = (address - 0x18) as usize;
            assert((data >> 6) & 3 == data / 64 && !data & 31 == 31 - (data & 31)) by (bit_vector);
            self.voices[index].pan = (data >> 6) & 3;
            self.voices[index].level = (!data & 31) as i8;
        }
    }

    /// Sets a voice's extra attenuation from a level in dB (capped at 20).
    pub fn set_volume(&mut self, index: usize, db: i32)
        requires
            old(self).wf(),
            db > -0x4000_0000,
        ensures
            final(self).wf(),
            index < 6 ==> {
                let d = if db < 20 { db as int } else { 20 };
                &&& final(self).voices@[index as int].volume
                    == (if d >= 0 { -((2 * d) / 3) } else { (-2 * d) / 3 })
                &&& forall|j: int| 0 <= j < 6 && j != index ==> #[trigger] final(self).voices@[j] == old(self).voices@[j]
                &&& final(self).voices@[index as int].pos == old(self).voices@[index as int].pos
                &&& final(self).voices@[index as int].sample == old(self).voices@[index as int].sample
                &&& final(self).voices@[index as int].size == old(self).voices@[index as int].size
                &&& final(self).voices@[index as int].step == old(self).voices@[index as int].step
                &&& final(self).voices@[index as int].pan == old(self).voices@[index as int].pan
                &&& final(self).voices@[index as int].level == old(self).voices@[index as int].level
            },
            index >= 6 ==> final(self).voices == old(self).voices,
            final(self).key_mask == old(self).key_mask,
            final(self).total_level == old(self).total_level,
            final(self).total_volume == old(self).total_volume,
            final(self).adpcm_rom_present == old(self).adpcm_rom_present,
            final(self).peaks == old(self).peaks,
    {
        if index < RHYTHM_VOICES {
            let capped = if db < 20 { db } else { 20 };
            let doubled = capped * 2;
            let volume = if doubled >= 0 { -(doubled / 3) } else { (-doubled) / 3 };
            self.voices[index].volume = volume;
        }
    }

    /// Returns the per-voice peak magnitudes since the last call and clears them.
    pub fn take_peaks(&mut self) -> (peaks: [i32; 6])
        requires
            old(self).wf(),
        ensures
            final(self).wf(),
            peaks == old(self).peaks,
            final(self).peaks@ == seq![0i32, 0, 0, 0, 0, 0],
            final(self).voices == old(self).voices,
            final(self).key_mask == old(self).key_mask,
    {
        let peaks = self.peaks;
        self.peaks = [0, 0, 0, 0, 0, 0];
        assert(self.peaks@ =~= seq![0i32, 0, 0, 0, 0, 0]);
        peaks
    }

    /// Mixes the keyed voices into interleaved stereo frames, adding to what
    /// `output` holds; each voice plays until it reaches the end of its
    /// sample, and its peak magnitude is recorded.
    pub fn render(&mut self, output: &mut [i32])
        requires
            old(self).wf(),
            forall|k: int| 0 <= k < old(output)@.len() ==> -0x4000_0000 <= #[trigger] old(output)@[k] <= 0x4000_0000,
        ensures
            final(self).wf(),
            final(output)@.len() == old(output)@.len(),
            rhythm_silent(*old(self)) ==> final(output)@ == old(output)@ && *final(self) == *old(self),
            !rhythm_silent(*old(self)) ==> {
                let frames = (old(output)@.len() / 2) as nat;
                &&& forall|f: nat, right: bool| f < frames ==> #[trigger] frame_value(final(output)@, f as int, right)
                    == frame_value(old(output)@, f as int, right) + rhythm_mix(*old(self), f, right, 6)
                &&& forall|k: int| 2 * frames <= k < old(output)@.len() ==> final(output)@[k] == old(output)@[k]
                &&& rhythm_advanced(*old(self), *final(self), frames)
            },
    {
        if self.adpcm_rom_present || self.total_volume >= 128 || self.key_mask & 0x3f == 0 || !self.bank_complete() {
            return;
        }
        let ghost e0 = *self;
        let ghost out0 = output@;
        let frame_count = output.len() / 2;
        let mut index: usize = 0;
        while index < RHYTHM_VOICES
            invariant
                0 <= index <= 6,
                self.wf(),
                e0.wf(),
                frame_count == out0.len() / 2,
                output@.len() == out0.len(),
                forall|i: int| 0 <= i < 6 ==> (#[trigger] e0.voices@[i]).sample is Some,
                forall|k: int| 0 <= k < out0.len() ==> -0x4000_0000 <= #[trigger] out0[k] <= 0x4000_0000,
                self.key_mask == e0.key_mask,
                self.total_level == e0.total_level,
                self.total_volume == e0.total_volume,
                self.adpcm_rom_present == e0.adpcm_rom_present,
                forall|f: nat, right: bool| f < frame_count ==> #[trigger] frame_value(output@, f as int, right)
                    == frame_value(out0, f as int, right) + rhythm_mix(e0, f, right, index as int),
                forall|k: int| 2 * frame_count <= k < out0.len() ==> output@[k] == out0[k],
                forall|i: int| 0 <= i < index ==> #[trigger] self.voices@[i] == (if mask_has(e0.key_mask as u32, i) {
                    RhythmVoice { pos: voice_pos(e0.voices@[i], voice_played(e0.voices@[i], frame_count as nat)), ..e0.voices@[i] }
                } else {
                    e0.voices@[i]
                }),
                forall|i: int| 0 <= i < index ==> #[trigger] self.peaks@[i] == (if mask_has(e0.key_mask as u32, i) {
                    voice_peak(e0, i, e0.peaks@[i], frame_count as nat)
                } else {
                    e0.peaks@[i]
                }),
                forall|i: int| index <= i < 6 ==> #[trigger] self.voices@[i] == e0.voices@[i],
                forall|i: int| index <= i < 6 ==> #[trigger] self.peaks@[i] == e0.peaks@[i],
            decreases 6 - index,
        {
            let ghost before = output@;
            proof {
                assert forall|f: nat, right: bool| f < frame_count implies
                    -0x4000_0000 - 524288 * index <= #[trigger] frame_value(before, f as int, right) <= 0x4000_0000 + 524287 * index by {
                    assert forall|i: int| 0 <= i < 6 implies -524288 <= #[trigger] voice_contribution(e0, i, f, right) <= 524287 by {
                        lemma_contribution_bound(e0, i, f, right);
                    }
                    lemma_mix_bound(e0, f, right, index as int);
                    let _ = out0[2 * f + if right { 1int } else { 0int }];
                }
            }
            if (self.key_mask as u32) & (1u32 << index as u32) != 0 {
                let voice_level = self.voices[index].level as i32;
                let voice_volume = self.voices[index].volume;
                let db = clamp_i32(self.total_level as i32 + self.total_volume + voice_level + voice_volume, -31, 127);
                proof {
                    lemma_table_bounded(RHYTHM_TL_POS + db);
                    lemma_gain_bound(RHYTHM_TL_TABLE@[RHYTHM_TL_POS + db]);
                }
                let gain = (RHYTHM_TL_TABLE[(RHYTHM_TL_POS + db) as usize] >> 4) as i32;
                let pan = self.voices[index].pan;
                let size = self.voices[index].size;
                let step = self.voices[index].step;
                let mut pos = self.voices[index].pos;
                let mut peak = self.peaks[index];
                let samples = self.voices[index].sample.as_ref().unwrap();
                let ghost v = e0.voices@[index as int];
                assert(gain == voice_gain(e0, index as int));
                let mut frame: usize = 0;
                while frame < frame_count && pos < size
                    invariant
                        0 <= frame <= frame_count,
                        frame_count == out0.len() / 2,
                        output@.len() == out0.len(),
                        index < 6,
                        e0.wf(),
                        v == e0.voices@[index as int],
                        mask_has(e0.key_mask as u32, index as int),
                        samples@ == voice_samples(v),
                        size == v.size,
                        step == v.step,
                        pan == v.pan,
                        gain == voice_gain(e0, index as int),
                        0 <= gain <= 0xffff,
                        pos == voice_pos(v, frame as nat),
                        frame > 0 ==> voice_plays(v, (frame - 1) as nat),
                        peak == voice_peak(e0, index as int, e0.peaks@[index as int], frame as nat),
                        0 <= peak <= 524288,
                        forall|f: nat, right: bool| f < frame_count ==> -0x4000_0000 - 524288 * index <= #[trigger] frame_value(before, f as int, right) <= 0x4000_0000 + 524287 * index,
                        forall|f: nat, right: bool| f < frame ==> #[trigger] frame_value(output@, f as int, right)
                            == frame_value(before, f as int, right) + voice_contribution(e0, index as int, f, right),
                        forall|f: nat, right: bool| frame <= f < frame_count ==> #[trigger] frame_value(output@, f as int, right)
                            == frame_value(before, f as int, right),
                        forall|k: int| 2 * frame_count <= k < out0.len() ==> output@[k] == before[k],
                        before.len() == out0.len(),
                    decreases frame_count - frame,
                {
                    proof {
                        assert(voice_plays(v, frame as nat));
                        lemma_contribution_bound(e0, index as int, frame as nat, false);
                    }
                    let raw = samples[(pos / 1024) as usize] as i32;
                    assert(-2147450880 <= raw * gain <= 2147450880) by (nonlinear_arith)
                        requires -32768 <= raw <= 32767, 0 <= gain <= 0xffff;
                    proof { lemma_sample_bound((raw * gain) as i32); }
                    let sample = (raw * gain) >> 12;
                    let magnitude = if sample < 0 { -sample } else { sample };
                    if magnitude > peak {
                        peak = magnitude;
                    }
                    pos = pos.wrapping_add(step);
                    let destination = frame * 2;
                    let ghost prior = output@;
                    proof {
                        let fnat: nat = frame as nat;
                        assert(frame_value(output@, fnat as int, false) == frame_value(before, fnat as int, false));
                        assert(frame_value(output@, fnat as int, true) == frame_value(before, fnat as int, true));
                        assert(-0x4000_0000 - 524288 * index <= frame_value(before, fnat as int, false) <= 0x4000_0000 + 524287 * index);
                        assert(-0x4000_0000 - 524288 * index <= frame_value(before, fnat as int, true) <= 0x4000_0000 + 524287 * index);
                    }
                    if pan & 2 != 0 {
                        output[destination] = output[destination] + sample;
                    }
                    if pan & 1 != 0 {
                        output[destination + 1] = output[destination + 1] + sample;
                    }
                    proof {
                        assert forall|f: nat, right: bool| f < frame_count && f != frame implies
                            #[trigger] frame_value(output@, f as int, right) == frame_value(prior, f as int, right) by {
                            assert(2 * f + (if right { 1int } else { 0int }) != destination);
                            assert(2 * f + (if right { 1int } else { 0int }) != destination + 1);
                        }
                        assert forall|k: int| 2 * frame_count <= k < out0.len() implies output@[k] == prior[k] by {}
                    }
                    frame = frame + 1;
                }
                proof {
                    if frame < frame_count {
                        assert(!voice_plays(v, frame as nat));
                        lemma_played_full(v, frame as nat);
                        lemma_played_stops(v, frame as nat, frame_count as nat);
                        lemma_peak_stops(e0, index as int, e0.peaks@[index as int], frame as nat, frame_count as nat);
                    } else {
                        lemma_played_full(v, frame as nat);
                    }
                }
                self.peaks[index] = peak;
                self.voices[index].pos = pos;
            }
            index = index + 1;
        }
    }

    fn bank_complete(&self) -> (complete: bool)
        ensures
            complete == forall|i: int| 0 <= i < 6 ==> (#[trigger] self.voices@[i]).sample is Some,
    {
        let mut i: usize = 0;
        while i < RHYTHM_VOICES
            invariant
                0 <= i <= 6,
                forall|j: int| 0 <= j < i ==> (#[trigger] self.voices@[j]).sample is Some,
            decreases 6 - i,
        {
            if self.voices[i].sample.is_none() {
                return false;
            }
            i = i + 1;
        }
        true
    }
}

} // verus!
