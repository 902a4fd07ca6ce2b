use vstd::prelude::*;
use super::timing::{Tempo, tempo_from_timer_b, DEFAULT_TIMER_B};

verus! {

/// The sound source a part plays on.
#[derive(Clone, Copy, Debug, PartialEq, Eq, Structural)]
pub enum ChannelKind {
    Fm,
    Ssg,
    Rhythm,
    Adpcm,
    P86,
    Ppz8,
}

impl ChannelKind {
    pub fn is_fm(self) -> (fm: bool)
        ensures
            fm == (self == ChannelKind::Fm),
    {
        match self {
            ChannelKind::Fm => true,
            _ => false,
        }
    }

    pub fn is_ssg_or_rhythm(self) -> (r: bool)
        ensures
            r == (self == ChannelKind::Ssg || self == ChannelKind::Rhythm),
    {
        match self {
            ChannelKind::Ssg | ChannelKind::Rhythm => true,
            _ => false,
        }
    }

    pub fn is_pcm(self) -> (pcm: bool)
        ensures
            pcm == (self == ChannelKind::Adpcm || self == ChannelKind::P86 || self == ChannelKind::Ppz8),
    {
        match self {
            ChannelKind::Adpcm | ChannelKind::P86 | ChannelKind::Ppz8 => true,
            _ => false,
        }
    }
}

/// A chip register write the sequencer produces.
#[derive(Clone, Copy, Debug, PartialEq, Eq, Structural)]
pub struct RegisterWrite {
    pub address: u16,
    pub value: u8,
}

/// A request to start or stop an SSG sound effect.
#[derive(Clone, Copy, Debug, PartialEq, Eq, Structural)]
pub enum EffectRequest {
    Start { index: u8, correction: u8 },
    Stop,
}

/// The driver's per-part work area.
#[derive(Clone, Copy, Debug, PartialEq, Eq)]
pub struct ChannelState {
    pub kind: ChannelKind,
    pub volume: i32,
    pub qdata: i32,
    pub qdat2: i32,
    pub qdat3: i32,
    pub qdatb: i32,
    pub qdat: i32,
    pub fnum: i32,
    pub p86_fnum: u32,
    pub onkai: i32,
    pub onkai_def: i32,
    pub keyoff_flag: i32,
    pub detune: i32,
    pub shift: i32,
    pub shift_def: i32,
    pub mdspd: i32,
    pub mdspd2: i32,
    pub mdepth: i32,
    pub secondary_mdepth: i32,
    pub mdc: i32,
    pub mdc2: i32,
    pub secondary_mdc: i32,
    pub secondary_mdc2: i32,
    pub delay: i32,
    pub speed: i32,
    pub step: i32,
    pub time: i32,
    pub secondary_delay: i32,
    pub secondary_speed: i32,
    pub secondary_step: i32,
    pub secondary_time: i32,
    pub lfo_data: i32,
    pub secondary_lfo_data: i32,
    pub lfoswi: i32,
    pub lfo_wave: i32,
    pub secondary_lfo_wave: i32,
    pub extendmode: i32,
    pub hldelay: i32,
    pub fmpan: i32,
    pub reverse_pan: i32,
    pub psg_pattern: i32,
    pub pdr_switch: i32,
    pub voice_number: i32,
    pub part_mask: i32,
    pub slot_mask: i32,
    pub voice_mask: i32,
    pub volume_mask: i32,
    pub secondary_volume_mask: i32,
    pub carrier: i32,
    pub slot_tl: [i32; 4],
    pub slot_detune: [i32; 4],
    pub algorithm_feedback: i32,
    pub sdelay: i32,
    pub sdelay_counter: i32,
    pub sdelay_mask: i32,
    pub hard_lfo_pan: i32,
    pub vol_push: i32,
    pub key_on_count: i32,
    pub loop_check: i32,
    pub part_loop: Option<usize>,
    pub porta_from: i32,
    pub porta_to: i32,
    pub porta_length: i32,
    pub porta_num: i32,
    pub porta_num2: i32,
    pub porta_num3: i32,
    pub porta_delta: i32,
    pub porta_enabled: bool,
    pub env_flag: i32,
    pub env_count: i32,
    pub env_ar: i32,
    pub env_dr: i32,
    pub env_sr: i32,
    pub env_rr: i32,
    pub env_sl: i32,
    pub env_al: i32,
    pub env_arc: i32,
    pub env_drc: i32,
    pub env_src: i32,
    pub env_rrc: i32,
    pub env_volume: i32,
    pub repeat_start: i32,
    pub repeat_end: i32,
    pub release_start: i32,
    pub fm3_part_offsets: [u16; 3],
    pub external_part_offsets: [u16; 8],
    pub effect_value: i32,
    pub pcm86_volume: i32,
}

/// A part's starting volume on each sound source.
pub open spec fn channel_default_volume(kind: ChannelKind) -> i32 {
    match kind {
        ChannelKind::Fm => 108,
        ChannelKind::Ssg => 8,
        ChannelKind::Rhythm => 15,
        _ => 128,
    }
}

/// A fresh part work area for a sound source.
pub open spec fn initial_channel(kind: ChannelKind) -> ChannelState {
    ChannelState {
        kind: kind,
        volume: channel_default_volume(kind),
        qdata: 0,
        qdat2: 0,
        qdat3: 0,
        qdatb: 0,
        qdat: 0,
        fnum: 0,
        p86_fnum: 0,
        onkai: 255,
        onkai_def: 255,
        keyoff_flag: -1i32,
        detune: 0,
        shift: 0,
        shift_def: 0,
        mdspd: 0,
        mdspd2: 0,
        mdepth: 0,
        secondary_mdepth: 0,
        mdc: -1i32,
        mdc2: -1i32,
        secondary_mdc: -1i32,
        secondary_mdc2: -1i32,
        delay: 0,
        speed: 0,
        step: 0,
        time: 0,
        secondary_delay: 0,
        secondary_speed: 0,
        secondary_step: 0,
        secondary_time: 0,
        lfo_data: 0,
        secondary_lfo_data: 0,
        lfoswi: 0,
        lfo_wave: 0,
        secondary_lfo_wave: 0,
        extendmode: 0,
        hldelay: 0,
        fmpan: (if kind == ChannelKind::Ppz8 { 5 } else { 0xc0 }),
        reverse_pan: 1,
        psg_pattern: (if kind == ChannelKind::Ssg { 7 } else { 0 }),
        pdr_switch: 0,
        voice_number: 0,
        part_mask: 0,
        slot_mask: 0xf0,
        voice_mask: (if kind == ChannelKind::Fm { 0xff } else { 0 }),
        volume_mask: 0,
        secondary_volume_mask: 0,
        carrier: 0,
        slot_tl: [0i32, 0, 0, 0],
        slot_detune: [0i32, 0, 0, 0],
        algorithm_feedback: 0,
        sdelay: 0,
        sdelay_counter: 0,
        sdelay_mask: 0,
        hard_lfo_pan: 0,
        vol_push: 0,
        key_on_count: 0,
        loop_check: 0,
        part_loop: None,
        porta_from: 0,
        porta_to: 0,
        porta_length: 0,
        porta_num: 0,
        porta_num2: 0,
        porta_num3: 0,
        porta_delta: 0,
        porta_enabled: false,
        env_flag: (if kind == ChannelKind::Ssg { 3 } else { 0 }),
        env_count: 0,
        env_ar: 0,
        env_dr: 0,
        env_sr: 0,
        env_rr: 0,
        env_sl: 0,
        env_al: 0,
        env_arc: 0,
        env_drc: 0,
        env_src: 0,
        env_rrc: 0,
        env_volume: 0,
        repeat_start: 0,
        repeat_end: 0,
        release_start: 0x8000,
        fm3_part_offsets: [0u16, 0, 0],
        external_part_offsets: [0u16, 0, 0, 0, 0, 0, 0, 0],
        effect_value: 0,
        pcm86_volume: 0,
    }
}

/// The largest volume a part can hold on its sound source.
pub open spec fn volume_limit_spec(kind: ChannelKind) -> i32 {
    if kind == ChannelKind::Fm {
        127
    } else if kind == ChannelKind::Ssg || kind == ChannelKind::Rhythm {
        15
    } else {
        255
    }
}

/// The main LFO restarted from its saved parameters (the triangle-like
/// waves 2 and 3 restart at speed 1, the others one step later).
pub open spec fn lfo_reset(c: ChannelState) -> ChannelState {
    ChannelState {
        lfo_data: 0,
        delay: c.secondary_delay,
        speed: if c.lfo_wave == 2 || c.lfo_wave == 3 { 1 } else { vstd::wrapping::i32_specs::wrapping_add(c.secondary_speed, 1) },
        step: c.secondary_step,
        time: c.secondary_time,
        mdc: c.mdc2,
        ..c
    }
}

/// Two nibbles exchanged.
pub open spec fn nibbles_swapped(v: i32) -> i32 {
    (((v & 0x0f) << 4) | (v >> 4)) as i32
}

/// The work area with the first and second LFO exchanged.
pub open spec fn lfo_swapped(c: ChannelState) -> ChannelState {
    ChannelState {
        lfo_data: c.secondary_lfo_data,
        secondary_lfo_data: c.lfo_data,
        lfoswi: nibbles_swapped(c.lfoswi),
        extendmode: nibbles_swapped(c.extendmode),
        delay: c.secondary_delay,
        secondary_delay: c.delay,
        speed: c.secondary_speed,
        secondary_speed: c.speed,
        step: c.secondary_step,
        secondary_step: c.step,
        time: c.secondary_time,
        secondary_time: c.time,
        volume_mask: c.secondary_volume_mask,
        secondary_volume_mask: c.volume_mask,
        mdepth: c.secondary_mdepth,
        secondary_mdepth: c.mdepth,
        mdspd: c.mdspd2,
        mdspd2: c.mdspd,
        lfo_wave: c.secondary_lfo_wave,
        secondary_lfo_wave: c.lfo_wave,
        mdc: c.secondary_mdc,
        secondary_mdc: c.mdc,
        mdc2: c.secondary_mdc2,
        secondary_mdc2: c.mdc2,
        ..c
    }
}

impl ChannelState {
    /// The bounds the driver keeps: volume, switches, masks and the
    /// algorithm/feedback byte and the operator levels within a byte.
    pub open spec fn wf(&self) -> bool {
        &&& 0 <= self.volume <= 255
        &&& 0 <= self.lfoswi <= 0xff
        &&& 0 <= self.extendmode <= 0xff
        &&& 0 <= self.slot_mask <= 0xff
        &&& 0 <= self.part_mask <= 0xff
        &&& 0 <= self.carrier <= 0xff
        &&& 0 <= self.algorithm_feedback <= 0xff
        &&& forall|i: int| 0 <= i < 4 ==> 0 <= #[trigger] self.slot_tl@[i] <= 255
    }

    pub fn new(kind: ChannelKind) -> (state: Self)
        ensures
            state == initial_channel(kind),
            state.wf(),
    {
        let volume = match kind {
            ChannelKind::Fm => 108,
            ChannelKind::Ssg => 8,
            ChannelKind::Rhythm => 15,
            ChannelKind::Adpcm | ChannelKind::P86 | ChannelKind::Ppz8 => 128,
        };
        let fmpan = match kind {
            ChannelKind::Ppz8 => 5,
            _ => 0xc0,
        };
        let is_ssg = match kind {
            ChannelKind::Ssg => true,
            _ => false,
        };
        let psg_pattern = if is_ssg { 7 } else { 0 };
        let env_flag = if is_ssg { 3 } else { 0 };
        let voice_mask = if kind.is_fm() { 0xff } else { 0 };
        ChannelState {
            kind: kind,
            volume: volume,
            qdata: 0,
            qdat2: 0,
            qdat3: 0,
            qdatb: 0,
            qdat: 0,
            fnum: 0,
            p86_fnum: 0,
            onkai: 255,
            onkai_def: 255,
            keyoff_flag: -1,
            detune: 0,
            shift: 0,
            shift_def: 0,
            mdspd: 0,
            mdspd2: 0,
            mdepth: 0,
            secondary_mdepth: 0,
            mdc: -1,
            mdc2: -1,
            secondary_mdc: -1,
            secondary_mdc2: -1,
            delay: 0,
            speed: 0,
            step: 0,
            time: 0,
            secondary_delay: 0,
            secondary_speed: 0,
            secondary_step: 0,
            secondary_time: 0,
            lfo_data: 0,
            secondary_lfo_data: 0,
            lfoswi: 0,
            lfo_wave: 0,
            secondary_lfo_wave: 0,
            extendmode: 0,
            hldelay: 0,
            fmpan: fmpan,
            reverse_pan: 1,
            psg_pattern: psg_pattern,
            pdr_switch: 0,
            voice_number: 0,
            part_mask: 0,
            slot_mask: 0xf0,
            voice_mask: voice_mask,
            volume_mask: 0,
            secondary_volume_mask: 0,
            carrier: 0,
            slot_tl: [0, 0, 0, 0],
            slot_detune: [0, 0, 0, 0],
            algorithm_feedback: 0,
            sdelay: 0,
            sdelay_counter: 0,
            sdelay_mask: 0,
            hard_lfo_pan: 0,
            vol_push: 0,
            key_on_count: 0,
            loop_check: 0,
            part_loop: None,
            porta_from: 0,
            porta_to: 0,
            porta_length: 0,
            porta_num: 0,
            porta_num2: 0,
            porta_num3: 0,
            porta_delta: 0,
            porta_enabled: false,
            env_flag: env_flag,
            env_count: 0,
            env_ar: 0,
            env_dr: 0,
            env_sr: 0,
            env_rr: 0,
            env_sl: 0,
            env_al: 0,
            env_arc: 0,
            env_drc: 0,
            env_src: 0,
            env_rrc: 0,
            env_volume: 0,
            repeat_start: 0,
            repeat_end: 0,
            release_start: 0x8000,
            fm3_part_offsets: [0, 0, 0],
            external_part_offsets: [0, 0, 0, 0, 0, 0, 0, 0],
            effect_value: 0,
            pcm86_volume: 0,
        }
    }

    pub fn volume_limit(&self) -> (limit: i32)
        ensures
            limit == volume_limit_spec(self.kind),
    {
        if self.kind.is_fm() {
            127
        } else if self.kind.is_ssg_or_rhythm() {
            15
        } else {
            255
        }
    }

    /// Restarts the main LFO from its saved delay, speed, step and time.
    pub fn reset_lfo_main(&mut self)
        requires
            old(self).wf(),
        ensures
            final(self).wf(),
            *final(self) == lfo_reset(*old(self)),
    {
        self.lfo_data = 0;
        self.delay = self.secondary_delay;
        self.speed = self.secondary_speed;
        self.step = self.secondary_step;
        self.time = self.secondary_time;
        self.mdc = self.mdc2;
        if self.lfo_wave == 2 || self.lfo_wave == 3 {
            self.speed = 1;
        } else {
            self.speed = self.speed.wrapping_add(1);
        }
    }

    /// Exchanges the first and second LFO's parameters and state.
    pub fn swap_lfo(&mut self)
        requires
            old(self).wf(),
        ensures
            final(self).wf(),
            *final(self) == lfo_swapped(*old(self)),
    {
        let lfo_data = self.lfo_data;
        self.lfo_data = self.secondary_lfo_data;
        self.secondary_lfo_data = lfo_data;
        proof { lemma_nibble_swap_bound(self.lfoswi); lemma_nibble_swap_bound(self.extendmode); }
        self.lfoswi = ((self.lfoswi & 0x0f) << 4) | (self.lfoswi >> 4);
        self.extendmode = ((self.extendmode & 0x0f) << 4) | (self.extendmode >> 4);
        let delay = self.delay;
        self.delay = self.secondary_delay;
        self.secondary_delay = delay;
        let speed = self.speed;
        self.speed = self.secondary_speed;
        self.secondary_speed = speed;
        let step = self.step;
        self.step = self.secondary_step;
        self.secondary_step = step;
        let time = self.time;
        self.time = self.secondary_time;
        self.secondary_time = time;
        let volume_mask = self.volume_mask;
        self.volume_mask = self.secondary_volume_mask;
        self.secondary_volume_mask = volume_mask;
        let mdepth = self.mdepth;
        self.mdepth = self.secondary_mdepth;
        self.secondary_mdepth = mdepth;
        let mdspd = self.mdspd;
        self.mdspd = self.mdspd2;
        self.mdspd2 = mdspd;
        let lfo_wave = self.lfo_wave;
        self.lfo_wave = self.secondary_lfo_wave;
        self.secondary_lfo_wave = lfo_wave;
        let mdc = self.mdc;
        self.mdc = self.secondary_mdc;
        self.secondary_mdc = mdc;
        let mdc2 = self.mdc2;
        self.mdc2 = self.secondary_mdc2;
        self.secondary_mdc2 = mdc2;
    }
}

proof fn lemma_nibble_swap_bound(v: i32)
    by (bit_vector)
    requires
        0 <= v <= 0xff,
    ensures
        0 <= (((v & 0x0f) << 4) | (v >> 4)) <= 0xff,
{
}

/// State the whole sequencer shares between parts.
#[derive(Clone, Debug, PartialEq, Eq)]
pub struct SequencerGlobals {
    pub tempo: Tempo,
    pub tie_flag: i32,
    pub volume_push_flag: i32,
    pub measure_length: u32,
    pub status: i32,
    pub fadeout_flag: bool,
    pub fadeout_speed: i32,
    pub port22h: i32,
    pub fm3_alg_fb: i32,
    pub fm3_slot_detune: [i32; 4],
    pub fm3_slot_detune_flag: i32,
    pub fm3_slot3_flag: i32,
    pub psg_noise: i32,
    pub rhythm_mask: i32,
    pub rhythm_data: [i32; 6],
    pub rhythm_volume: i32,
    pub rhythm_volume_down: i32,
    pub pps_driver: bool,
    pub fm_select: u16,
    pub fm_volume_down: i32,
    pub ssg_volume_down: i32,
    pub pcm_volume_down: i32,
    pub rhythm_volume_down_saved: i32,
    pub pcm86_volume: i32,
    pub ppz_volume_down: i32,
    pub pcm_start: i32,
    pub pcm_stop: i32,
    pub pcm_repeat_start: i32,
    pub pcm_repeat_end: i32,
    pub pcm_release: i32,
    pub p86_pan_flag: i32,
    pub p86_pan_data: i32,
    pub random_seed: i32,
    pub effects: Vec<i32>,
}

impl SequencerGlobals {
    pub fn new() -> (globals: Self)
        ensures
            globals.tempo == tempo_from_timer_b(DEFAULT_TIMER_B),
            globals.tie_flag == 0 && globals.volume_push_flag == 0 && globals.status == 0,
            globals.measure_length == 96,
            !globals.fadeout_flag && globals.fadeout_speed == 0,
            globals.port22h == 0 && globals.fm3_alg_fb == 0,
            globals.fm3_slot_detune@ == seq![0i32, 0, 0, 0],
            globals.fm3_slot_detune_flag == 0 && globals.fm3_slot3_flag == 0,
            globals.psg_noise == 0,
            globals.rhythm_mask == 0xff,
            globals.rhythm_data@ == seq![0xcfi32, 0xcf, 0xcf, 0xcf, 0xcf, 0xcf],
            globals.rhythm_volume == 0x3c,
            globals.rhythm_volume_down == 0,
            !globals.pps_driver,
            globals.fm_select == 0,
            globals.fm_volume_down == 0 && globals.ssg_volume_down == 0 && globals.pcm_volume_down == 0,
            globals.rhythm_volume_down_saved == 0 && globals.pcm86_volume == 0 && globals.ppz_volume_down == 0,
            globals.pcm_start == 0 && globals.pcm_stop == 0,
            globals.pcm_repeat_start == 0 && globals.pcm_repeat_end == 0,
            globals.pcm_release == 0x8000,
            globals.p86_pan_flag == 0 && globals.p86_pan_data == 0,
            globals.random_seed == 0,
            globals.effects@.len() == 0,
    {
        let globals = SequencerGlobals {
            tempo: Tempo::new(),
            tie_flag: 0,
            volume_push_flag: 0,
            measure_length: 96,
            status: 0,
            fadeout_flag: false,
            fadeout_speed: 0,
            port22h: 0,
            fm3_alg_fb: 0,
            fm3_slot_detune: [0, 0, 0, 0],
            fm3_slot_detune_flag: 0,
            fm3_slot3_flag: 0,
            psg_noise: 0,
            rhythm_mask: 0xff,
            rhythm_data: [0xcf, 0xcf, 0xcf, 0xcf, 0xcf, 0xcf],
            rhythm_volume: 0x3c,
            rhythm_volume_down: 0,
            pps_driver: false,
            fm_select: 0,
            fm_volume_down: 0,
            ssg_volume_down: 0,
            pcm_volume_down: 0,
            rhythm_volume_down_saved: 0,
            pcm86_volume: 0,
            ppz_volume_down: 0,
            pcm_start: 0,
            pcm_stop: 0,
            pcm_repeat_start: 0,
            pcm_repeat_end: 0,
            pcm_release: 0x8000,
            p86_pan_flag: 0,
            p86_pan_data: 0,
            random_seed: 0,
            effects: Vec::new(),
        };
        assert(globals.fm3_slot_detune@ =~= seq![0i32, 0, 0, 0]);
        assert(globals.rhythm_data@ =~= seq![0xcfi32, 0xcf, 0xcf, 0xcf, 0xcf, 0xcf]);
        globals
    }
}

/// What a command needs: the part's work area, the shared state, the
/// part's FM channel and the output it produces.
#[derive(Clone, Debug, PartialEq, Eq)]
pub struct CommandState {
    pub channel: ChannelState,
    pub globals: SequencerGlobals,
    pub fm_channel: u16,
    pub writes: Vec<RegisterWrite>,
    pub effect_requests: Vec<EffectRequest>,
}

impl CommandState {
    /// The bounds the commands rely on: a valid part work area, an FM
    /// register bank of 0 or 0x100 and channel 0 to 2, rhythm registers and
    /// shared FM3 algorithm within a byte.
    pub open spec fn wf(&self) -> bool {
        &&& self.channel.wf()
        &&& (self.globals.fm_select == 0 || self.globals.fm_select == 0x100)
        &&& self.fm_channel <= 2
        &&& 0 <= self.globals.rhythm_mask <= 0xff
        &&& 0 <= self.globals.rhythm_volume_down <= 0xff
        &&& 0 <= self.globals.fm3_alg_fb <= 0xff
        &&& 0 <= self.globals.psg_noise <= 0xff
        &&& forall|i: int| 0 <= i < 6 ==> 0 <= #[trigger] self.globals.rhythm_data@[i] <= 0xff
    }

    pub fn new(kind: ChannelKind) -> (state: Self)
        ensures
            state.wf(),
            state.channel == initial_channel(kind),
            state.globals.rhythm_mask == 0xff,
            state.globals.rhythm_data@ == seq![0xcfi32, 0xcf, 0xcf, 0xcf, 0xcf, 0xcf],
            state.globals.rhythm_volume == 0x3c,
            state.globals.rhythm_volume_down == 0,
            state.globals.fm_select == 0,
            state.globals.tempo == tempo_from_timer_b(DEFAULT_TIMER_B),
            state.fm_channel == 0,
            state.writes@.len() == 0,
            state.effect_requests@.len() == 0,
    {
        CommandState {
            channel: ChannelState::new(kind),
            globals: SequencerGlobals::new(),
            fm_channel: 0,
            writes: Vec::new(),
            effect_requests: Vec::new(),
        }
    }

    /// Queues a register write.
    pub fn write_register(&mut self, address: u16, value: u8)
        ensures
            final(self).writes@ == old(self).writes@.push(RegisterWrite { address, value }),
            final(self).channel == old(self).channel,
            final(self).globals == old(self).globals,
            final(self).fm_channel == old(self).fm_channel,
            final(self).effect_requests == old(self).effect_requests,
    {
        self.writes.push(RegisterWrite { address, value });
    }
}


/// Exchanging the two LFOs twice gives the work area back.
pub proof fn law_lfo_swap_twice(c: ChannelState)
    requires
        c.wf(),
    ensures
        lfo_swapped(lfo_swapped(c)) == c,
{
    let l = c.lfoswi;
    let e = c.extendmode;
    assert(nibbles_swapped(nibbles_swapped(l)) == l && nibbles_swapped(nibbles_swapped(e)) == e) by (bit_vector)
        requires 0 <= l <= 0xff, 0 <= e <= 0xff;
}

} // verus!
