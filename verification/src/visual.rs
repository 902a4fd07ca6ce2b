use vstd::prelude::*;
use crate::pmd::channel::ChannelKind;
use crate::pmd::stream::PartEvent;

verus! {

/// The number of channel rows a snapshot covers: six FM, three SSG, the
/// ADPCM channel and the rhythm section.
pub const CHANNEL_COUNT: usize = 11;

/// The note value of a row that plays nothing.
pub const NO_NOTE: u8 = 0xff;

/// Which sound source a channel row belongs to.
#[derive(Clone, Copy, Debug, PartialEq, Eq, Structural)]
pub enum VisualChannelKind {
    Fm,
    Ssg,
    Adpcm,
    Rhythm,
}

impl Default for VisualChannelKind {
    fn default() -> (kind: Self)
        ensures
            kind == VisualChannelKind::Fm,
    {
        VisualChannelKind::Fm
    }
}

/// What one channel is doing at a moment of playback, for display.
#[derive(Clone, Copy, Debug, PartialEq, Eq, Structural)]
pub struct ChannelSnapshot {
    pub kind: VisualChannelKind,
    pub active: bool,
    pub releasing: bool,
    pub note: u8,
    pub voice: u8,
    pub level: u8,
    pub pan: u8,
    pub pitch: u32,
    pub lfo: i16,
    pub envelope: i16,
    pub remaining: u16,
    pub operator_mask: u8,
    pub voice_mask: u16,
    pub trigger: u32,
}

/// An idle FM row: no note, no voice, centred.
pub open spec fn idle_snapshot(kind: VisualChannelKind) -> ChannelSnapshot {
    ChannelSnapshot {
        kind,
        active: false,
        releasing: false,
        note: NO_NOTE,
        voice: NO_NOTE,
        level: 0,
        pan: 128,
        pitch: 0,
        lfo: 0,
        envelope: 0,
        remaining: 0,
        operator_mask: 0,
        voice_mask: 0,
        trigger: 0,
    }
}

impl Default for ChannelSnapshot {
    fn default() -> (snapshot: Self)
        ensures
            snapshot == idle_snapshot(VisualChannelKind::Fm),
    {
        ChannelSnapshot {
            kind: VisualChannelKind::Fm,
            active: false,
            releasing: false,
            note: NO_NOTE,
            voice: NO_NOTE,
            level: 0,
            pan: 128,
            pitch: 0,
            lfo: 0,
            envelope: 0,
            remaining: 0,
            operator_mask: 0,
            voice_mask: 0,
            trigger: 0,
        }
    }
}

/// The source a channel row shows: rows 0-5 are FM, 6-8 SSG, 9 ADPCM and
/// the rest rhythm.
pub open spec fn row_kind(index: int) -> VisualChannelKind {
    if index <= 5 {
        VisualChannelKind::Fm
    } else if index <= 8 {
        VisualChannelKind::Ssg
    } else if index == 9 {
        VisualChannelKind::Adpcm
    } else {
        VisualChannelKind::Rhythm
    }
}

/// Idle snapshots for every channel row, each tagged with its source.
pub fn empty_channel_snapshots() -> (snapshots: [ChannelSnapshot; 11])
    ensures
        forall|i: int| 0 <= i < 11 ==> #[trigger] snapshots@[i] == idle_snapshot(row_kind(i)),
{
    let mut snapshots = [ChannelSnapshot::default(); 11];
    let mut index: usize = 0;
    while index < CHANNEL_COUNT
        invariant
            0 <= index <= 11,
            forall|i: int| 0 <= i < index ==> #[trigger] snapshots@[i] == idle_snapshot(row_kind(i)),
            forall|i: int| index <= i < 11 ==> #[trigger] snapshots@[i] == idle_snapshot(VisualChannelKind::Fm),
        decreases 11 - index,
    {
        let kind = if index <= 5 {
            VisualChannelKind::Fm
        } else if index <= 8 {
            VisualChannelKind::Ssg
        } else if index == 9 {
            VisualChannelKind::Adpcm
        } else {
            VisualChannelKind::Rhythm
        };
        snapshots[index].kind = kind;
        index = index + 1;
    }
    snapshots
}

/// Playback progress as the player reports it.
#[derive(Clone, Copy, Debug, PartialEq, Eq, Structural)]
pub struct PlaybackStatus {
    pub ticks: u64,
    pub loops_completed: u32,
    pub loop_limit: Option<u32>,
    pub timer_b: u8,
    pub tempo_quarter: u8,
    pub ended: bool,
}

impl Default for PlaybackStatus {
    fn default() -> (status: Self)
        ensures
            status == (PlaybackStatus {
                ticks: 0,
                loops_completed: 0,
                loop_limit: None,
                timer_b: 0,
                tempo_quarter: 0,
                ended: false,
            }),
    {
        PlaybackStatus { ticks: 0, loops_completed: 0, loop_limit: None, timer_b: 0, tempo_quarter: 0, ended: false }
    }
}


/// The row a part is shown on: parts 0-10 have their own rows, the extra
/// FM3 parts (11-13) share the third FM row and the PPZ8 parts (14-21) the
/// ADPCM row; -1 for any other.
pub open spec fn visual_row(part: int) -> int {
    if 0 <= part <= 10 {
        part
    } else if 11 <= part <= 13 {
        2
    } else if 14 <= part <= 21 {
        9
    } else {
        -1
    }
}

pub fn visual_channel_index(part: usize) -> (index: Option<usize>)
    ensures
        index == (if visual_row(part as int) < 0 { None::<usize> } else { Some(visual_row(part as int) as usize) }),
{
    if part <= 10 {
        Some(part)
    } else if part <= 13 {
        Some(2)
    } else if part <= 21 {
        Some(9)
    } else {
        None
    }
}

/// The display source of a sequencer part's source.
pub open spec fn visual_kind(kind: ChannelKind) -> VisualChannelKind {
    match kind {
        ChannelKind::Fm => VisualChannelKind::Fm,
        ChannelKind::Ssg => VisualChannelKind::Ssg,
        ChannelKind::Rhythm => VisualChannelKind::Rhythm,
        _ => VisualChannelKind::Adpcm,
    }
}

pub fn visual_channel_kind(kind: ChannelKind) -> (visual: VisualChannelKind)
    ensures
        visual == visual_kind(kind),
{
    match kind {
        ChannelKind::Fm => VisualChannelKind::Fm,
        ChannelKind::Ssg => VisualChannelKind::Ssg,
        ChannelKind::Rhythm => VisualChannelKind::Rhythm,
        ChannelKind::Adpcm | ChannelKind::P86 | ChannelKind::Ppz8 => VisualChannelKind::Adpcm,
    }
}

/// A part volume scaled to the 0-255 display level (FM volumes go to 127,
/// SSG and rhythm to 15).
pub open spec fn level_of(kind: ChannelKind, volume: i32) -> u8 {
    let (maximum, scale) = match kind {
        ChannelKind::Fm => (127int, 2int),
        ChannelKind::Ssg | ChannelKind::Rhythm => (15int, 17int),
        _ => (255int, 1int),
    };
    ((if volume < 0 { 0 } else if volume > maximum { maximum } else { volume as int }) * scale) as u8
}

pub fn visual_level(kind: ChannelKind, volume: i32) -> (level: u8)
    ensures
        level == level_of(kind, volume),
{
    let (maximum, scale): (i32, i32) = match kind {
        ChannelKind::Fm => (127, 2),
        ChannelKind::Ssg | ChannelKind::Rhythm => (15, 17),
        ChannelKind::Adpcm | ChannelKind::P86 | ChannelKind::Ppz8 => (255, 1),
    };
    let clamped = if volume < 0 { 0 } else if volume > maximum { maximum } else { volume };
    assert(0 <= clamped * scale <= 255) by (nonlinear_arith)
        requires 0 <= clamped <= maximum, (maximum == 127 && scale == 2) || (maximum == 15 && scale == 17) || (maximum == 255 && scale == 1);
    (clamped * scale) as u8
}

/// The display pan of an FM part (left 0, right 255, centre 128); other
/// sources show centre.
pub open spec fn pan_of(kind: ChannelKind, fmpan: i32) -> u8 {
    if kind != ChannelKind::Fm {
        128
    } else if fmpan & 0xc0 == 0x40 {
        0
    } else if fmpan & 0xc0 == 0x80 {
        255
    } else {
        128
    }
}

pub fn visual_pan(kind: ChannelKind, fmpan: i32) -> (pan: u8)
    ensures
        pan == pan_of(kind, fmpan),
{
    match kind {
        ChannelKind::Fm => {},
        _ => {
            return 128;
        },
    }
    let bits = fmpan & 0xc0;
    if bits == 0x40 {
        0
    } else if bits == 0x80 {
        255
    } else {
        128
    }
}

/// The voice bit an event of a part sets in its row: the row's own part
/// has bit 0, a shared part (11 and up) bit `part - 10`.
pub open spec fn voice_bit(part: int) -> u16 {
    if part < 11 { 1 } else if part <= 21 { (1u16 << ((part - 10) as u16)) } else { 0 }
}

pub fn event_voice_mask(part: usize) -> (mask: u16)
    requires
        part <= 21,
    ensures
        mask == voice_bit(part as int),
{
    if part < CHANNEL_COUNT {
        1
    } else {
        1u16 << ((part - 10) as u16)
    }
}

/// The number of set bits of a mask.
pub open spec fn bit_count(mask: u16) -> nat
    decreases mask,
{
    if mask == 0 { 0 } else { (mask % 2) as nat + bit_count(mask / 2) }
}

/// The row of the part an event is about, with the event applied.
pub open spec fn event_applied(s: ChannelSnapshot, event: PartEvent) -> ChannelSnapshot {
    let bump = vstd::wrapping::u32_specs::wrapping_add(s.trigger, 1);
    match event {
        PartEvent::Note { part, kind, value, length, masked } => ChannelSnapshot {
            kind: visual_kind(kind),
            active: !masked,
            releasing: false,
            note: if masked || value == NO_NOTE || value & 0x0f == 0x0c { NO_NOTE } else { value },
            remaining: length as u16,
            level: if masked { 0 } else { 255 },
            voice_mask: if part == 2 { s.voice_mask | voice_bit(part as int) } else { voice_bit(part as int) },
            trigger: bump,
            ..s
        },
        PartEvent::Portamento { part, kind, length } => ChannelSnapshot {
            kind: visual_kind(kind),
            active: true,
            releasing: false,
            remaining: length as u16,
            ..s
        },
        PartEvent::KeyOff { part, kind } => ChannelSnapshot {
            kind: visual_kind(kind),
            releasing: true,
            remaining: 0,
            ..s
        },
        PartEvent::Frame { part, kind, state } => ChannelSnapshot {
            kind: visual_kind(kind),
            active: s.active || state.force_key_on,
            level: level_of(kind, state.volume),
            pitch: if state.p86_pitch != 0 { state.p86_pitch } else if state.pitch < 0 { 0 } else { state.pitch as u32 },
            lfo: (if state.pitch_lfo < -32768 { -32768 } else if state.pitch_lfo > 32767 { 32767 } else { state.pitch_lfo as int }) as i16,
            envelope: (if state.envelope < -32768 { -32768 } else if state.envelope > 32767 { 32767 } else { state.envelope as int }) as i16,
            remaining: (if state.remaining < 0 { 0 } else if state.remaining > 65535 { 65535 } else { state.remaining as int }) as u16,
            operator_mask: (if state.slot_mask < 0 { 0 } else if state.slot_mask > 255 { 255 } else { state.slot_mask as int }) as u8,
            voice: if state.voice_number < 0 { NO_NOTE } else if state.voice_number > 255 { 255 } else { state.voice_number as u8 },
            pan: pan_of(kind, state.fmpan),
            voice_mask: if part < 11 && part != 2 { voice_bit(part as int) } else { s.voice_mask | voice_bit(part as int) },
            trigger: if state.force_key_on { bump } else { s.trigger },
            ..s
        },
        PartEvent::Rhythm { part, mask, length } => ChannelSnapshot {
            kind: VisualChannelKind::Rhythm,
            active: true,
            releasing: false,
            note: NO_NOTE,
            voice: NO_NOTE,
            level: if bit_count(mask) * 32 > 255 { 255 } else { (bit_count(mask) * 32) as u8 },
            remaining: length as u16,
            voice_mask: mask,
            trigger: bump,
            ..s
        },
        PartEvent::Ended { part, kind } => {
            let cleared = s.voice_mask & !voice_bit(part as int);
            ChannelSnapshot {
                kind: visual_kind(kind),
                voice_mask: cleared,
                active: cleared != 0,
                releasing: true,
                remaining: 0,
                ..s
            }
        },
    }
}

/// The part an event is about.
pub open spec fn event_part(event: PartEvent) -> usize {
    match event {
        PartEvent::Note { part, .. } => part,
        PartEvent::Portamento { part, .. } => part,
        PartEvent::KeyOff { part, .. } => part,
        PartEvent::Frame { part, .. } => part,
        PartEvent::Rhythm { part, .. } => part,
        PartEvent::Ended { part, .. } => part,
    }
}

/// The rows after one event: only the row of the event's part changes;
/// events of parts without a row change nothing.
pub open spec fn rows_after_event(rows: Seq<ChannelSnapshot>, event: PartEvent) -> Seq<ChannelSnapshot> {
    let row = visual_row(event_part(event) as int);
    if row < 0 { rows } else { rows.update(row, event_applied(rows[row], event)) }
}

/// The rows after a sequence of events, applied in order.
pub open spec fn rows_after_events(rows: Seq<ChannelSnapshot>, events: Seq<PartEvent>) -> Seq<ChannelSnapshot>
    decreases events.len(),
{
    if events.len() == 0 {
        rows
    } else {
        rows_after_event(rows_after_events(rows, events.drop_last()), events.last())
    }
}

fn count_bits(mask: u16) -> (count: u32)
    ensures
        count == bit_count(mask),
{
    proof { lemma_bit_count_bound(mask); }
    let mut rest = mask;
    let mut count: u32 = 0;
    while rest != 0
        invariant
            count + bit_count(rest) == bit_count(mask),
            bit_count(mask) <= mask,
        decreases rest,
    {
        count = count + (rest % 2) as u32;
        rest = rest / 2;
    }
    count
}

proof fn lemma_bit_count_bound(mask: u16)
    ensures
        bit_count(mask) <= mask,
    decreases mask,
{
    if mask != 0 {
        lemma_bit_count_bound(mask / 2);
    }
}

fn apply_event(snapshot: &mut ChannelSnapshot, event: &PartEvent)
    requires
        visual_row(event_part(*event) as int) >= 0,
    ensures
        *final(snapshot) == event_applied(*old(snapshot), *event),
{
    match event {
        PartEvent::Note { part, kind, value, length, masked } => {
            snapshot.kind = visual_channel_kind(*kind);
            snapshot.active = !*masked;
            snapshot.releasing = false;
            snapshot.note = if *masked || *value == NO_NOTE || *value & 0x0f == 0x0c { NO_NOTE } else { *value };
            snapshot.remaining = *length as u16;
            snapshot.level = if *masked { 0 } else { 255 };
            if *part == 2 {
                snapshot.voice_mask = snapshot.voice_mask | event_voice_mask(*part);
            } else {
                snapshot.voice_mask = event_voice_mask(*part);
            }
            snapshot.trigger = snapshot.trigger.wrapping_add(1);
        },
        PartEvent::Portamento { part, kind, length } => {
            snapshot.kind = visual_channel_kind(*kind);
            snapshot.active = true;
            snapshot.releasing = false;
            snapshot.remaining = *length as u16;
        },
        PartEvent::KeyOff { part, kind } => {
            snapshot.kind = visual_channel_kind(*kind);
            snapshot.releasing = true;
            snapshot.remaining = 0;
        },
        PartEvent::Frame { part, kind, state } => {
            snapshot.kind = visual_channel_kind(*kind);
            snapshot.active = snapshot.active || state.force_key_on;
            snapshot.level = visual_level(*kind, state.volume);
            snapshot.pitch = if state.p86_pitch != 0 {
                state.p86_pitch
            } else if state.pitch < 0 {
                0
            } else {
                state.pitch as u32
            };
            let lfo = state.pitch_lfo;
            snapshot.lfo = (if lfo < -32768 { -32768 } else if lfo > 32767 { 32767 } else { lfo }) as i16;
            let envelope = state.envelope;
            snapshot.envelope = (if envelope < -32768 { -32768 } else if envelope > 32767 { 32767 } else { envelope }) as i16;
            let remaining = state.remaining;
            snapshot.remaining = (if remaining < 0 { 0 } else if remaining > 65535 { 65535 } else { remaining }) as u16;
            let slots = state.slot_mask;
            snapshot.operator_mask = (if slots < 0 { 0 } else if slots > 255 { 255 } else { slots }) as u8;
            snapshot.voice = if state.voice_number < 0 {
                NO_NOTE
            } else if state.voice_number > 255 {
                255
            } else {
                state.voice_number as u8
            };
            snapshot.pan = visual_pan(*kind, state.fmpan);
            let mask = event_voice_mask(*part);
            if *part < CHANNEL_COUNT && *part != 2 {
                snapshot.voice_mask = mask;
            } else {
                snapshot.voice_mask = snapshot.voice_mask | mask;
            }
            if state.force_key_on {
                snapshot.trigger = snapshot.trigger.wrapping_add(1);
            }
        },
        PartEvent::Rhythm { part, mask, length } => {
            snapshot.kind = VisualChannelKind::Rhythm;
            snapshot.active = true;
            snapshot.releasing = false;
            snapshot.note = NO_NOTE;
            snapshot.voice = NO_NOTE;
            proof { lemma_bit_count_bound(*mask); }
            let count = count_bits(*mask);
            snapshot.level = if count * 32 > 255 { 255 } else { (count * 32) as u8 };
            snapshot.remaining = *length as u16;
            snapshot.voice_mask = *mask;
            snapshot.trigger = snapshot.trigger.wrapping_add(1);
        },
        PartEvent::Ended { part, kind } => {
            snapshot.kind = visual_channel_kind(*kind);
            let mask = event_voice_mask(*part);
            snapshot.voice_mask = snapshot.voice_mask & !mask;
            snapshot.active = snapshot.voice_mask != 0;
            snapshot.releasing = true;
            snapshot.remaining = 0;
        },
    }
}

/// The channel rows after a tick's events, each event applied in order to
/// the row of its part.
pub fn channel_snapshot_after_events(snapshots: [ChannelSnapshot; 11], events: &[PartEvent]) -> (rows: [ChannelSnapshot; 11])
    ensures
        rows@ == rows_after_events(snapshots@, events@),
{
    let mut rows = snapshots;
    let mut index: usize = 0;
    while index < events.len()
        invariant
            index <= events@.len(),
            rows@.len() == 11,
            rows@ == rows_after_events(snapshots@, events@.take(index as int)),
        decreases events@.len() - index,
    {
        let event = &events[index];
        let part = match event {
            PartEvent::Note { part, .. } => *part,
            PartEvent::Portamento { part, .. } => *part,
            PartEvent::KeyOff { part, .. } => *part,
            PartEvent::Frame { part, .. } => *part,
            PartEvent::Rhythm { part, .. } => *part,
            PartEvent::Ended { part, .. } => *part,
        };
        proof {
            assert(events@.take(index as int + 1).drop_last() =~= events@.take(index as int));
            assert(events@.take(index as int + 1).last() == events@[index as int]);
        }
        match visual_channel_index(part) {
            Some(row) => {
                let mut snapshot = rows[row];
                apply_event(&mut snapshot, event);
                rows[row] = snapshot;
            },
            None => {},
        }
        index = index + 1;
    }
    proof {
        assert(events@.take(events@.len() as int) =~= events@);
    }
    rows
}


/// Applying a tick's events in two batches gives the rows applying them
/// at once gives.
pub proof fn law_events_apply_in_batches(rows: Seq<ChannelSnapshot>, first: Seq<PartEvent>, second: Seq<PartEvent>)
    ensures
        rows_after_events(rows, first + second) == rows_after_events(rows_after_events(rows, first), second),
    decreases second.len(),
{
    if second.len() == 0 {
        assert(first + second =~= first);
    } else {
        law_events_apply_in_batches(rows, first, second.drop_last());
        assert((first + second).drop_last() =~= first + second.drop_last());
        assert((first + second).last() == second.last());
    }
}

/// An event of a part with no row changes no row.
pub proof fn law_rowless_events_change_nothing(rows: Seq<ChannelSnapshot>, event: PartEvent)
    requires
        visual_row(event_part(event) as int) < 0,
    ensures
        rows_after_event(rows, event) == rows,
{
}

} // verus!
