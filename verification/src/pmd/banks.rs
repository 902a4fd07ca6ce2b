use vstd::prelude::*;
use super::{le16, u16_at};
use crate::opna::adpcm::clamp_spec;
use vstd::string::StrSliceExecFns;
use vstd::string::StringExecFns;
use crate::player::FileProvider;
use super::CompanionNames;

verus! {

pub const ADPCM_DATA_START_BLOCK: u16 = 0x26;
pub const ADPCM_BLOCK_BYTES: usize = 32;
pub const PVI_ADPCM_HEADER_SIZE: usize = 0x210;
pub const PPC_HEADER_SIZE: usize = 1056;
pub const P86_HEADER_SIZE: usize = 1552;
pub const PPS_HEADER_SIZE: usize = 84;
pub const PPZ_PZI_HEADER_SIZE: usize = 2336;
pub const PPZ_PVI_HEADER_SIZE: usize = 528;
pub const MAX_COMPANION_DATA: usize = 0x400_0000;

/// The signature a PPC ADPCM bank starts with.
pub const PPC_HEADER: [u8; 30] = [
    65, 68, 80, 67, 77, 32, 68, 65, 84, 65, 32, 102, 111, 114, 32, 32, 80, 77, 68, 32, 118, 101,
    114, 46, 52, 46, 52, 45, 32, 32,
];

/// Why a companion bank could not be loaded.
#[derive(Clone, Copy, Debug, PartialEq, Eq, Structural)]
pub enum CompanionLoadError {
    Missing,
    Invalid,
}

#[derive(Clone, Copy, Debug, PartialEq, Eq, Structural)]
pub enum AdpcmFormat {
    Pvi8,
    Ppc,
}

/// A sample's place in ADPCM memory, in 32-byte blocks.
#[derive(Clone, Copy, Debug, PartialEq, Eq, Structural)]
pub struct AdpcmSpan {
    pub start_block: u16,
    pub end_block: u16,
}

/// An ADPCM sample bank (PVI or PPC file).
#[derive(Clone, Debug, PartialEq, Eq)]
pub struct AdpcmBank {
    pub format: AdpcmFormat,
    pub pcm_end: u16,
    pub entries: Vec<AdpcmSpan>,
    pub data: Vec<u8>,
}

/// Division that rounds towards zero, as Rust's integer division does.
pub open spec fn trunc_div(a: int, b: int) -> int {
    if a >= 0 { a / b } else { -((-a) / b) }
}

/// Whether the bytes start with the given signature.
pub open spec fn starts_with(bytes: Seq<u8>, prefix: Seq<u8>) -> bool {
    bytes.len() >= prefix.len() && bytes.subrange(0, prefix.len() as int) == prefix
}

/// The sample payload of an ADPCM bank: the blocks up to `pcm_end`, stored
/// from `offset` on, if the file holds them all.
pub open spec fn adpcm_payload(bytes: Seq<u8>, offset: int, pcm_end: u16) -> Option<Seq<u8>> {
    if pcm_end <= ADPCM_DATA_START_BLOCK {
        Some(Seq::empty())
    } else {
        let length = (pcm_end - ADPCM_DATA_START_BLOCK) * 32;
        if offset + length > bytes.len() {
            None
        } else {
            Some(bytes.subrange(offset, offset + length))
        }
    }
}

fn copy_range(bytes: &[u8], start: usize, end: usize) -> (copy: Vec<u8>)
    requires
        start <= end <= bytes@.len(),
    ensures
        copy@ == bytes@.subrange(start as int, end as int),
{
    let mut copy: Vec<u8> = Vec::new();
    let mut i = start;
    while i < end
        invariant
            start <= i <= end <= bytes@.len(),
            copy@ == bytes@.subrange(start as int, i as int),
        decreases end - i,
    {
        copy.push(bytes[i]);
        i = i + 1;
        proof { assert(copy@ =~= bytes@.subrange(start as int, i as int)); }
    }
    copy
}

pub fn copy_adpcm_payload(bytes: &[u8], offset: usize, pcm_end: u16) -> (payload: Option<Vec<u8>>)
    requires
        offset <= 0x1_0000,
    ensures
        match adpcm_payload(bytes@, offset as int, pcm_end) {
            Some(p) => payload matches Some(v) && v@ == p,
            None => payload is None,
        },
{
    if pcm_end <= ADPCM_DATA_START_BLOCK {
        return Some(Vec::new());
    }
    let length = ((pcm_end - ADPCM_DATA_START_BLOCK) as usize) * ADPCM_BLOCK_BYTES;
    if length > bytes.len() || offset > bytes.len() - length {
        return None;
    }
    Some(copy_range(bytes, offset, offset + length))
}

/// Entry `index` of a PVI ADPCM bank's table, moved past the reserved
/// blocks (an entry whose end is zero is unused and left as it is); `None`
/// when the move overflows.
pub open spec fn pvi_span(bytes: Seq<u8>, index: int) -> Option<AdpcmSpan> {
    let raw_start = le16(bytes, 0x10 + index * 4);
    let raw_end = le16(bytes, 0x12 + index * 4);
    if raw_end == 0 {
        Some(AdpcmSpan { start_block: raw_start, end_block: 0 })
    } else if raw_start + 0x26 > 0xffff || raw_end + 0x26 > 0xffff {
        None
    } else {
        Some(AdpcmSpan { start_block: (raw_start + 0x26) as u16, end_block: (raw_end + 0x26) as u16 })
    }
}

/// Whether a PVI table entry is acceptable.
pub open spec fn pvi_span_ok(bytes: Seq<u8>, index: int) -> bool {
    match pvi_span(bytes, index) {
        Some(span) => span.end_block == 0 || (span.start_block <= span.end_block && span.end_block < 0xffff),
        None => false,
    }
}

/// The first block past every used entry among the first `count`.
pub open spec fn pvi_pcm_end(bytes: Seq<u8>, count: int) -> u16
    decreases count,
{
    if count <= 0 {
        0
    } else {
        let before = pvi_pcm_end(bytes, count - 1);
        match pvi_span(bytes, count - 1) {
            Some(span) => if span.end_block != 0 && span.end_block + 1 > before {
                (span.end_block + 1) as u16
            } else {
                before
            },
            None => before,
        }
    }
}

/// The acceptable PPC table entries: used ones lie inside the bank's data.
pub open spec fn ppc_entry_ok(bytes: Seq<u8>, index: int) -> bool {
    let start = le16(bytes, 32 + index * 4);
    let end = le16(bytes, 34 + index * 4);
    end == 0 || (start >= ADPCM_DATA_START_BLOCK && start <= end && end <= le16(bytes, 30))
}

pub open spec fn zero_span() -> AdpcmSpan {
    AdpcmSpan { start_block: 0, end_block: 0 }
}

/// The bytes of sample `index` of a bank's data, if its span is usable.
pub open spec fn adpcm_sample_spec(entries: Seq<AdpcmSpan>, data: Seq<u8>, index: int) -> Option<Seq<u8>> {
    if index < 0 || index >= entries.len() {
        None
    } else {
        let span = entries[index];
        if span.end_block <= span.start_block || span.start_block < ADPCM_DATA_START_BLOCK {
            None
        } else {
            let start = (span.start_block - ADPCM_DATA_START_BLOCK) * 32;
            let length = (span.end_block - span.start_block) * 32;
            if start + length > data.len() {
                None
            } else {
                Some(data.subrange(start, start + length))
            }
        }
    }
}

pub fn read_u16(bytes: &[u8], offset: usize) -> (value: Option<u16>)
    ensures
        value == u16_at(bytes@, offset as int),
{
    super::read_u16(bytes, offset)
}

/// The little-endian 24-bit value at an offset.
pub open spec fn le24(bytes: Seq<u8>, offset: int) -> u32 {
    (bytes[offset] as int + bytes[offset + 1] as int * 256 + bytes[offset + 2] as int * 65536) as u32
}

/// The little-endian 32-bit value at an offset.
pub open spec fn le32(bytes: Seq<u8>, offset: int) -> u32 {
    (bytes[offset] as int + bytes[offset + 1] as int * 256 + bytes[offset + 2] as int * 65536
        + bytes[offset + 3] as int * 16777216) as u32
}

pub fn read_u24(bytes: &[u8], offset: usize) -> (value: Option<u32>)
    ensures
        value == (if offset + 3 <= bytes@.len() { Some(le24(bytes@, offset as int)) } else { None::<u32> }),
{
    if offset < bytes.len() && bytes.len() - offset >= 3 {
        Some(bytes[offset] as u32 + (bytes[offset + 1] as u32) * 256 + (bytes[offset + 2] as u32) * 65536)
    } else {
        None
    }
}

pub fn read_u32(bytes: &[u8], offset: usize) -> (value: Option<u32>)
    ensures
        value == (if offset + 4 <= bytes@.len() { Some(le32(bytes@, offset as int)) } else { None::<u32> }),
{
    if offset < bytes.len() && bytes.len() - offset >= 4 {
        Some(
            bytes[offset] as u32 + (bytes[offset + 1] as u32) * 256 + (bytes[offset + 2] as u32) * 65536
                + (bytes[offset + 3] as u32) * 16777216,
        )
    } else {
        None
    }
}

fn has_signature(bytes: &[u8], signature: &[u8]) -> (matches: bool)
    ensures
        matches == starts_with(bytes@, signature@),
{
    if bytes.len() < signature.len() {
        return false;
    }
    let mut i: usize = 0;
    while i < signature.len()
        invariant
            i <= signature@.len() <= bytes@.len(),
            forall|k: int| 0 <= k < i ==> bytes@[k] == signature@[k],
        decreases signature@.len() - i,
    {
        if bytes[i] != signature[i] {
            proof {
                assert(bytes@.subrange(0, signature@.len() as int)[i as int] != signature@[i as int]);
            }
            return false;
        }
        i = i + 1;
    }
    proof { assert(bytes@.subrange(0, signature@.len() as int) =~= signature@); }
    true
}

/// "PVI" and "PZI" file signatures.
pub open spec fn pvi_signature() -> Seq<u8> {
    seq![0x50u8, 0x56, 0x49]
}

pub open spec fn pzi_signature() -> Seq<u8> {
    seq![0x50u8, 0x5a, 0x49]
}

/// Whether a PVI ADPCM bank is accepted.
pub open spec fn pvi_accepts(bytes: Seq<u8>) -> bool {
    &&& bytes.len() >= PVI_ADPCM_HEADER_SIZE
    &&& forall|i: int| 0 <= i < 128 ==> #[trigger] pvi_span_ok(bytes, i)
    &&& adpcm_payload(bytes, PVI_ADPCM_HEADER_SIZE as int, pvi_pcm_end(bytes, 128)) is Some
}

/// The bank read from an accepted PVI file: its 128 table entries (256
/// slots, the rest unused), the end of its data and the data itself.
pub open spec fn pvi_bank(bytes: Seq<u8>, bank: AdpcmBank) -> bool {
    &&& bank.format == AdpcmFormat::Pvi8
    &&& bank.pcm_end == pvi_pcm_end(bytes, 128)
    &&& bank.entries@.len() == 256
    &&& forall|i: int| 0 <= i < 128 ==> Some(#[trigger] bank.entries@[i]) == pvi_span(bytes, i)
    &&& forall|i: int| 128 <= i < 256 ==> #[trigger] bank.entries@[i] == zero_span()
    &&& adpcm_payload(bytes, PVI_ADPCM_HEADER_SIZE as int, bank.pcm_end) == Some(bank.data@)
}

/// Whether a PPC ADPCM bank is accepted.
pub open spec fn ppc_accepts(bytes: Seq<u8>) -> bool {
    let pcm_end = le16(bytes, 30);
    &&& bytes.len() >= PPC_HEADER_SIZE
    &&& (pcm_end == 0 || pcm_end >= ADPCM_DATA_START_BLOCK)
    &&& forall|i: int| 0 <= i < 256 ==> #[trigger] ppc_entry_ok(bytes, i)
    &&& adpcm_payload(bytes, PPC_HEADER_SIZE as int, pcm_end) is Some
}

/// The bank read from an accepted PPC file.
pub open spec fn ppc_bank(bytes: Seq<u8>, bank: AdpcmBank) -> bool {
    &&& bank.format == AdpcmFormat::Ppc
    &&& bank.pcm_end == le16(bytes, 30)
    &&& bank.entries@.len() == 256
    &&& forall|i: int| 0 <= i < 256 ==> #[trigger] bank.entries@[i] == (AdpcmSpan {
        start_block: le16(bytes, 32 + i * 4),
        end_block: le16(bytes, 34 + i * 4),
    })
    &&& adpcm_payload(bytes, PPC_HEADER_SIZE as int, bank.pcm_end) == Some(bank.data@)
}

/// Whether the bytes are a PVI ADPCM bank (signature `PVI`, type 2 at offset 10).
pub open spec fn is_pvi_adpcm(bytes: Seq<u8>) -> bool {
    starts_with(bytes, pvi_signature()) && bytes.len() > 10 && bytes[10] == 2
}

proof fn lemma_pvi_pcm_end_bound(bytes: Seq<u8>, count: int)
    ensures
        pvi_pcm_end(bytes, count) <= 0xffff,
    decreases count,
{
    if count > 0 {
        lemma_pvi_pcm_end_bound(bytes, count - 1);
    }
}

impl AdpcmBank {
    /// Reads a PVI bank (signature `PVI`, type 2) or else a PPC bank.
    pub fn parse(bytes: &[u8]) -> (result: Result<Self, ()>)
        ensures
            is_pvi_adpcm(bytes@) ==> (result is Ok <==> pvi_accepts(bytes@)),
            is_pvi_adpcm(bytes@) ==> (result matches Ok(bank) ==> pvi_bank(bytes@, bank)),
            !is_pvi_adpcm(bytes@) ==> (result is Ok <==> (starts_with(bytes@, PPC_HEADER@) && ppc_accepts(bytes@))),
            !is_pvi_adpcm(bytes@) ==> (result matches Ok(bank) ==> ppc_bank(bytes@, bank)),
    {
        let pvi: [u8; 3] = [0x50, 0x56, 0x49];
        proof { assert(pvi@ =~= pvi_signature()); }
        if has_signature(bytes, &pvi) && bytes.len() > 10 && bytes[10] == 2 {
            Self::parse_pvi(bytes)
        } else if has_signature(bytes, &PPC_HEADER) {
            Self::parse_ppc(bytes)
        } else {
            Err(())
        }
    }

    pub fn parse_pvi(bytes: &[u8]) -> (result: Result<Self, ()>)
        ensures
            result is Ok <==> pvi_accepts(bytes@),
            result matches Ok(bank) ==> pvi_bank(bytes@, bank),
    {
        if bytes.len() < PVI_ADPCM_HEADER_SIZE {
            return Err(());
        }
        let mut entries: Vec<AdpcmSpan> = Vec::new();
        let mut pcm_end: u16 = 0;
        let mut index: usize = 0;
        while index < 128
            invariant
                0 <= index <= 128,
                bytes@.len() >= PVI_ADPCM_HEADER_SIZE,
                entries@.len() == index,
                pcm_end == pvi_pcm_end(bytes@, index as int),
                forall|i: int| 0 <= i < index ==> #[trigger] pvi_span_ok(bytes@, i),
                forall|i: int| 0 <= i < index ==> Some(#[trigger] entries@[i]) == pvi_span(bytes@, i),
            decreases 128 - index,
        {
            let offset = 0x10 + index * 4;
            let raw_start = match read_u16(bytes, offset) { Some(v) => v, None => { return Err(()); } };
            let raw_end = match read_u16(bytes, offset + 2) { Some(v) => v, None => { return Err(()); } };
            let span = if raw_end == 0 {
                AdpcmSpan { start_block: raw_start, end_block: 0 }
            } else {
                if raw_start > 0xffff - ADPCM_DATA_START_BLOCK || raw_end > 0xffff - ADPCM_DATA_START_BLOCK {
                    assert(!pvi_span_ok(bytes@, index as int));
                    return Err(());
                }
                AdpcmSpan { start_block: raw_start + ADPCM_DATA_START_BLOCK, end_block: raw_end + ADPCM_DATA_START_BLOCK }
            };
            if span.end_block != 0 {
                if span.end_block < span.start_block || span.end_block == 0xffff {
                    assert(!pvi_span_ok(bytes@, index as int));
                    return Err(());
                }
                if span.end_block + 1 > pcm_end {
                    pcm_end = span.end_block + 1;
                }
            }
            entries.push(span);
            index = index + 1;
        }
        while index < 256
            invariant
                128 <= index <= 256,
                entries@.len() == index,
                forall|i: int| 0 <= i < 128 ==> Some(#[trigger] entries@[i]) == pvi_span(bytes@, i),
                forall|i: int| 128 <= i < index ==> #[trigger] entries@[i] == zero_span(),
            decreases 256 - index,
        {
            entries.push(AdpcmSpan { start_block: 0, end_block: 0 });
            index = index + 1;
        }
        let data = match copy_adpcm_payload(bytes, PVI_ADPCM_HEADER_SIZE, pcm_end) {
            Some(d) => d,
            None => {
                return Err(());
            },
        };
        Ok(AdpcmBank { format: AdpcmFormat::Pvi8, pcm_end, entries, data })
    }

    pub fn parse_ppc(bytes: &[u8]) -> (result: Result<Self, ()>)
        ensures
            result is Ok <==> ppc_accepts(bytes@),
            result matches Ok(bank) ==> ppc_bank(bytes@, bank),
    {
        if bytes.len() < PPC_HEADER_SIZE {
            return Err(());
        }
        let pcm_end = match read_u16(bytes, 30) { Some(v) => v, None => { return Err(()); } };
        if pcm_end != 0 && pcm_end < ADPCM_DATA_START_BLOCK {
            return Err(());
        }
        let mut entries: Vec<AdpcmSpan> = Vec::new();
        let mut index: usize = 0;
        while index < 256
            invariant
                0 <= index <= 256,
                bytes@.len() >= PPC_HEADER_SIZE,
                pcm_end == le16(bytes@, 30),
                entries@.len() == index,
                forall|i: int| 0 <= i < index ==> #[trigger] ppc_entry_ok(bytes@, i),
                forall|i: int| 0 <= i < index ==> #[trigger] entries@[i] == (AdpcmSpan {
                    start_block: le16(bytes@, 32 + i * 4),
                    end_block: le16(bytes@, 34 + i * 4),
                }),
            decreases 256 - index,
        {
            let offset = 32 + index * 4;
            let start_block = match read_u16(bytes, offset) { Some(v) => v, None => { return Err(()); } };
            let end_block = match read_u16(bytes, offset + 2) { Some(v) => v, None => { return Err(()); } };
            if end_block != 0 && (start_block < ADPCM_DATA_START_BLOCK || end_block < start_block || end_block > pcm_end) {
                assert(!ppc_entry_ok(bytes@, index as int));
                return Err(());
            }
            entries.push(AdpcmSpan { start_block, end_block });
            index = index + 1;
        }
        let data = match copy_adpcm_payload(bytes, PPC_HEADER_SIZE, pcm_end) {
            Some(d) => d,
            None => {
                return Err(());
            },
        };
        Ok(AdpcmBank { format: AdpcmFormat::Ppc, pcm_end, entries, data })
    }

    /// The ADPCM bytes of sample `index`, if its span is usable and inside the data.
    pub fn sample_bytes(&self, index: usize) -> (sample: Option<&[u8]>)
        ensures
            match adpcm_sample_spec(self.entries@, self.data@, index as int) {
                Some(b) => sample matches Some(s) && s@ == b,
                None => sample is None,
            },
    {
        if index >= self.entries.len() {
            return None;
        }
        let span = self.entries[index];
        if span.end_block <= span.start_block || span.start_block < ADPCM_DATA_START_BLOCK {
            return None;
        }
        let start = ((span.start_block - ADPCM_DATA_START_BLOCK) as usize) * ADPCM_BLOCK_BYTES;
        let length = ((span.end_block - span.start_block) as usize) * ADPCM_BLOCK_BYTES;
        if start > self.data.len() || length > self.data.len() - start {
            return None;
        }
        Some(&self.data.as_slice()[start..start + length])
    }
}


/// One PPS (SSG drum) table entry.
#[derive(Clone, Copy, Debug, PartialEq, Eq, Structural)]
pub struct PpsEntry {
    pub address: u16,
    pub length: u16,
    pub tone_offset: u8,
    pub volume_offset: u8,
}

/// A PPS bank: 14 entries and the 4-bit samples they point into.
#[derive(Clone, Debug, PartialEq, Eq)]
pub struct PpsBank {
    pub entries: Vec<PpsEntry>,
    pub samples: Vec<i32>,
}

/// Entry `index` of a PPS table.
pub open spec fn pps_entry(bytes: Seq<u8>, index: int) -> PpsEntry {
    PpsEntry {
        address: le16(bytes, index * 6),
        length: le16(bytes, index * 6 + 2),
        tone_offset: bytes[index * 6 + 4],
        volume_offset: bytes[index * 6 + 5],
    }
}

/// The 4-bit samples of a PPS payload, high nibble first.
pub open spec fn pps_nibbles(payload: Seq<u8>) -> Seq<i32> {
    Seq::new(2 * payload.len(), |k: int| if k % 2 == 0 { (payload[k / 2] / 16) as i32 } else { (payload[k / 2] % 16) as i32 })
}

/// Where an entry's samples start and end, counted in nibbles.
pub open spec fn pps_base(entry: PpsEntry) -> int {
    (entry.address - PPS_HEADER_SIZE) * 2
}

pub open spec fn pps_end(entry: PpsEntry) -> int {
    pps_base(entry) + entry.length * 2
}

/// Whether an entry is in use.
pub open spec fn pps_used(entry: PpsEntry) -> bool {
    entry.address != 0 && entry.length != 0
}

/// The samples with the last (up to 160) of an entry's samples faded out
/// linearly by up to 15 steps.
pub open spec fn pps_faded(samples: Seq<i32>, base: int, end: int) -> Seq<i32> {
    let fade_start = if end - 160 > base { end - 160 } else { base };
    let fade_length = end - fade_start;
    Seq::new(samples.len(), |p: int| if fade_start <= p < end {
        let v = samples[p] - ((p - fade_start) * 16) / fade_length;
        if v > 0 { v as i32 } else { 0i32 }
    } else {
        samples[p]
    })
}

/// The samples after fading the used entries among the first `count`.
pub open spec fn pps_fade_all(samples: Seq<i32>, bytes: Seq<u8>, count: int) -> Seq<i32>
    decreases count,
{
    if count <= 0 {
        samples
    } else {
        let before = pps_fade_all(samples, bytes, count - 1);
        let entry = pps_entry(bytes, count - 1);
        if pps_used(entry) { pps_faded(before, pps_base(entry), pps_end(entry)) } else { before }
    }
}

/// Whether every used entry lies inside the samples.
pub open spec fn pps_entry_ok(bytes: Seq<u8>, index: int) -> bool {
    let entry = pps_entry(bytes, index);
    pps_used(entry) ==> (entry.address >= PPS_HEADER_SIZE && pps_end(entry) <= 2 * (bytes.len() - PPS_HEADER_SIZE))
}

pub open spec fn pps_accepts(bytes: Seq<u8>) -> bool {
    &&& bytes.len() >= PPS_HEADER_SIZE
    &&& bytes.len() - PPS_HEADER_SIZE <= MAX_COMPANION_DATA / 2
    &&& forall|i: int| 0 <= i < 14 ==> #[trigger] pps_entry_ok(bytes, i)
}

/// The bank read from an accepted PPS file.
pub open spec fn pps_bank(bytes: Seq<u8>, bank: PpsBank) -> bool {
    &&& bank.entries@.len() == 14
    &&& forall|i: int| 0 <= i < 14 ==> #[trigger] bank.entries@[i] == pps_entry(bytes, i)
    &&& bank.samples@ == pps_fade_all(pps_nibbles(bytes.subrange(PPS_HEADER_SIZE as int, bytes.len() as int)), bytes, 14)
}

/// The samples of PPS entry `index`, if it has an address.
pub open spec fn pps_sample_spec(entries: Seq<PpsEntry>, samples: Seq<i32>, index: int) -> Option<Seq<i32>> {
    if index < 0 || index >= entries.len() {
        None
    } else {
        let entry = entries[index];
        if entry.address == 0 || entry.address < PPS_HEADER_SIZE || pps_end(entry) > samples.len() {
            None
        } else {
            Some(samples.subrange(pps_base(entry), pps_end(entry)))
        }
    }
}

fn fade_range(samples: &mut Vec<i32>, base: usize, end: usize)
    requires
        base <= end <= old(samples)@.len(),
        forall|k: int| 0 <= k < old(samples)@.len() ==> 0 <= #[trigger] old(samples)@[k] <= 15,
    ensures
        final(samples)@ == pps_faded(old(samples)@, base as int, end as int),
        forall|k: int| 0 <= k < final(samples)@.len() ==> 0 <= #[trigger] final(samples)@[k] <= 15,
{
    let fade_start = if end >= 160 && end - 160 > base { end - 160 } else { base };
    let fade_length = end - fade_start;
    let ghost original = samples@;
    let mut position = fade_start;
    while position < end
        invariant
            fade_start <= position <= end <= samples@.len(),
            fade_length == end - fade_start,
            fade_length <= 160,
            samples@.len() == original.len(),
            fade_start == (if end - 160 > base { end - 160 } else { base as int }),
            forall|k: int| 0 <= k < original.len() ==> 0 <= #[trigger] original[k] <= 15,
            forall|k: int| 0 <= k < samples@.len() ==> #[trigger] samples@[k]
                == (if fade_start <= k < position { pps_faded(original, base as int, end as int)[k] } else { original[k] }),
        decreases end - position,
    {
        let attenuation = (((position - fade_start) * 16) / fade_length) as i32;
        let value = samples[position] - attenuation;
        samples.set(position, if value > 0 { value } else { 0 });
        position = position + 1;
    }
    proof {
        assert(samples@ =~= pps_faded(original, base as int, end as int));
    }
}

impl PpsBank {
    /// Reads a PPS bank: a 14-entry table, then 4-bit samples whose last 160
    /// positions per entry are faded out.
    pub fn parse(bytes: &[u8]) -> (result: Result<Self, ()>)
        ensures
            result is Ok <==> pps_accepts(bytes@),
            result matches Ok(bank) ==> pps_bank(bytes@, bank),
    {
        if bytes.len() < PPS_HEADER_SIZE {
            return Err(());
        }
        let mut entries: Vec<PpsEntry> = Vec::new();
        let mut index: usize = 0;
        while index < 14
            invariant
                0 <= index <= 14,
                bytes@.len() >= PPS_HEADER_SIZE,
                entries@.len() == index,
                forall|i: int| 0 <= i < index ==> #[trigger] entries@[i] == pps_entry(bytes@, i),
            decreases 14 - index,
        {
            let offset = index * 6;
            let address = match read_u16(bytes, offset) { Some(v) => v, None => { return Err(()); } };
            let length = match read_u16(bytes, offset + 2) { Some(v) => v, None => { return Err(()); } };
            entries.push(PpsEntry { address, length, tone_offset: bytes[offset + 4], volume_offset: bytes[offset + 5] });
            index = index + 1;
        }
        let payload_len = bytes.len() - PPS_HEADER_SIZE;
        if payload_len > MAX_COMPANION_DATA / 2 {
            return Err(());
        }
        let ghost payload = bytes@.subrange(PPS_HEADER_SIZE as int, bytes@.len() as int);
        let mut samples: Vec<i32> = Vec::new();
        let mut position = PPS_HEADER_SIZE;
        while position < bytes.len()
            invariant
                PPS_HEADER_SIZE <= position <= bytes@.len(),
                payload == bytes@.subrange(PPS_HEADER_SIZE as int, bytes@.len() as int),
                samples@ == pps_nibbles(payload).subrange(0, 2 * (position - PPS_HEADER_SIZE)),
            decreases bytes@.len() - position,
        {
            let byte = bytes[position];
            samples.push((byte / 16) as i32);
            samples.push((byte % 16) as i32);
            position = position + 1;
            proof {
                assert(samples@ =~= pps_nibbles(payload).subrange(0, 2 * (position - PPS_HEADER_SIZE)));
            }
        }
        proof {
            assert(samples@ =~= pps_nibbles(payload));
        }
        let mut index: usize = 0;
        while index < 14
            invariant
                0 <= index <= 14,
                bytes@.len() >= PPS_HEADER_SIZE,
                payload == bytes@.subrange(PPS_HEADER_SIZE as int, bytes@.len() as int),
                entries@.len() == 14,
                forall|i: int| 0 <= i < 14 ==> #[trigger] entries@[i] == pps_entry(bytes@, i),
                forall|i: int| 0 <= i < index ==> #[trigger] pps_entry_ok(bytes@, i),
                samples@ == pps_fade_all(pps_nibbles(payload), bytes@, index as int),
                samples@.len() == 2 * payload.len(),
                forall|k: int| 0 <= k < samples@.len() ==> 0 <= #[trigger] samples@[k] <= 15,
            decreases 14 - index,
        {
            let entry = entries[index];
            if entry.address != 0 && entry.length != 0 {
                if (entry.address as usize) < PPS_HEADER_SIZE {
                    assert(!pps_entry_ok(bytes@, index as int));
                    return Err(());
                }
                let base = ((entry.address as usize) - PPS_HEADER_SIZE) * 2;
                let end = base + (entry.length as usize) * 2;
                if end > samples.len() {
                    assert(!pps_entry_ok(bytes@, index as int));
                    return Err(());
                }
                fade_range(&mut samples, base, end);
            }
            index = index + 1;
        }
        Ok(PpsBank { entries, samples })
    }

    /// The samples of entry `index`.
    pub fn sample_values(&self, index: usize) -> (sample: Option<&[i32]>)
        ensures
            match pps_sample_spec(self.entries@, self.samples@, index as int) {
                Some(v) => sample matches Some(s) && s@ == v,
                None => sample is None,
            },
    {
        if index >= self.entries.len() {
            return None;
        }
        let entry = self.entries[index];
        if entry.address == 0 || (entry.address as usize) < PPS_HEADER_SIZE {
            return None;
        }
        let start = ((entry.address as usize) - PPS_HEADER_SIZE) * 2;
        let length = (entry.length as usize) * 2;
        if start > self.samples.len() || length > self.samples.len() - start {
            return None;
        }
        Some(&self.samples.as_slice()[start..start + length])
    }
}

/// One P86 sample: where it lies in the bank's data.
#[derive(Clone, Copy, Debug, PartialEq, Eq, Structural)]
pub struct P86Entry {
    pub start: u32,
    pub size: u32,
}

/// A P86 bank of 8-bit PCM samples.
#[derive(Clone, Debug, PartialEq, Eq)]
pub struct P86Bank {
    pub entries: Vec<P86Entry>,
    pub samples: Vec<u8>,
}

/// Entry `index` of a P86 table, moved to be relative to the data.
pub open spec fn p86_entry(bytes: Seq<u8>, index: int) -> P86Entry {
    let size = le24(bytes, 0x13 + index * 6);
    if size == 0 {
        P86Entry { start: 0, size: 0 }
    } else {
        P86Entry { start: (le24(bytes, 0x10 + index * 6) - P86_HEADER_SIZE) as u32, size }
    }
}

/// Whether a P86 entry lies inside the data.
pub open spec fn p86_entry_ok(bytes: Seq<u8>, index: int) -> bool {
    let start = le24(bytes, 0x10 + index * 6);
    let size = le24(bytes, 0x13 + index * 6);
    let data_len = bytes.len() - P86_HEADER_SIZE;
    size == 0 || (start >= P86_HEADER_SIZE && start - P86_HEADER_SIZE <= data_len && size <= data_len - (start - P86_HEADER_SIZE))
}

pub open spec fn p86_accepts(bytes: Seq<u8>) -> bool {
    &&& bytes.len() >= P86_HEADER_SIZE
    &&& bytes.len() - P86_HEADER_SIZE <= MAX_COMPANION_DATA
    &&& forall|i: int| 0 <= i < 256 ==> #[trigger] p86_entry_ok(bytes, i)
}

pub open spec fn p86_bank(bytes: Seq<u8>, bank: P86Bank) -> bool {
    &&& bank.entries@.len() == 256
    &&& forall|i: int| 0 <= i < 256 ==> #[trigger] bank.entries@[i] == p86_entry(bytes, i)
    &&& bank.samples@ == bytes.subrange(P86_HEADER_SIZE as int, bytes.len() as int)
}

/// The bytes of a sample with a nonzero size that lies inside the data.
pub open spec fn sized_sample_spec(start: u32, size: u32, data: Seq<u8>) -> Option<Seq<u8>> {
    if size == 0 || start + size > data.len() {
        None
    } else {
        Some(data.subrange(start as int, start + size))
    }
}

fn sized_sample(data: &[u8], start: u32, size: u32) -> (sample: Option<&[u8]>)
    ensures
        match sized_sample_spec(start, size, data@) {
            Some(v) => sample matches Some(s) && s@ == v,
            None => sample is None,
        },
{
    if size == 0 {
        return None;
    }
    let start = start as usize;
    let size = size as usize;
    if start > data.len() || size > data.len() - start {
        return None;
    }
    Some(&data[start..start + size])
}

impl P86Bank {
    /// Reads a P86 bank: a 256-entry table of 24-bit offsets and sizes, then
    /// the sample data.
    pub fn parse(bytes: &[u8]) -> (result: Result<Self, ()>)
        ensures
            result is Ok <==> p86_accepts(bytes@),
            result matches Ok(bank) ==> p86_bank(bytes@, bank),
    {
        if bytes.len() < P86_HEADER_SIZE {
            return Err(());
        }
        let sample_len = bytes.len() - P86_HEADER_SIZE;
        if sample_len > MAX_COMPANION_DATA {
            return Err(());
        }
        let sample_len = sample_len as u32;
        let mut entries: Vec<P86Entry> = Vec::new();
        let mut index: usize = 0;
        while index < 256
            invariant
                0 <= index <= 256,
                bytes@.len() >= P86_HEADER_SIZE,
                sample_len == bytes@.len() - P86_HEADER_SIZE,
                entries@.len() == index,
                forall|i: int| 0 <= i < index ==> #[trigger] p86_entry_ok(bytes@, i),
                forall|i: int| 0 <= i < index ==> #[trigger] entries@[i] == p86_entry(bytes@, i),
            decreases 256 - index,
        {
            let offset = 0x10 + index * 6;
            let absolute_start = match read_u24(bytes, offset) { Some(v) => v, None => { return Err(()); } };
            let size = match read_u24(bytes, offset + 3) { Some(v) => v, None => { return Err(()); } };
            if size == 0 {
                entries.push(P86Entry { start: 0, size: 0 });
            } else {
                if absolute_start < P86_HEADER_SIZE as u32 {
                    assert(!p86_entry_ok(bytes@, index as int));
                    return Err(());
                }
                let start = absolute_start - P86_HEADER_SIZE as u32;
                if start > sample_len || size > sample_len - start {
                    assert(!p86_entry_ok(bytes@, index as int));
                    return Err(());
                }
                entries.push(P86Entry { start, size });
            }
            index = index + 1;
        }
        Ok(P86Bank { entries, samples: copy_range(bytes, P86_HEADER_SIZE, bytes.len()) })
    }

    pub fn sample_bytes(&self, index: usize) -> (sample: Option<&[u8]>)
        ensures
            index >= self.entries@.len() ==> sample is None,
            index < self.entries@.len() ==> match sized_sample_spec(self.entries@[index as int].start, self.entries@[index as int].size, self.samples@) {
                Some(v) => sample matches Some(s) && s@ == v,
                None => sample is None,
            },
    {
        if index >= self.entries.len() {
            return None;
        }
        let entry = self.entries[index];
        sized_sample(self.samples.as_slice(), entry.start, entry.size)
    }
}

/// One PPZ sample.
#[derive(Clone, Copy, Debug, PartialEq, Eq, Structural)]
pub struct PpzEntry {
    pub start: u32,
    pub size: u32,
    pub loop_start: u32,
    pub loop_end: u32,
    pub rate: u16,
}

/// A PPZ8 bank, read from a PZI file or decoded from a PVI file.
#[derive(Clone, Debug, PartialEq, Eq)]
pub struct PpzBank {
    pub from_pvi: bool,
    pub entries: Vec<PpzEntry>,
    pub samples: Vec<u8>,
}

/// Entry `index` of a PZI table.
pub open spec fn pzi_entry(bytes: Seq<u8>, index: int) -> PpzEntry {
    let offset = 0x20 + index * 18;
    PpzEntry {
        start: le32(bytes, offset),
        size: le32(bytes, offset + 4),
        loop_start: le32(bytes, offset + 8),
        loop_end: le32(bytes, offset + 12),
        rate: le16(bytes, offset + 16),
    }
}

pub open spec fn pzi_entry_ok(bytes: Seq<u8>, index: int) -> bool {
    let entry = pzi_entry(bytes, index);
    let data_len = bytes.len() - PPZ_PZI_HEADER_SIZE;
    entry.size == 0 || (entry.start <= data_len && entry.size <= data_len - entry.start)
}

pub open spec fn pzi_accepts(bytes: Seq<u8>) -> bool {
    &&& bytes.len() >= PPZ_PZI_HEADER_SIZE
    &&& starts_with(bytes, pzi_signature())
    &&& bytes.len() - PPZ_PZI_HEADER_SIZE <= MAX_COMPANION_DATA
    &&& forall|i: int| 0 <= i < 128 ==> #[trigger] pzi_entry_ok(bytes, i)
}

pub open spec fn pzi_bank(bytes: Seq<u8>, bank: PpzBank) -> bool {
    &&& !bank.from_pvi
    &&& bank.entries@.len() == 128
    &&& forall|i: int| 0 <= i < 128 ==> #[trigger] bank.entries@[i] == pzi_entry(bytes, i)
    &&& bank.samples@ == bytes.subrange(PPZ_PZI_HEADER_SIZE as int, bytes.len() as int)
}

/// Entry `index` of a PPZ PVI table when `count` entries are in use:
/// addresses and sizes are in 64-byte units, decoded to 8-bit samples.
pub open spec fn ppz_pvi_entry(bytes: Seq<u8>, count: int, index: int) -> PpzEntry {
    let raw_start = le16(bytes, 0x10 + index * 4);
    let raw_end = le16(bytes, 0x12 + index * 4);
    if index < count {
        PpzEntry {
            start: (raw_start * 64) as u32,
            size: ((raw_end - raw_start + 1) * 64) as u32,
            loop_start: 0xffff,
            loop_end: 0xffff,
            rate: 16000,
        }
    } else {
        PpzEntry { start: 0, size: 0, loop_start: 0xffff, loop_end: 0xffff, rate: 16000 }
    }
}

/// The total decoded size of the first `n` entries.
pub open spec fn ppz_pvi_size(bytes: Seq<u8>, count: int, n: int) -> int
    decreases n,
{
    if n <= 0 { 0 } else { ppz_pvi_size(bytes, count, n - 1) + ppz_pvi_entry(bytes, count, n - 1).size }
}

pub open spec fn ppz_pvi_entry_ok(bytes: Seq<u8>, count: int, index: int) -> bool {
    index < count ==> le16(bytes, 0x12 + index * 4) >= le16(bytes, 0x10 + index * 4)
}

pub open spec fn ppz_pvi_accepts(bytes: Seq<u8>) -> bool {
    let count = bytes[0x0b] as int;
    let size = ppz_pvi_size(bytes, count, 128);
    &&& bytes.len() >= PPZ_PVI_HEADER_SIZE
    &&& starts_with(bytes, pvi_signature())
    &&& count <= 128
    &&& forall|i: int| 0 <= i < 128 ==> #[trigger] ppz_pvi_entry_ok(bytes, count, i)
    &&& size <= MAX_COMPANION_DATA
    &&& bytes.len() - PPZ_PVI_HEADER_SIZE >= size / 2
}

pub open spec fn ppz_pvi_bank(bytes: Seq<u8>, bank: PpzBank) -> bool {
    let count = bytes[0x0b] as int;
    let size = ppz_pvi_size(bytes, count, 128);
    &&& bank.from_pvi
    &&& bank.entries@.len() == 128
    &&& forall|i: int| 0 <= i < 128 ==> #[trigger] bank.entries@[i] == ppz_pvi_entry(bytes, count, i)
    &&& bank.samples@ == pvi_decoded(bytes.subrange(PPZ_PVI_HEADER_SIZE as int, bytes.len() as int), 2 * (size / 2))
}

pub const PVI_STEP_SIGN: [i32; 16] = [1, 3, 5, 7, 9, 11, 13, 15, -1, -3, -5, -7, -9, -11, -13, -15];
pub const PVI_STEP_SCALE: [i32; 16] = [57, 57, 57, 57, 77, 102, 128, 153, 57, 57, 57, 57, 77, 102, 128, 153];

/// Nibble `k` of an ADPCM stream, high nibble first.
pub open spec fn pvi_nibble(source: Seq<u8>, k: int) -> u8 {
    if k % 2 == 0 { source[k / 2] / 16 } else { source[k / 2] % 16 }
}

/// The decoder state (sample, step) after `k` nibbles.
pub open spec fn pvi_state(source: Seq<u8>, k: nat) -> (int, int)
    decreases k,
{
    if k == 0 {
        (0x80, 127)
    } else {
        let (x, delta) = pvi_state(source, (k - 1) as nat);
        let n = pvi_nibble(source, k - 1) as int;
        (
            clamp_spec(x + trunc_div(PVI_STEP_SIGN@[n] * delta, 8), -32768, 32767),
            clamp_spec(delta * PVI_STEP_SCALE@[n] / 64, 127, 24576),
        )
    }
}

/// The first `length` 8-bit samples decoded from an ADPCM stream.
pub open spec fn pvi_decoded(source: Seq<u8>, length: int) -> Seq<u8> {
    Seq::new(length as nat, |k: int| (trunc_div(pvi_state(source, (k + 1) as nat).0, 256) + 128) as u8)
}

proof fn lemma_pvi_tables(n: int)
    requires
        0 <= n < 16,
    ensures
        -15 <= PVI_STEP_SIGN@[n] <= 15,
        57 <= PVI_STEP_SCALE@[n] <= 153,
{
    assert(forall|i: int| 0 <= i < 16 ==> -15 <= #[trigger] PVI_STEP_SIGN@[i] <= 15);
    assert(forall|i: int| 0 <= i < 16 ==> 57 <= #[trigger] PVI_STEP_SCALE@[i] <= 153);
}

proof fn lemma_pvi_state_bounds(source: Seq<u8>, k: nat)
    ensures
        -32768 <= pvi_state(source, k).0 <= 32767,
        127 <= pvi_state(source, k).1 <= 24576,
    decreases k,
{
    if k > 0 {
        lemma_pvi_state_bounds(source, (k - 1) as nat);
    }
}

/// Decodes `output_size` (rounded down to even) 8-bit samples from the
/// ADPCM stream of a PVI file.
pub fn decode_pvi_samples(source: &[u8], output_size: usize) -> (samples: Option<Vec<u8>>)
    ensures
        source@.len() < output_size / 2 <==> samples is None,
        samples matches Some(v) ==> v@ == pvi_decoded(source@, 2 * (output_size / 2)),
{
    let source_size = output_size / 2;
    if source.len() < source_size {
        return None;
    }
    let mut x_n: i32 = 0x80;
    let mut delta_n: i32 = 127;
    let mut output: Vec<u8> = Vec::new();
    let mut k: usize = 0;
    while k < 2 * source_size
        invariant
            source_size <= source@.len(),
            source_size == output_size / 2,
            k <= 2 * source_size,
            (x_n as int, delta_n as int) == pvi_state(source@, k as nat),
            output@ == pvi_decoded(source@, k as int),
        decreases 2 * source_size - k,
    {
        proof { lemma_pvi_state_bounds(source@, k as nat); }
        let byte = source[k / 2];
        let nibble = if k % 2 == 0 { byte / 16 } else { byte % 16 };
        let index = nibble as usize;
        proof { lemma_pvi_tables(index as int); }
        let sign = PVI_STEP_SIGN[index];
        let scale = PVI_STEP_SCALE[index];
        assert(-368640 <= sign * delta_n <= 368640) by (nonlinear_arith)
            requires -15 <= sign <= 15, 127 <= delta_n <= 24576;
        assert(0 <= delta_n * scale <= 3760128) by (nonlinear_arith)
            requires 57 <= scale <= 153, 127 <= delta_n <= 24576;
        let product = sign * delta_n;
        let step = if product >= 0 { product / 8 } else { -((-product) / 8) };
        x_n = crate::opna::adpcm::clamp_i32(x_n + step, -32768, 32767);
        delta_n = crate::opna::adpcm::clamp_i32(delta_n * scale / 64, 127, 24576);
        let scaled = if x_n >= 0 { x_n / 256 } else { -((-x_n) / 256) };
        output.push((scaled + 128) as u8);
        k = k + 1;
        proof {
            assert(output@ =~= pvi_decoded(source@, k as int));
        }
    }
    Some(output)
}

fn ppz_signature_ok(bytes: &[u8], signature: [u8; 3]) -> (matches: bool)
    ensures
        matches == starts_with(bytes@, signature@),
{
    has_signature(bytes, &signature)
}

impl PpzBank {
    /// Reads a PZI bank: "PZI", a 128-entry table, then 8-bit samples.
    pub fn parse_pzi(bytes: &[u8]) -> (result: Result<Self, ()>)
        ensures
            result is Ok <==> pzi_accepts(bytes@),
            result matches Ok(bank) ==> pzi_bank(bytes@, bank),
    {
        let signature: [u8; 3] = [0x50, 0x5a, 0x49];
        proof { assert(signature@ =~= pzi_signature()); }
        if bytes.len() < PPZ_PZI_HEADER_SIZE || !ppz_signature_ok(bytes, signature) {
            return Err(());
        }
        let data_len = bytes.len() - PPZ_PZI_HEADER_SIZE;
        if data_len > MAX_COMPANION_DATA {
            return Err(());
        }
        let mut entries: Vec<PpzEntry> = Vec::new();
        let mut index: usize = 0;
        while index < 128
            invariant
                0 <= index <= 128,
                bytes@.len() >= PPZ_PZI_HEADER_SIZE,
                data_len == bytes@.len() - PPZ_PZI_HEADER_SIZE,
                entries@.len() == index,
                forall|i: int| 0 <= i < index ==> #[trigger] pzi_entry_ok(bytes@, i),
                forall|i: int| 0 <= i < index ==> #[trigger] entries@[i] == pzi_entry(bytes@, i),
            decreases 128 - index,
        {
            let offset = 0x20 + index * 18;
            let start = match read_u32(bytes, offset) { Some(v) => v, None => { return Err(()); } };
            let size = match read_u32(bytes, offset + 4) { Some(v) => v, None => { return Err(()); } };
            let loop_start = match read_u32(bytes, offset + 8) { Some(v) => v, None => { return Err(()); } };
            let loop_end = match read_u32(bytes, offset + 12) { Some(v) => v, None => { return Err(()); } };
            let rate = match read_u16(bytes, offset + 16) { Some(v) => v, None => { return Err(()); } };
            if size != 0 && ((start as usize) > data_len || (size as usize) > data_len - (start as usize)) {
                assert(!pzi_entry_ok(bytes@, index as int));
                return Err(());
            }
            entries.push(PpzEntry { start, size, loop_start, loop_end, rate });
            index = index + 1;
        }
        Ok(PpzBank { from_pvi: false, entries, samples: copy_range(bytes, PPZ_PZI_HEADER_SIZE, bytes.len()) })
    }

    /// Reads a PPZ bank from a PVI file, decoding its ADPCM samples to 8 bits.
    pub fn parse_pvi(bytes: &[u8]) -> (result: Result<Self, ()>)
        ensures
            result is Ok <==> ppz_pvi_accepts(bytes@),
            result matches Ok(bank) ==> ppz_pvi_bank(bytes@, bank),
    {
        let signature: [u8; 3] = [0x50, 0x56, 0x49];
        proof { assert(signature@ =~= pvi_signature()); }
        if bytes.len() < PPZ_PVI_HEADER_SIZE || !ppz_signature_ok(bytes, signature) {
            return Err(());
        }
        let count = bytes[0x0b] as usize;
        if count > 128 {
            return Err(());
        }
        let mut entries: Vec<PpzEntry> = Vec::new();
        let mut output_size: usize = 0;
        let mut index: usize = 0;
        while index < 128
            invariant
                0 <= index <= 128,
                bytes@.len() >= PPZ_PVI_HEADER_SIZE,
                count == bytes@[0x0b],
                count <= 128,
                entries@.len() == index,
                output_size == ppz_pvi_size(bytes@, count as int, index as int),
                output_size <= index * 0x40_0000,
                forall|i: int| 0 <= i < index ==> #[trigger] ppz_pvi_entry_ok(bytes@, count as int, i),
                forall|i: int| 0 <= i < index ==> #[trigger] entries@[i] == ppz_pvi_entry(bytes@, count as int, i),
            decreases 128 - index,
        {
            let offset = 0x10 + index * 4;
            let raw_start = match read_u16(bytes, offset) { Some(v) => v, None => { return Err(()); } };
            let end_address = match read_u16(bytes, offset + 2) { Some(v) => v, None => { return Err(()); } };
            let entry = if index < count {
                if end_address < raw_start {
                    assert(!ppz_pvi_entry_ok(bytes@, count as int, index as int));
                    return Err(());
                }
                PpzEntry {
                    start: (raw_start as u32) * 64,
                    size: ((end_address - raw_start) as u32 + 1) * 64,
                    loop_start: 0xffff,
                    loop_end: 0xffff,
                    rate: 16000,
                }
            } else {
                PpzEntry { start: 0, size: 0, loop_start: 0xffff, loop_end: 0xffff, rate: 16000 }
            };
            output_size = output_size + entry.size as usize;
            entries.push(entry);
            index = index + 1;
        }
        if output_size > MAX_COMPANION_DATA {
            return Err(());
        }
        if bytes.len() - PPZ_PVI_HEADER_SIZE < output_size / 2 {
            return Err(());
        }
        let source = &bytes[PPZ_PVI_HEADER_SIZE..bytes.len()];
        let samples = match decode_pvi_samples(source, output_size) {
            Some(s) => s,
            None => {
                return Err(());
            },
        };
        Ok(PpzBank { from_pvi: true, entries, samples })
    }

    pub fn sample_bytes(&self, index: usize) -> (sample: Option<&[u8]>)
        ensures
            index >= self.entries@.len() ==> sample is None,
            index < self.entries@.len() ==> match sized_sample_spec(self.entries@[index as int].start, self.entries@[index as int].size, self.samples@) {
                Some(v) => sample matches Some(s) && s@ == v,
                None => sample is None,
            },
    {
        if index >= self.entries.len() {
            return None;
        }
        let entry = self.entries[index];
        sized_sample(self.samples.as_slice(), entry.start, entry.size)
    }
}


/// A character with ASCII letters made upper case.
pub open spec fn ascii_upper(c: char) -> char {
    if 'a' <= c <= 'z' { ((c as u32) - 32) as char } else { c }
}

/// A character with ASCII letters made lower case.
pub open spec fn ascii_lower(c: char) -> char {
    if 'A' <= c <= 'Z' { ((c as u32) + 32) as char } else { c }
}

pub fn ascii_uppercase(c: char) -> (upper: char)
    ensures
        upper == ascii_upper(c),
{
    if 'a' <= c && c <= 'z' {
        ((c as u8) - 32) as char
    } else {
        c
    }
}

pub fn ascii_lowercase(c: char) -> (lower: char)
    ensures
        lower == ascii_lower(c),
{
    if 'A' <= c && c <= 'Z' {
        ((c as u8) + 32) as char
    } else {
        c
    }
}

/// `String::from` for one character.
#[verifier::external_body]
fn char_string(c: char) -> (text: String)
    ensures
        text@ == seq![c],
{
    String::from(c)
}

/// A name with its ASCII letters upper case (how the driver spells files).
pub fn normalize_name(name: &str) -> (normalized: String)
    ensures
        normalized@ == name@.map_values(|c: char| ascii_upper(c)),
{
    let count = name.unicode_len();
    let mut normalized = String::new();
    let mut index: usize = 0;
    while index < count
        invariant
            index <= count,
            count == name@.len(),
            normalized@ == name@.subrange(0, index as int).map_values(|c: char| ascii_upper(c)),
        decreases count - index,
    {
        let piece = char_string(ascii_uppercase(name.get_char(index)));
        normalized.append(piece.as_str());
        index = index + 1;
        proof {
            assert(name@.subrange(0, index as int) =~= name@.subrange(0, index - 1).push(name@[index - 1]));
            assert(normalized@ =~= name@.subrange(0, index as int).map_values(|c: char| ascii_upper(c)));
        }
    }
    proof {
        assert(name@.subrange(0, count as int) =~= name@);
    }
    normalized
}

/// A name with its ASCII letters lower case.
pub fn normalize_lower_name(name: &str) -> (normalized: String)
    ensures
        normalized@ == name@.map_values(|c: char| ascii_lower(c)),
{
    let count = name.unicode_len();
    let mut normalized = String::new();
    let mut index: usize = 0;
    while index < count
        invariant
            index <= count,
            count == name@.len(),
            normalized@ == name@.subrange(0, index as int).map_values(|c: char| ascii_lower(c)),
        decreases count - index,
    {
        let piece = char_string(ascii_lowercase(name.get_char(index)));
        normalized.append(piece.as_str());
        index = index + 1;
        proof {
            assert(name@.subrange(0, index as int) =~= name@.subrange(0, index - 1).push(name@[index - 1]));
            assert(normalized@ =~= name@.subrange(0, index as int).map_values(|c: char| ascii_lower(c)));
        }
    }
    proof {
        assert(name@.subrange(0, count as int) =~= name@);
    }
    normalized
}

/// Whether two texts hold the same characters.
pub fn same_text(a: &str, b: &str) -> (same: bool)
    ensures
        same == (a@ == b@),
{
    let count = a.unicode_len();
    if count != b.unicode_len() {
        return false;
    }
    let mut index: usize = 0;
    while index < count
        invariant
            index <= count,
            count == a@.len(),
            count == b@.len(),
            forall|i: int| 0 <= i < index ==> a@[i] == b@[i],
        decreases count - index,
    {
        if a.get_char(index) != b.get_char(index) {
            return false;
        }
        index = index + 1;
    }
    proof {
        assert(a@ =~= b@);
    }
    true
}

/// The position of the last `a` or `b` in a text, or -1.
pub open spec fn last_of(s: Seq<char>, a: char, b: char) -> int
    decreases s.len(),
{
    if s.len() == 0 {
        -1
    } else if s.last() == a || s.last() == b {
        s.len() - 1
    } else {
        last_of(s.drop_last(), a, b)
    }
}

proof fn lemma_last_of(s: Seq<char>, a: char, b: char, n: int)
    requires
        0 <= n <= s.len(),
    ensures
        last_of(s.subrange(0, n), a, b) < n,
        -1 <= last_of(s.subrange(0, n), a, b),
        last_of(s.subrange(0, n), a, b) >= 0 ==> (s[last_of(s.subrange(0, n), a, b)] == a || s[last_of(s.subrange(0, n), a, b)] == b),
        forall|i: int| last_of(s.subrange(0, n), a, b) < i < n ==> s[i] != a && s[i] != b,
    decreases n,
{
    if n > 0 {
        assert(s.subrange(0, n).drop_last() =~= s.subrange(0, n - 1));
        lemma_last_of(s, a, b, n - 1);
    }
}

proof fn lemma_last_of_bounds(s: Seq<char>, a: char, b: char)
    ensures
        -1 <= last_of(s, a, b) < s.len(),
        last_of(s, a, b) >= 0 ==> (s[last_of(s, a, b)] == a || s[last_of(s, a, b)] == b),
        forall|i: int| last_of(s, a, b) < i < s.len() ==> s[i] != a && s[i] != b,
{
    lemma_last_of(s, a, b, s.len() as int);
    assert(s.subrange(0, s.len() as int) =~= s);
}

/// Finds the last `a` or `b` in a text.
pub fn find_last(name: &str, a: char, b: char) -> (found: Option<usize>)
    ensures
        found == (if last_of(name@, a, b) < 0 { None::<usize> } else { Some(last_of(name@, a, b) as usize) }),
{
    let count = name.unicode_len();
    let mut index: usize = count;
    proof {
        lemma_last_of(name@, a, b, count as int);
        assert(name@.subrange(0, count as int) =~= name@);
    }
    while index > 0
        invariant
            index <= count,
            count == name@.len(),
            forall|i: int| index <= i < count ==> name@[i] != a && name@[i] != b,
        decreases index,
    {
        let c = name.get_char(index - 1);
        if c == a || c == b {
            proof {
                lemma_last_of(name@, a, b, count as int);
                assert(name@.subrange(0, count as int) =~= name@);
            }
            return Some(index - 1);
        }
        index = index - 1;
    }
    proof {
        lemma_last_of(name@, a, b, count as int);
        assert(name@.subrange(0, count as int) =~= name@);
    }
    None
}

/// Where a name's extension starts (the character after the last dot of
/// its final path component), if it has one.
pub open spec fn extension_start(name: Seq<char>) -> int {
    let separator = last_of(name, '/', '\\');
    let dot = last_of(name, '.', '.');
    if dot > separator { dot + 1 } else { -1 }
}

/// A name's extension: what follows the last dot of its final path
/// component.
pub fn extension(name: &str) -> (found: Option<&str>)
    ensures
        extension_start(name@) < 0 ==> found is None,
        extension_start(name@) >= 0 ==> (found matches Some(e) && e@ == name@.subrange(extension_start(name@), name@.len() as int)),
{
    let separator = find_last(name, '/', '\\');
    let dot = find_last(name, '.', '.');
    proof {
        lemma_last_of_bounds(name@, '.', '.');
        lemma_last_of_bounds(name@, '/', '\\');
    }
    let count = name.unicode_len();
    match dot {
        None => None,
        Some(dot) => {
            let after = match separator {
                Some(separator) => dot > separator,
                None => true,
            };
            if after {
                Some(name.substring_char(dot + 1, count))
            } else {
                None
            }
        },
    }
}

/// Whether two texts are equal ignoring ASCII case.
pub open spec fn same_ignoring_case(a: Seq<char>, b: Seq<char>) -> bool {
    a.len() == b.len() && forall|i: int| 0 <= i < a.len() ==> ascii_lower(a[i]) == ascii_lower(b[i])
}

/// Whether a name's extension is `expected`, ignoring ASCII case.
pub fn extension_is(name: &str, expected: &str) -> (matches: bool)
    ensures
        matches == (extension_start(name@) >= 0
            && same_ignoring_case(name@.subrange(extension_start(name@), name@.len() as int), expected@)),
{
    proof {
        lemma_last_of_bounds(name@, '.', '.');
        lemma_last_of_bounds(name@, '/', '\\');
    }
    match extension(name) {
        None => false,
        Some(value) => {
            let count = value.unicode_len();
            if count != expected.unicode_len() {
                return false;
            }
            let mut index: usize = 0;
            while index < count
                invariant
                    index <= count,
                    count == value@.len(),
                    count == expected@.len(),
                    extension_start(name@) >= 0,
                    value@ == name@.subrange(extension_start(name@), name@.len() as int),
                    forall|i: int| 0 <= i < index ==> ascii_lower(value@[i]) == ascii_lower(expected@[i]),
                decreases count - index,
            {
                if ascii_lowercase(value.get_char(index)) != ascii_lowercase(expected.get_char(index)) {
                    assert(ascii_lower(value@[index as int]) != ascii_lower(expected@[index as int]));
                    return false;
                }
                index = index + 1;
            }
            true
        },
    }
}

/// Whether a name has a nonempty extension.
pub fn has_extension(name: &str) -> (has: bool)
    ensures
        has == (extension_start(name@) >= 0 && extension_start(name@) < name@.len()),
{
    proof {
        lemma_last_of_bounds(name@, '.', '.');
        lemma_last_of_bounds(name@, '/', '\\');
    }
    match extension(name) {
        None => false,
        Some(value) => value.unicode_len() > 0,
    }
}

/// Where a name's extension (with its dot) begins, or its length when it
/// has none.
pub open spec fn stem_end(name: Seq<char>) -> int {
    if extension_start(name) >= 0 { extension_start(name) - 1 } else { name.len() as int }
}

/// A name with its extension (and dot) replaced by `new_extension`, or
/// with it appended when it has none.
pub fn replace_extension(name: &str, new_extension: &str) -> (replaced: String)
    ensures
        replaced@ == name@.subrange(0, stem_end(name@)) + new_extension@,
{
    let separator = find_last(name, '/', '\\');
    let dot = find_last(name, '.', '.');
    proof {
        lemma_last_of_bounds(name@, '.', '.');
        lemma_last_of_bounds(name@, '/', '\\');
    }
    let count = name.unicode_len();
    let end = match dot {
        Some(dot) => match separator {
            Some(separator) => if dot > separator { dot } else { count },
            None => dot,
        },
        None => count,
    };
    let mut replaced = String::from_str(name.substring_char(0, end));
    replaced.append(new_extension);
    replaced
}


/// The names a companion file is looked up under, in order: as written,
/// upper case and lower case (each only where it differs), then the same
/// three for the part after the last path separator, if there is one.
pub open spec fn lookup_candidates(name: Seq<char>) -> Seq<Seq<char>> {
    let upper = name.map_values(|c: char| ascii_upper(c));
    let lower = name.map_values(|c: char| ascii_lower(c));
    let whole = seq![name] + (if upper != name { seq![upper] } else { Seq::<Seq<char>>::empty() })
        + (if lower != name { seq![lower] } else { Seq::<Seq<char>>::empty() });
    let separator = last_of(name, '/', '\\');
    if separator < 0 {
        whole
    } else {
        let base = name.subrange(separator + 1, name.len() as int);
        whole + seq![base, base.map_values(|c: char| ascii_upper(c)), base.map_values(|c: char| ascii_lower(c))]
    }
}

/// The texts of a list of strings.
pub open spec fn texts(names: Seq<String>) -> Seq<Seq<char>> {
    names.map_values(|n: String| n@)
}

pub fn lookup_names(name: &str) -> (names: Vec<String>)
    ensures
        texts(names@) == lookup_candidates(name@),
{
    let mut names: Vec<String> = Vec::new();
    names.push(String::from_str(name));
    let upper = normalize_name(name);
    let upper_differs = !same_text(upper.as_str(), name);
    if upper_differs {
        names.push(upper);
    }
    let lower = normalize_lower_name(name);
    let lower_differs = !same_text(lower.as_str(), name);
    if lower_differs {
        names.push(lower);
    }
    let ghost whole = texts(names@);
    proof {
        let u = name@.map_values(|c: char| ascii_upper(c));
        let l = name@.map_values(|c: char| ascii_lower(c));
        assert(whole =~= seq![name@] + (if u != name@ { seq![u] } else { Seq::<Seq<char>>::empty() })
            + (if l != name@ { seq![l] } else { Seq::<Seq<char>>::empty() }));
        lemma_last_of_bounds(name@, '/', '\\');
    }
    let count = name.unicode_len();
    match find_last(name, '/', '\\') {
        None => {},
        Some(separator) => {
            let base = name.substring_char(separator + 1, count);
            names.push(String::from_str(base));
            names.push(normalize_name(base));
            names.push(normalize_lower_name(base));
        },
    }
    proof {
        assert(texts(names@) =~= lookup_candidates(name@));
    }
    names
}

/// Looks a companion file up under each candidate name in turn and copies
/// the first one the provider has. What comes back depends on the provider
/// alone; the names asked for are `lookup_names`.
pub fn lookup<F: FileProvider + ?Sized>(files: &F, name: &str) -> (found: Option<Vec<u8>>) {
    let names = lookup_names(name);
    let mut index: usize = 0;
    while index < names.len()
        invariant
            index <= names@.len(),
        decreases names@.len() - index,
    {
        match files.get(names[index].as_str()) {
            Some(bytes) => {
                return Some(copy_range(bytes, 0, bytes.len()));
            },
            None => {},
        }
        index = index + 1;
    }
    None
}

/// Why a companion bank could not be had.
pub open spec fn adpcm_accepts(bytes: Seq<u8>) -> bool {
    if is_pvi_adpcm(bytes) { pvi_accepts(bytes) } else { starts_with(bytes, PPC_HEADER@) && ppc_accepts(bytes) }
}

/// The ADPCM bank a PVI or PPC file holds.
pub open spec fn adpcm_bank(bytes: Seq<u8>, bank: AdpcmBank) -> bool {
    if is_pvi_adpcm(bytes) { pvi_bank(bytes, bank) } else { ppc_bank(bytes, bank) }
}

/// An ADPCM bank from looked-up bytes: none when nothing was found, an
/// invalid-companion error when the bytes are no bank.
pub fn adpcm_from(found: Option<Vec<u8>>) -> (result: Result<Option<AdpcmBank>, CompanionLoadError>)
    ensures
        found is None ==> result == Ok::<Option<AdpcmBank>, CompanionLoadError>(None),
        found matches Some(bytes) ==> ({
            &&& (result is Ok <==> adpcm_accepts(bytes@))
            &&& result is Err ==> result == Err::<Option<AdpcmBank>, CompanionLoadError>(CompanionLoadError::Invalid)
            &&& result matches Ok(bank) ==> (bank matches Some(b) && adpcm_bank(bytes@, b))
        }),
{
    match found {
        None => Ok(None),
        Some(bytes) => match AdpcmBank::parse(bytes.as_slice()) {
            Ok(bank) => Ok(Some(bank)),
            Err(_) => Err(CompanionLoadError::Invalid),
        },
    }
}

/// A P86 bank from looked-up bytes.
pub fn p86_from(found: Option<Vec<u8>>) -> (result: Result<Option<P86Bank>, CompanionLoadError>)
    ensures
        found is None ==> result == Ok::<Option<P86Bank>, CompanionLoadError>(None),
        found matches Some(bytes) ==> ({
            &&& (result is Ok <==> p86_accepts(bytes@))
            &&& result is Err ==> result == Err::<Option<P86Bank>, CompanionLoadError>(CompanionLoadError::Invalid)
            &&& result matches Ok(bank) ==> (bank matches Some(b) && p86_bank(bytes@, b))
        }),
{
    match found {
        None => Ok(None),
        Some(bytes) => match P86Bank::parse(bytes.as_slice()) {
            Ok(bank) => Ok(Some(bank)),
            Err(_) => Err(CompanionLoadError::Invalid),
        },
    }
}

/// A PPS bank from looked-up bytes.
pub fn pps_from(found: Option<Vec<u8>>) -> (result: Result<Option<PpsBank>, CompanionLoadError>)
    ensures
        found is None ==> result == Ok::<Option<PpsBank>, CompanionLoadError>(None),
        found matches Some(bytes) ==> ({
            &&& (result is Ok <==> pps_accepts(bytes@))
            &&& result is Err ==> result == Err::<Option<PpsBank>, CompanionLoadError>(CompanionLoadError::Invalid)
            &&& result matches Ok(bank) ==> (bank matches Some(b) && pps_bank(bytes@, b))
        }),
{
    match found {
        None => Ok(None),
        Some(bytes) => match PpsBank::parse(bytes.as_slice()) {
            Ok(bank) => Ok(Some(bank)),
            Err(_) => Err(CompanionLoadError::Invalid),
        },
    }
}

/// A PPZ8 bank from looked-up bytes: a PZI file when the name says so,
/// else a PVI file.
pub fn ppz_from(found: Option<Vec<u8>>, pzi: bool) -> (result: Result<Option<PpzBank>, CompanionLoadError>)
    ensures
        found is None ==> result == Ok::<Option<PpzBank>, CompanionLoadError>(None),
        found matches Some(bytes) ==> ({
            &&& (result is Ok <==> (if pzi { pzi_accepts(bytes@) } else { ppz_pvi_accepts(bytes@) }))
            &&& result is Err ==> result == Err::<Option<PpzBank>, CompanionLoadError>(CompanionLoadError::Invalid)
            &&& result matches Ok(bank) ==> (bank matches Some(b) && (if pzi { pzi_bank(bytes@, b) } else { ppz_pvi_bank(bytes@, b) }))
        }),
{
    match found {
        None => Ok(None),
        Some(bytes) => {
            let parsed = if pzi { PpzBank::parse_pzi(bytes.as_slice()) } else { PpzBank::parse_pvi(bytes.as_slice()) };
            match parsed {
                Ok(bank) => Ok(Some(bank)),
                Err(_) => Err(CompanionLoadError::Invalid),
            }
        },
    }
}

pub fn load_adpcm<F: FileProvider + ?Sized>(files: &F, name: &str) -> (result: Result<Option<AdpcmBank>, CompanionLoadError>) {
    adpcm_from(lookup(files, name))
}

pub fn load_p86<F: FileProvider + ?Sized>(files: &F, name: &str) -> (result: Result<Option<P86Bank>, CompanionLoadError>) {
    p86_from(lookup(files, name))
}

pub fn load_pps<F: FileProvider + ?Sized>(files: &F, name: &str) -> (result: Result<Option<PpsBank>, CompanionLoadError>) {
    pps_from(lookup(files, name))
}

pub fn load_ppz<F: FileProvider + ?Sized>(files: &F, name: &str) -> (result: Result<Option<PpzBank>, CompanionLoadError>) {
    let pzi = extension_is(name, "PZI");
    ppz_from(lookup(files, name), pzi)
}


/// The sample banks a song's companion files gave.
#[derive(Clone, Debug, PartialEq, Eq)]
pub struct CompanionBanks {
    pub adpcm: Option<AdpcmBank>,
    pub pps: Option<PpsBank>,
    pub p86: Option<P86Bank>,
    pub ppz: [Option<PpzBank>; 2],
}

impl CompanionBanks {
    pub fn empty() -> (banks: Self)
        ensures
            banks.adpcm is None,
            banks.pps is None,
            banks.p86 is None,
            banks.ppz@[0] is None,
            banks.ppz@[1] is None,
    {
        CompanionBanks { adpcm: None, pps: None, p86: None, ppz: [None, None] }
    }
}

/// How often a character occurs in a text.
pub open spec fn count_of(s: Seq<char>, c: char) -> nat
    decreases s.len(),
{
    if s.len() == 0 { 0 } else { count_of(s.drop_last(), c) + (if s.last() == c { 1nat } else { 0nat }) }
}

/// Where a character first occurs in a text, or -1.
pub open spec fn first_of(s: Seq<char>, c: char) -> int
    decreases s.len(),
{
    if s.len() == 0 {
        -1
    } else if s[0] == c {
        0
    } else {
        let rest = first_of(s.drop_first(), c);
        if rest < 0 { -1 } else { rest + 1 }
    }
}

/// The one or two PPZ8 bank names a comma-separated list gives; `None` for
/// more than two, or an empty one.
pub open spec fn ppz_list(s: Seq<char>) -> Option<Seq<Seq<char>>> {
    let commas = count_of(s, ',');
    if commas == 0 {
        if s.len() == 0 { None } else { Some(seq![s]) }
    } else if commas == 1 {
        let comma = first_of(s, ',');
        let first = s.subrange(0, comma);
        let second = s.subrange(comma + 1, s.len() as int);
        if first.len() == 0 || second.len() == 0 { None } else { Some(seq![first, second]) }
    } else {
        None
    }
}

proof fn lemma_count_step(s: Seq<char>, c: char, n: int)
    requires
        0 <= n < s.len(),
    ensures
        count_of(s.subrange(0, n + 1), c) == count_of(s.subrange(0, n), c) + (if s[n] == c { 1nat } else { 0nat }),
{
    assert(s.subrange(0, n + 1).drop_last() =~= s.subrange(0, n));
}

proof fn lemma_first_of(s: Seq<char>, c: char, k: int)
    requires
        0 <= k < s.len(),
        s[k] == c,
        forall|i: int| 0 <= i < k ==> s[i] != c,
    ensures
        first_of(s, c) == k,
    decreases k,
{
    if k > 0 {
        lemma_first_of(s.drop_first(), c, k - 1);
    }
}

/// Counts the commas of a list and finds the first one.
fn comma_layout(s: &str) -> (layout: (usize, usize))
    ensures
        layout.0 == count_of(s@, ','),
        layout.0 > 0 ==> layout.1 == first_of(s@, ',') && layout.1 < s@.len(),
{
    let count = s.unicode_len();
    let mut commas: usize = 0;
    let mut first: usize = 0;
    let mut index: usize = 0;
    while index < count
        invariant
            index <= count,
            count == s@.len(),
            commas <= index,
            commas == count_of(s@.subrange(0, index as int), ','),
            commas == 0 ==> forall|i: int| 0 <= i < index ==> s@[i] != ',',
            commas > 0 ==> first < index && s@[first as int] == ',' && forall|i: int| 0 <= i < first ==> s@[i] != ',',
        decreases count - index,
    {
        proof { lemma_count_step(s@, ',', index as int); }
        if s.get_char(index) == ',' {
            if commas == 0 {
                first = index;
            }
            commas = commas + 1;
        }
        index = index + 1;
    }
    proof {
        assert(s@.subrange(0, count as int) =~= s@);
        if commas > 0 {
            lemma_first_of(s@, ',', first as int);
        }
    }
    (commas, first)
}

/// Whether a PPZ8 name is a PMB file, which the player does not load.
pub open spec fn is_pmb(name: Seq<char>) -> bool {
    extension_start(name) >= 0 && same_ignoring_case(name.subrange(extension_start(name), name.len() as int), seq!['P', 'M', 'B'])
}

/// Whether a name's extension is `expected`, ignoring case.
pub open spec fn extension_matches(name: Seq<char>, expected: Seq<char>) -> bool {
    extension_start(name) >= 0 && same_ignoring_case(name.subrange(extension_start(name), name.len() as int), expected)
}

/// The second name a PCM bank is looked up under: a `.P86` name falls back
/// to `.PPC`, any other to `.P86`.
pub open spec fn pcm_fallback(name: Seq<char>) -> Seq<char> {
    name.subrange(0, stem_end(name)) + (if extension_matches(name, seq!['P', '8', '6']) {
        seq!['.', 'P', 'P', 'C']
    } else {
        seq!['.', 'P', '8', '6']
    })
}

/// The name a PPS bank is first looked up under: the name itself when it
/// ends in `.PPS`, else the name with `.PPS` (the name itself comes second).
pub open spec fn pps_first_name(name: Seq<char>) -> Seq<char> {
    if extension_matches(name, seq!['P', 'P', 'S']) {
        name
    } else {
        name.subrange(0, stem_end(name)) + seq!['.', 'P', 'P', 'S']
    }
}

/// The name a PPZ8 entry is looked up under: as given when it has an
/// extension, else with `.PZI`.
pub open spec fn ppz_piece_name(piece: Seq<char>) -> Seq<char> {
    if extension_start(piece) >= 0 && extension_start(piece) < piece.len() {
        piece
    } else {
        piece.subrange(0, stem_end(piece)) + seq!['.', 'P', 'Z', 'I']
    }
}

/// The second name of a PCM bank.
pub fn pcm_fallback_name(name: &str) -> (fallback: String)
    ensures
        fallback@ == pcm_fallback(name@),
{
    proof {
        reveal_strlit("P86");
        reveal_strlit(".PPC");
        reveal_strlit(".P86");
        assert("P86"@ =~= seq!['P', '8', '6']);
        assert(".PPC"@ =~= seq!['.', 'P', 'P', 'C']);
        assert(".P86"@ =~= seq!['.', 'P', '8', '6']);
    }
    if extension_is(name, "P86") {
        replace_extension(name, ".PPC")
    } else {
        replace_extension(name, ".P86")
    }
}

/// The first name of a PPS bank.
pub fn pps_first_lookup_name(name: &str) -> (first: String)
    ensures
        first@ == pps_first_name(name@),
{
    proof {
        reveal_strlit("PPS");
        reveal_strlit(".PPS");
        assert("PPS"@ =~= seq!['P', 'P', 'S']);
        assert(".PPS"@ =~= seq!['.', 'P', 'P', 'S']);
    }
    if extension_is(name, "PPS") {
        String::from_str(name)
    } else {
        replace_extension(name, ".PPS")
    }
}

/// The names a PPZ8 entry is looked up under: none for a `.PMB` entry,
/// an invalid-companion error for a list that is not one or two
/// non-empty comma-separated names.
pub fn ppz_lookup_names(list: &str) -> (plan: Result<Option<Vec<String>>, CompanionLoadError>)
    ensures
        is_pmb(list@) ==> plan == Ok::<Option<Vec<String>>, CompanionLoadError>(None),
        !is_pmb(list@) && ppz_list(list@) is None ==> plan == Err::<Option<Vec<String>>, CompanionLoadError>(CompanionLoadError::Invalid),
        !is_pmb(list@) && ppz_list(list@) is Some ==> (plan matches Ok(Some(planned)) && {
            let pieces = ppz_list(list@)->0;
            &&& planned@.len() == pieces.len()
            &&& forall|k: int| 0 <= k < pieces.len() ==> (#[trigger] planned@[k])@ == ppz_piece_name(pieces[k])
        }),
{
    let pmb = extension_is(list, "PMB");
    proof {
        reveal_strlit("PMB");
        assert("PMB"@ =~= seq!['P', 'M', 'B']);
        reveal_strlit(".PZI");
        assert(".PZI"@ =~= seq!['.', 'P', 'Z', 'I']);
    }
    if pmb {
        return Ok(None);
    }
    let (commas, comma) = comma_layout(list);
    let count = list.unicode_len();
    if commas > 1 {
        return Err(CompanionLoadError::Invalid);
    }
    let first_end = if commas == 1 { comma } else { count };
    if first_end == 0 || (commas == 1 && comma + 1 == count) {
        return Err(CompanionLoadError::Invalid);
    }
    let pieces = if commas == 1 { 2usize } else { 1usize };
    let ghost expected = ppz_list(list@)->0;
    let mut planned: Vec<String> = Vec::new();
    let mut slot: usize = 0;
    while slot < pieces
        invariant
            1 <= pieces <= 2,
            slot <= pieces,
            count == list@.len(),
            first_end <= count,
            commas == count_of(list@, ','),
            commas <= 1,
            pieces == (if commas == 1 { 2usize } else { 1usize }),
            pieces == 2 ==> comma < count && first_end == comma && comma == first_of(list@, ','),
            pieces == 1 ==> first_end == count,
            first_end > 0,
            pieces == 2 ==> comma + 1 < count,
            ppz_list(list@) == Some(expected),
            expected.len() == pieces,
            planned@.len() == slot,
            forall|k: int| 0 <= k < slot ==> (#[trigger] planned@[k])@ == ppz_piece_name(expected[k]),
        decreases pieces - slot,
    {
        let piece = if slot == 0 { list.substring_char(0, first_end) } else { list.substring_char(comma + 1, count) };
        proof {
            if slot == 0 {
                if pieces == 1 {
                    assert(list@.subrange(0, first_end as int) =~= list@);
                }
                assert(piece@ == expected[0]);
            } else {
                assert(piece@ == expected[1]);
            }
        }
        let name = if has_extension(piece) { String::from_str(piece) } else { replace_extension(piece, ".PZI") };
        proof {
            reveal_strlit(".PZI");
            assert(".PZI"@ =~= seq!['.', 'P', 'Z', 'I']);
            assert(name@ == ppz_piece_name(piece@));
        }
        let ghost before = planned@;
        planned.push(name);
        proof {
            assert forall|k: int| 0 <= k < slot + 1 implies (#[trigger] planned@[k])@ == ppz_piece_name(expected[k]) by {
                if k < slot {
                    assert(planned@[k] == before[k]);
                }
            }
        }
        slot = slot + 1;
    }
    Ok(Some(planned))
}

/// Loads the banks a song names through a file provider, in order PCM,
/// PPS, PPZ8. The PCM bank is looked up as named (a P86 bank for a `.P86`
/// name, else an ADPCM one) and then under `pcm_fallback_name`; the PPS
/// bank under `pps_first_lookup_name`, then (unless that was the name
/// itself) as named; the PPZ8 entry under the names of `ppz_lookup_names`,
/// whose list errors come before any of its lookups. Each lookup tries the
/// candidates of `lookup_names` (the name, upper- and lower-cased, then its
/// base name likewise). Which files the provider has decides the rest.
pub fn load_companions<F: FileProvider + ?Sized>(names: &CompanionNames, files: &F) -> (result: Result<CompanionBanks, CompanionLoadError>)
    ensures
        names.pcm is None && names.pps is None && (names.ppz matches Some(list) ==> is_pmb(list@)) ==> (result matches Ok(b)
            && b.adpcm is None && b.pps is None && b.p86 is None && b.ppz@[0] is None && b.ppz@[1] is None),
        names.ppz matches Some(list) && !is_pmb(list@) && ppz_list(list@) is None ==> result is Err,
        names.pcm is None && names.pps is None && (names.ppz matches Some(list) && !is_pmb(list@) && ppz_list(list@) is None)
            ==> result == Err::<CompanionBanks, CompanionLoadError>(CompanionLoadError::Invalid),
        result matches Ok(b) ==> ({
            &&& names.pcm is None ==> b.adpcm is None && b.p86 is None
            &&& names.pcm is Some ==> (b.adpcm is Some) != (b.p86 is Some)
            &&& (b.pps is Some <==> names.pps is Some)
            &&& match names.ppz {
                None => b.ppz@[0] is None && b.ppz@[1] is None,
                Some(list) => if is_pmb(list@) {
                    b.ppz@[0] is None && b.ppz@[1] is None
                } else {
                    &&& ppz_list(list@) is Some
                    &&& b.ppz@[0] is Some
                    &&& (b.ppz@[1] is Some <==> ppz_list(list@)->0.len() == 2)
                },
            }
        }),
{
    let mut banks = CompanionBanks::empty();
    match &names.pcm {
        None => {},
        Some(name) => {
            let name = name.as_str();
            let fallback = pcm_fallback_name(name);
            if extension_is(name, "P86") {
                match load_p86(files, name) {
                    Ok(Some(bank)) => {
                        banks.p86 = Some(bank);
                    },
                    Ok(None) | Err(CompanionLoadError::Missing) => {
                        banks.adpcm = load_adpcm(files, fallback.as_str())?;
                        if banks.adpcm.is_none() {
                            return Err(CompanionLoadError::Missing);
                        }
                    },
                    Err(CompanionLoadError::Invalid) => match load_adpcm(files, fallback.as_str()) {
                        Ok(Some(bank)) => {
                            banks.adpcm = Some(bank);
                        },
                        _ => {
                            return Err(CompanionLoadError::Invalid);
                        },
                    },
                }
            } else {
                match load_adpcm(files, name) {
                    Ok(Some(bank)) => {
                        banks.adpcm = Some(bank);
                    },
                    first => {
                        match load_p86(files, fallback.as_str()) {
                            Ok(Some(bank)) => {
                                banks.p86 = Some(bank);
                            },
                            Err(CompanionLoadError::Invalid) => {
                                return Err(CompanionLoadError::Invalid);
                            },
                            _ => {
                                return Err(match first {
                                    Err(CompanionLoadError::Invalid) => CompanionLoadError::Invalid,
                                    _ => CompanionLoadError::Missing,
                                });
                            },
                        }
                    },
                }
            }
        },
    }
    match &names.pps {
        None => {},
        Some(name) => {
            let name = name.as_str();
            let has_pps = extension_is(name, "PPS");
            let pps_name = pps_first_lookup_name(name);
            match load_pps(files, pps_name.as_str())? {
                Some(bank) => {
                    banks.pps = Some(bank);
                },
                None => {
                    if has_pps {
                        return Err(CompanionLoadError::Missing);
                    }
                    match load_pps(files, name)? {
                        Some(bank) => {
                            banks.pps = Some(bank);
                        },
                        None => {
                            return Err(CompanionLoadError::Missing);
                        },
                    }
                },
            }
        },
    }
    match &names.ppz {
        None => {},
        Some(list) => {
            let planned = match ppz_lookup_names(list.as_str()) {
                Ok(None) => {
                    return Ok(banks);
                },
                Ok(Some(planned)) => planned,
                Err(error) => {
                    return Err(error);
                },
            };
            let ghost before = banks;
            let mut slot: usize = 0;
            while slot < planned.len()
                invariant
                    1 <= planned@.len() <= 2,
                    slot <= planned@.len(),
                    names.ppz matches Some(l) && !is_pmb(l@) && (ppz_list(l@) matches Some(pieces) && planned@.len() == pieces.len()),
                    banks.adpcm == before.adpcm,
                    banks.p86 == before.p86,
                    banks.pps == before.pps,
                    forall|k: int| 0 <= k < slot ==> banks.ppz@[k] is Some,
                    forall|k: int| slot <= k < 2 ==> banks.ppz@[k] is None,
                decreases planned@.len() - slot,
            {
                let bank = match load_ppz(files, planned[slot].as_str())? {
                    Some(bank) => bank,
                    None => {
                        return Err(CompanionLoadError::Missing);
                    },
                };
                banks.ppz[slot] = Some(bank);
                slot = slot + 1;
            }
        },
    }
    Ok(banks)
}


/// A companion file is found whatever the case it is stored under: the
/// names tried include the name as written, all upper case and all lower
/// case.
pub proof fn law_lookup_ignores_case(name: Seq<char>)
    ensures
        lookup_candidates(name).contains(name),
        lookup_candidates(name).contains(name.map_values(|c: char| ascii_upper(c))),
        lookup_candidates(name).contains(name.map_values(|c: char| ascii_lower(c))),
{
    let upper = name.map_values(|c: char| ascii_upper(c));
    let lower = name.map_values(|c: char| ascii_lower(c));
    let candidates = lookup_candidates(name);
    assert(candidates[0] == name);
    if upper != name {
        assert(candidates[1] == upper);
    }
    if lower != name {
        if upper != name {
            assert(candidates[2] == lower);
        } else {
            assert(candidates[1] == lower);
        }
    }
}

/// Upper-casing a name twice changes nothing more.
pub proof fn law_normalize_name_idempotent(name: Seq<char>)
    ensures
        name.map_values(|c: char| ascii_upper(c)).map_values(|c: char| ascii_upper(c)) == name.map_values(|c: char| ascii_upper(c)),
        name.map_values(|c: char| ascii_lower(c)).map_values(|c: char| ascii_lower(c)) == name.map_values(|c: char| ascii_lower(c)),
{
    assert forall|c: char| #[trigger] ascii_upper(ascii_upper(c)) == ascii_upper(c) by {
        if 'a' <= c <= 'z' {
            assert('A' <= ascii_upper(c) <= 'Z');
        }
    }
    assert forall|c: char| #[trigger] ascii_lower(ascii_lower(c)) == ascii_lower(c) by {
        if 'A' <= c <= 'Z' {
            assert('a' <= ascii_lower(c) <= 'z');
        }
    }
    assert(name.map_values(|c: char| ascii_upper(c)).map_values(|c: char| ascii_upper(c)) =~= name.map_values(|c: char| ascii_upper(c)));
    assert(name.map_values(|c: char| ascii_lower(c)).map_values(|c: char| ascii_lower(c)) =~= name.map_values(|c: char| ascii_lower(c)));
}

} // verus!
