pub mod commands;
pub mod channel;
pub mod timing;
pub mod banks;
pub mod effects;
pub mod stream;
pub mod registers;
use vstd::prelude::*;
use crate::player::{Error, Metadata};

verus! {

/// The largest main song file the driver's work area holds.
pub const MAX_MAIN_FILE_SIZE: usize = 65536;
pub const PART_COUNT: usize = 11;

/// The two header variants of a compiled PMD song.
#[derive(Clone, Copy, Debug, PartialEq, Eq, Structural)]
pub enum MainFormat {
    V18,
    V1a,
}

/// The offsets a song header gives for its parts, rhythm table and program area.
#[derive(Clone, Copy, Debug, PartialEq, Eq)]
pub struct MainLayout {
    pub part_offsets: [u16; 11],
    pub rhythm_table_offset: u16,
    pub program_area_offset: u16,
}

/// The sample bank files a song names.
#[derive(Clone, Debug, PartialEq, Eq)]
pub struct CompanionNames {
    pub pcm: Option<String>,
    pub pps: Option<String>,
    pub ppz: Option<String>,
}

impl Default for CompanionNames {
    fn default() -> (names: Self)
        ensures
            names.pcm is None,
            names.pps is None,
            names.ppz is None,
    {
        CompanionNames { pcm: None, pps: None, ppz: None }
    }
}

/// A song file that passed the loader's header checks.
#[derive(Clone, Debug, PartialEq, Eq)]
pub struct ParsedSong {
    pub main: Vec<u8>,
    pub flags: u8,
    pub format: MainFormat,
    pub layout: Option<MainLayout>,
    pub metadata: Metadata,
    pub companions: CompanionNames,
}

/// The text that the Shift_JIS decoder of `encoding_rs` produces from some
/// bytes (with its byte-order-mark handling and replacement of malformed
/// sequences).
pub uninterp spec fn shift_jis_decoded(bytes: Seq<u8>) -> Seq<char>;

/// Whether every byte is ASCII.
pub open spec fn all_ascii(bytes: Seq<u8>) -> bool {
    forall|i: int| 0 <= i < bytes.len() ==> #[trigger] bytes[i] < 0x80
}

/// Decodes Shift_JIS text with `encoding_rs::SHIFT_JIS.decode`. The crate
/// documents that ASCII-only input to an ASCII-compatible encoding comes
/// back unchanged; nothing else of the decoding is stated here.
#[verifier::external_body]
fn decode_shift_jis(bytes: &[u8]) -> (text: String)
    ensures
        text@ == shift_jis_decoded(bytes@),
        all_ascii(bytes@) ==> text@ == bytes@.map_values(|b: u8| b as char),
{
    let (decoded, _, _) = encoding_rs::SHIFT_JIS.decode(bytes);
    decoded.into_owned()
}

/// The little-endian 16-bit value at an offset.
pub open spec fn le16(bytes: Seq<u8>, offset: int) -> u16 {
    (bytes[offset] as int + bytes[offset + 1] as int * 256) as u16
}

/// The 16-bit value at an offset, if two bytes are there.
pub open spec fn u16_at(bytes: Seq<u8>, offset: int) -> Option<u16> {
    if 0 <= offset && offset + 2 <= bytes.len() { Some(le16(bytes, offset)) } else { None }
}

pub fn read_u16(bytes: &[u8], offset: usize) -> (value: Option<u16>)
    ensures
        value == u16_at(bytes@, offset as int),
{
    if offset < bytes.len() && bytes.len() - offset >= 2 {
        let low = bytes[offset] as u16;
        let high = bytes[offset + 1] as u16;
        Some(low + high * 256)
    } else {
        None
    }
}

/// Whether a layout holds the offsets of a song header (read past the
/// leading format byte).
pub open spec fn layout_of(mml: Seq<u8>, layout: MainLayout) -> bool {
    &&& forall|i: int| 0 <= i < 11 ==> #[trigger] layout.part_offsets@[i] == le16(mml, 2 * i)
    &&& layout.rhythm_table_offset == le16(mml, 0x16)
    &&& layout.program_area_offset == le16(mml, 0x18)
}

/// Reads the header offsets; a header shorter than 0x1a bytes has none.
pub fn parse_layout(mmlbuf: &[u8]) -> (layout: Option<MainLayout>)
    ensures
        match layout {
            Some(l) => mmlbuf@.len() >= 0x1a && layout_of(mmlbuf@, l),
            None => mmlbuf@.len() < 0x1a,
        },
{
    if mmlbuf.len() < 0x1a {
        return None;
    }
    let mut part_offsets = [0u16; 11];
    let mut index: usize = 0;
    while index < PART_COUNT
        invariant
            0 <= index <= 11,
            mmlbuf@.len() >= 0x1a,
            forall|i: int| 0 <= i < index ==> #[trigger] part_offsets@[i] == le16(mmlbuf@, 2 * i),
        decreases 11 - index,
    {
        let value = read_u16(mmlbuf, index * 2);
        match value {
            Some(v) => {
                part_offsets[index] = v;
            },
            None => {
                return None;
            },
        }
        index = index + 1;
    }
    let rhythm = read_u16(mmlbuf, 0x16);
    let program = read_u16(mmlbuf, 0x18);
    match (rhythm, program) {
        (Some(rhythm_table_offset), Some(program_area_offset)) => Some(
            MainLayout { part_offsets, rhythm_table_offset, program_area_offset },
        ),
        _ => None,
    }
}

/// The end of the NUL-terminated text starting at `i` (the buffer's end if
/// there is no NUL).
pub open spec fn nul_end(s: Seq<u8>, i: int) -> int
    decreases s.len() - i,
{
    if i >= s.len() {
        s.len() as int
    } else if s[i] == 0 {
        i
    } else {
        nul_end(s, i + 1)
    }
}

/// The memo table entry a selector picks, after the marker's extra slots.
pub open spec fn memo_selected(marker: u8, selector: int) -> int {
    selector + (if marker >= 0x42 { 1int } else { 0int }) + (if marker >= 0x48 { 1int } else { 0int })
}

/// Whether memo entry `index` of the table points at text inside the
/// buffer that does not start with `/`.
pub open spec fn memo_entry_ok(mml: Seq<u8>, table: int, index: int) -> bool {
    let offset = le16(mml, table + 2 * index) as int;
    offset != 0 && offset < mml.len() && mml[offset] != 0x2f
}

/// The bytes of a memo string (file names and display texts stored after
/// the program area), if the header, marker and table allow it.
pub open spec fn memo_bytes_spec(mml: Seq<u8>, program_area_offset: u16, selector: int) -> Option<Seq<u8>> {
    let pre = program_area_offset - 4;
    if mml.len() < 0x19 || mml[0] != 0x1a || mml[1] != 0 || program_area_offset < 4 || program_area_offset > mml.len() {
        None
    } else if !(mml[pre + 2] == 0x40 || (mml[pre + 3] == 0xfe && mml[pre + 2] >= 0x41)) {
        None
    } else {
        let selected = memo_selected(mml[pre + 2], selector);
        let table = le16(mml, pre) as int;
        if selected < 0 || table + 2 * selected + 2 > mml.len() {
            None
        } else if exists|i: int| 0 <= i <= selected && !#[trigger] memo_entry_ok(mml, table, i) {
            None
        } else {
            let offset = le16(mml, table + 2 * selected) as int;
            Some(mml.subrange(offset, nul_end(mml, offset)))
        }
    }
}

fn text_end(bytes: &[u8], start: usize) -> (end: usize)
    requires
        start <= bytes@.len(),
    ensures
        end == nul_end(bytes@, start as int),
{
    let mut i = start;
    while i < bytes.len() && bytes[i] != 0
        invariant
            start <= i <= bytes@.len(),
            nul_end(bytes@, i as int) == nul_end(bytes@, start as int),
        decreases bytes@.len() - i,
    {
        i = i + 1;
    }
    i
}

pub fn memo_bytes(mmlbuf: &[u8], program_area_offset: u16, selector: i32) -> (memo: Option<&[u8]>)
    requires
        -4 <= selector <= 8,
    ensures
        match memo_bytes_spec(mmlbuf@, program_area_offset, selector as int) {
            Some(m) => memo matches Some(b) && b@ == m,
            None => memo is None,
        },
{
    if mmlbuf.len() < 0x19 || mmlbuf[0] != 0x1a || mmlbuf[1] != 0 {
        return None;
    }
    let offset = program_area_offset as usize;
    if offset < 4 || offset > mmlbuf.len() {
        return None;
    }
    let preamble = offset - 4;
    let marker = mmlbuf[preamble + 2];
    assert(marker == mmlbuf@[(program_area_offset - 4) + 2]);
    if marker != 0x40 && (mmlbuf[preamble + 3] != 0xfe || marker < 0x41) {
        return None;
    }
    let mut selected = selector;
    if marker >= 0x42 {
        selected = selected + 1;
    }
    if marker >= 0x48 {
        selected = selected + 1;
    }
    if selected < 0 {
        return None;
    }
    let table = match read_u16(mmlbuf, preamble) {
        Some(t) => t as usize,
        None => {
            return None;
        },
    };
    let selected = selected as usize;
    if table + selected * 2 + 2 > mmlbuf.len() {
        return None;
    }
    assert(selected == memo_selected(marker, selector as int));
    if !memo_entries_valid(mmlbuf, table, selected) {
        return None;
    }
    if !memo_entry_valid(mmlbuf, table, selected) {
        return None;
    }
    let data_offset = match read_u16(mmlbuf, table + selected * 2) {
        Some(d) => d as usize,
        None => {
            return None;
        },
    };
    let end = text_end(mmlbuf, data_offset);
    proof {
        assert forall|i: int| 0 <= i <= selected implies #[trigger] memo_entry_ok(mmlbuf@, table as int, i) by {}
        lemma_nul_end_bounds(mmlbuf@, data_offset as int);
    }
    Some(&mmlbuf[data_offset..end])
}

fn memo_entries_valid(mmlbuf: &[u8], table: usize, count: usize) -> (ok: bool)
    requires
        count <= 10,
        table + count * 2 + 2 <= mmlbuf@.len(),
    ensures
        ok == forall|i: int| 0 <= i < count ==> #[trigger] memo_entry_ok(mmlbuf@, table as int, i),
{
    let mut index: usize = 0;
    while index < count
        invariant
            0 <= index <= count <= 10,
            table + count * 2 + 2 <= mmlbuf@.len(),
            forall|i: int| 0 <= i < index ==> #[trigger] memo_entry_ok(mmlbuf@, table as int, i),
        decreases count - index,
    {
        if !memo_entry_valid(mmlbuf, table, index) {
            return false;
        }
        index = index + 1;
    }
    true
}

fn memo_entry_valid(mmlbuf: &[u8], table: usize, index: usize) -> (ok: bool)
    requires
        index <= 10,
        table + index * 2 + 2 <= mmlbuf@.len(),
    ensures
        ok == memo_entry_ok(mmlbuf@, table as int, index as int),
{
    let _length = mmlbuf.len();
    let data_offset = match read_u16(mmlbuf, table + index * 2) {
        Some(d) => d as usize,
        None => {
            return false;
        },
    };
    data_offset != 0 && data_offset < mmlbuf.len() && mmlbuf[data_offset] != 0x2f
}

proof fn lemma_nul_end_bounds(s: Seq<u8>, i: int)
    requires
        0 <= i <= s.len(),
    ensures
        i <= nul_end(s, i) <= s.len(),
    decreases s.len() - i,
{
    if i < s.len() && s[i] != 0 {
        lemma_nul_end_bounds(s, i + 1);
    }
}

/// A memo string as the loader stores it: display texts get the half-width
/// and escape-sequence cleanup, and empty texts count as absent.
pub open spec fn memo_string_spec(mml: Seq<u8>, program_area_offset: Option<u16>, selector: int, display_cleanup: bool) -> Option<Seq<char>> {
    match program_area_offset {
        None => None,
        Some(pao) => match memo_bytes_spec(mml, pao, selector) {
            None => None,
            Some(bytes) => {
                let normalized = if display_cleanup { delesc_spec(zen2tohan_spec(bytes)) } else { bytes };
                if normalized.len() == 0 { None } else { Some(shift_jis_decoded(normalized)) }
            },
        },
    }
}

/// The text of an optional string.
pub open spec fn opt_text(s: Option<String>) -> Option<Seq<char>> {
    match s {
        Some(t) => Some(t@),
        None => None,
    }
}

fn bytes_to_vec(bytes: &[u8]) -> (copy: Vec<u8>)
    ensures
        copy@ == bytes@,
{
    let mut copy: Vec<u8> = Vec::new();
    let mut i: usize = 0;
    while i < bytes.len()
        invariant
            i <= bytes@.len(),
            copy@ == bytes@.subrange(0, i as int),
        decreases bytes@.len() - i,
    {
        copy.push(bytes[i]);
        i = i + 1;
        proof { assert(copy@ =~= bytes@.subrange(0, i as int)); }
    }
    proof { assert(bytes@.subrange(0, bytes@.len() as int) =~= bytes@); }
    copy
}

pub fn memo_string(mmlbuf: &[u8], program_area_offset: Option<u16>, selector: i32, display_cleanup: bool) -> (text: Option<String>)
    requires
        -4 <= selector <= 8,
        mmlbuf@.len() < usize::MAX,
    ensures
        opt_text(text) == memo_string_spec(mmlbuf@, program_area_offset, selector as int, display_cleanup),
{
    let pao = match program_area_offset {
        Some(p) => p,
        None => {
            return None;
        },
    };
    let bytes = match memo_bytes(mmlbuf, pao, selector) {
        Some(b) => b,
        None => {
            return None;
        },
    };
    let normalized = if display_cleanup {
        let halfwidth = zen2tohan(bytes);
        proof {
            lemma_zen2tohan_len(bytes@, 0);
            lemma_memo_len(mmlbuf@, pao, selector as int);
        }
        delesc(halfwidth.as_slice())
    } else {
        bytes_to_vec(bytes)
    };
    if normalized.len() == 0 {
        return None;
    }
    Some(decode_shift_jis(normalized.as_slice()))
}

/// Whether a byte starts a two-byte Shift_JIS character.
pub open spec fn sjis_lead(byte: u8) -> bool {
    (0x81 <= byte <= 0x9f) || (0xe0 <= byte <= 0xfc)
}

pub fn is_sjis_lead(byte: u8) -> (lead: bool)
    ensures
        lead == sjis_lead(byte),
{
    (0x81 <= byte && byte <= 0x9f) || (0xe0 <= byte && byte <= 0xfc)
}

/// The half-width bytes that stand for the full-width character `0x85 second`
/// (for `second` in 0x40..=0xfc).
pub open spec fn halfwidth_of(second: u8) -> Seq<u8> {
    if second <= 0x7e {
        seq![(second - 0x1f) as u8]
    } else if second == 0x7f {
        seq![]
    } else if second <= 0x9d {
        seq![(second - 0x20) as u8]
    } else if second == 0x9e {
        seq![0x85u8, 0x9e]
    } else if second <= 0xdd {
        seq![(second - 0x9f + 0xa1) as u8]
    } else if second <= 0xdf {
        seq![0x85u8, second]
    } else if second == 0xe0 {
        seq![0xdcu8]
    } else if second == 0xe1 {
        seq![0xb6u8]
    } else if second == 0xe2 {
        seq![0xb9u8]
    } else if second == 0xe3 {
        seq![0xb3u8, 0xde]
    } else if second <= 0xf2 {
        seq![(second - 0xe4 + 0xb6) as u8, 0xde]
    } else {
        let pair = (second - 0xf3) as int;
        seq![(0xca + pair / 2) as u8, if pair % 2 == 1 { 0xdfu8 } else { 0xdeu8 }]
    }
}

/// How `zen2tohan` rewrites the text from `i` on: the full-width forms
/// `0x85 0x40..=0xfc` become half-width, other two-byte characters are kept
/// whole.
pub open spec fn zen2tohan_from(s: Seq<u8>, i: int) -> Seq<u8>
    decreases s.len() - i,
{
    if i < 0 || i >= s.len() {
        Seq::empty()
    } else if s[i] == 0x85 && i + 1 < s.len() && 0x40 <= s[i + 1] <= 0xfc {
        halfwidth_of(s[i + 1]) + zen2tohan_from(s, i + 2)
    } else if sjis_lead(s[i]) && i + 1 < s.len() {
        seq![s[i], s[i + 1]] + zen2tohan_from(s, i + 2)
    } else {
        seq![s[i]] + zen2tohan_from(s, i + 1)
    }
}

pub open spec fn zen2tohan_spec(s: Seq<u8>) -> Seq<u8> {
    zen2tohan_from(s, 0)
}

proof fn lemma_zen2tohan_len(s: Seq<u8>, i: int)
    requires
        0 <= i <= s.len(),
    ensures
        zen2tohan_from(s, i).len() <= s.len() - i,
    decreases s.len() - i,
{
    if i < s.len() {
        if s[i] == 0x85 && i + 1 < s.len() && 0x40 <= s[i + 1] <= 0xfc {
            lemma_zen2tohan_len(s, i + 2);
        } else if sjis_lead(s[i]) && i + 1 < s.len() {
            lemma_zen2tohan_len(s, i + 2);
        } else {
            lemma_zen2tohan_len(s, i + 1);
        }
    }
}

proof fn lemma_memo_len(mml: Seq<u8>, pao: u16, selector: int)
    ensures
        memo_bytes_spec(mml, pao, selector) matches Some(b) ==> b.len() <= mml.len(),
{
    if let Some(b) = memo_bytes_spec(mml, pao, selector) {
        let table = le16(mml, pao - 4) as int;
        let offset = le16(mml, table + 2 * memo_selected(mml[pao - 4 + 2], selector)) as int;
        assert(memo_entry_ok(mml, table, memo_selected(mml[pao - 4 + 2], selector)));
        lemma_nul_end_bounds(mml, offset);
    }
}

fn push_halfwidth(output: &mut Vec<u8>, second: u8)
    requires
        0x40 <= second <= 0xfc,
    ensures
        final(output)@ == old(output)@ + halfwidth_of(second),
{
    let ghost start = output@;
    if second <= 0x7e {
        output.push(second - 0x1f);
    } else if second == 0x7f {
    } else if second <= 0x9d {
        output.push(second - 0x20);
    } else if second == 0x9e {
        output.push(0x85);
        output.push(0x9e);
    } else if second <= 0xdd {
        output.push(second - 0x9f + 0xa1);
    } else if second <= 0xdf {
        output.push(0x85);
        output.push(second);
    } else if second == 0xe0 {
        output.push(0xdc);
    } else if second == 0xe1 {
        output.push(0xb6);
    } else if second == 0xe2 {
        output.push(0xb9);
    } else if second == 0xe3 {
        output.push(0xb3);
        output.push(0xde);
    } else if second <= 0xf2 {
        output.push(second - 0xe4 + 0xb6);
        output.push(0xde);
    } else {
        let pair = second - 0xf3;
        output.push(0xca + pair / 2);
        output.push(if pair % 2 == 1 { 0xdf } else { 0xde });
    }
    assert(output@ =~= start + halfwidth_of(second));
}

/// Converts the full-width alphanumerics and kana of NEC's 0x85 row to
/// their half-width forms, as the driver does for display texts.
pub fn zen2tohan(bytes: &[u8]) -> (output: Vec<u8>)
    ensures
        output@ == zen2tohan_spec(bytes@),
{
    let mut output: Vec<u8> = Vec::new();
    let mut index: usize = 0;
    while index < bytes.len()
        invariant
            index <= bytes@.len() + 1,
            output@ + zen2tohan_from(bytes@, index as int) == zen2tohan_spec(bytes@),
        decreases bytes@.len() + 1 - index,
    {
        let ghost before = output@;
        let byte = bytes[index];
        if byte == 0x85 && index + 1 < bytes.len() && 0x40 <= bytes[index + 1] && bytes[index + 1] <= 0xfc {
            push_halfwidth(&mut output, bytes[index + 1]);
            proof {
                assert(before + zen2tohan_from(bytes@, index as int)
                    =~= output@ + zen2tohan_from(bytes@, index + 2));
            }
            index = index + 2;
        } else {
            output.push(byte);
            if is_sjis_lead(byte) && index + 1 < bytes.len() {
                output.push(bytes[index + 1]);
                proof {
                    assert(before + zen2tohan_from(bytes@, index as int)
                        =~= output@ + zen2tohan_from(bytes@, index + 2));
                }
                index = index + 2;
            } else {
                proof {
                    assert(before + zen2tohan_from(bytes@, index as int)
                        =~= output@ + zen2tohan_from(bytes@, index + 1));
                }
                index = index + 1;
            }
        }
    }
    proof {
        assert(zen2tohan_from(bytes@, index as int) =~= Seq::<u8>::empty());
        assert(output@ =~= output@ + zen2tohan_from(bytes@, index as int));
    }
    output
}

/// Whether a byte is an ASCII letter.
pub open spec fn ascii_letter(byte: u8) -> bool {
    (0x41 <= byte <= 0x5a) || (0x61 <= byte <= 0x7a)
}

/// Where a `ESC [` control sequence whose parameters start at `i` ends:
/// just past its final letter, skipping two-byte characters whole.
pub open spec fn csi_end(s: Seq<u8>, i: int) -> int
    decreases s.len() + 1 - i,
{
    if i >= s.len() {
        i
    } else if ascii_letter(s[i]) {
        i + 1
    } else if sjis_lead(s[i]) {
        csi_end(s, i + 2)
    } else {
        csi_end(s, i + 1)
    }
}

/// Where an escape sequence starting at `i` (an ESC byte) ends.
pub open spec fn escape_end(s: Seq<u8>, i: int) -> int {
    let len = s.len() as int;
    if i + 1 < len && s[i + 1] == 0x5b {
        csi_end(s, i + 2)
    } else if i + 1 < len && s[i + 1] == 0x3d {
        if i + 4 < len { i + 4 } else { len }
    } else if i + 1 < len && (s[i + 1] == 0x29 || s[i + 1] == 0x21) {
        if i + 3 < len { i + 3 } else { len }
    } else {
        if i + 2 < len { i + 2 } else { len }
    }
}

/// The text from `i` on with terminal escape sequences removed.
pub open spec fn delesc_from(s: Seq<u8>, i: int) -> Seq<u8>
    decreases s.len() + 1 - i,
{
    if i < 0 || i >= s.len() {
        Seq::empty()
    } else if s[i] != 0x1b {
        seq![s[i]] + delesc_from(s, i + 1)
    } else if i < escape_end(s, i) <= s.len() + 1 {
        delesc_from(s, escape_end(s, i))
    } else {
        Seq::empty()
    }
}

pub open spec fn delesc_spec(s: Seq<u8>) -> Seq<u8> {
    delesc_from(s, 0)
}

proof fn lemma_csi_end_after(s: Seq<u8>, i: int)
    requires
        0 <= i <= s.len() + 1,
    ensures
        i <= csi_end(s, i) <= s.len() + 1,
    decreases s.len() + 1 - i,
{
    if i < s.len() && !ascii_letter(s[i]) {
        if sjis_lead(s[i]) {
            lemma_csi_end_after(s, i + 2);
        } else {
            lemma_csi_end_after(s, i + 1);
        }
    }
}

/// Removes the terminal escape sequences a display text may carry.
pub fn delesc(bytes: &[u8]) -> (output: Vec<u8>)
    requires
        bytes@.len() < usize::MAX,
    ensures
        output@ == delesc_spec(bytes@),
{
    let mut output: Vec<u8> = Vec::new();
    let mut index: usize = 0;
    let len = bytes.len();
    while index < len
        invariant
            len == bytes@.len(),
            len < usize::MAX,
            index <= len + 1,
            output@ + delesc_from(bytes@, index as int) == delesc_spec(bytes@),
        decreases len + 1 - index,
    {
        let ghost before = output@;
        if bytes[index] != 0x1b {
            output.push(bytes[index]);
            proof {
                assert(before + delesc_from(bytes@, index as int) =~= output@ + delesc_from(bytes@, index + 1));
            }
            index = index + 1;
        } else {
            let ghost start = index as int;
            if index + 1 < len && bytes[index + 1] == 0x5b {
                index = index + 2;
                while index < len && !((0x41 <= bytes[index] && bytes[index] <= 0x5a) || (0x61 <= bytes[index] && bytes[index] <= 0x7a))
                    invariant
                        len == bytes@.len(),
                        start + 2 <= index <= len + 1,
                        csi_end(bytes@, index as int) == csi_end(bytes@, start + 2),
                        len < usize::MAX,
                    decreases len + 1 - index,
                {
                    if is_sjis_lead(bytes[index]) {
                        index = index + 2;
                    } else {
                        index = index + 1;
                    }
                    proof { lemma_csi_end_after(bytes@, index as int); }
                }
                if index < len {
                    index = index + 1;
                }
            } else if index + 1 < len && bytes[index + 1] == 0x3d {
                index = if len - index > 4 { index + 4 } else { len };
            } else if index + 1 < len && (bytes[index + 1] == 0x29 || bytes[index + 1] == 0x21) {
                index = if len - index > 3 { index + 3 } else { len };
            } else {
                index = if len - index > 2 { index + 2 } else { len };
            }
            proof {
                if start + 1 < len && bytes@[start + 1] == 0x5b {
                    lemma_csi_end_after(bytes@, start + 2);
                }
                assert(index == escape_end(bytes@, start));
                assert(before + delesc_from(bytes@, start) =~= output@ + delesc_from(bytes@, index as int));
            }
        }
    }
    proof {
        assert(output@ =~= output@ + delesc_from(bytes@, index as int));
    }
    output
}

/// The header checks the loader makes, in order.
pub open spec fn parse_song_error(main: Seq<u8>) -> Option<Error> {
    if main.len() > MAX_MAIN_FILE_SIZE {
        Some(Error::FileTooLarge)
    } else if main.len() < 3 {
        Some(Error::TruncatedFile)
    } else if (main[0] > 0x0f && main[0] != 0xff) || (main[1] != 0x18 && main[1] != 0x1a) || main[2] != 0 {
        Some(Error::InvalidHeader)
    } else {
        None
    }
}

/// Checks a main song file's header and reads its layout, display texts and
/// companion bank names (the texts only exist in the 0x1a variant).
pub fn parse_song(main: &[u8]) -> (result: Result<ParsedSong, Error>)
    ensures
        match parse_song_error(main@) {
            Some(e) => result == Err::<ParsedSong, Error>(e),
            None => result matches Ok(song) && {
                let mml = main@.subrange(1, main@.len() as int);
                let v1a = main@[1] == 0x1a;
                let pao = u16_at(mml, 0x18);
                &&& song.main@ == main@
                &&& song.flags == main@[0]
                &&& song.format == (if v1a { MainFormat::V1a } else { MainFormat::V18 })
                &&& match song.layout {
                    Some(l) => mml.len() >= 0x1a && layout_of(mml, l),
                    None => mml.len() < 0x1a,
                }
                &&& opt_text(song.metadata.title) == (if v1a { memo_string_spec(mml, pao, 1, true) } else { None })
                &&& opt_text(song.metadata.composer) == (if v1a { memo_string_spec(mml, pao, 2, true) } else { None })
                &&& opt_text(song.metadata.arranger) == (if v1a { memo_string_spec(mml, pao, 3, true) } else { None })
                &&& opt_text(song.metadata.comment) == (if v1a { memo_string_spec(mml, pao, 4, true) } else { None })
                &&& opt_text(song.companions.pcm) == (if v1a { memo_string_spec(mml, pao, 0, false) } else { None })
                &&& opt_text(song.companions.pps) == (if v1a { memo_string_spec(mml, pao, -1, false) } else { None })
                &&& opt_text(song.companions.ppz) == (if v1a { memo_string_spec(mml, pao, -2, false) } else { None })
            },
        },
{
    if main.len() > MAX_MAIN_FILE_SIZE {
        return Err(Error::FileTooLarge);
    }
    if main.len() < 3 {
        return Err(Error::TruncatedFile);
    }
    let flags = main[0];
    if (flags > 0x0f && flags != 0xff) || (main[1] != 0x18 && main[1] != 0x1a) || main[2] != 0 {
        return Err(Error::InvalidHeader);
    }
    let v1a = main[1] == 0x1a;
    let format = if v1a { MainFormat::V1a } else { MainFormat::V18 };
    let mmlbuf = &main[1..main.len()];
    let layout = parse_layout(mmlbuf);
    let (metadata, companions) = if v1a {
        let pao = read_u16(mmlbuf, 0x18);
        (
            Metadata {
                title: memo_string(mmlbuf, pao, 1, true),
                composer: memo_string(mmlbuf, pao, 2, true),
                arranger: memo_string(mmlbuf, pao, 3, true),
                comment: memo_string(mmlbuf, pao, 4, true),
            },
            CompanionNames {
                pcm: memo_string(mmlbuf, pao, 0, false),
                pps: memo_string(mmlbuf, pao, -1, false),
                ppz: memo_string(mmlbuf, pao, -2, false),
            },
        )
    } else {
        (
            Metadata { title: None, composer: None, arranger: None, comment: None },
            CompanionNames { pcm: None, pps: None, ppz: None },
        )
    };
    Ok(ParsedSong { main: bytes_to_vec(main), flags, format, layout, metadata, companions })
}


proof fn lemma_delesc_plain_from(s: Seq<u8>, i: int)
    requires
        0 <= i <= s.len(),
        forall|k: int| 0 <= k < s.len() ==> s[k] != 0x1b,
    ensures
        delesc_from(s, i) == s.subrange(i, s.len() as int),
    decreases s.len() - i,
{
    if i < s.len() {
        lemma_delesc_plain_from(s, i + 1);
        assert(s.subrange(i, s.len() as int) =~= seq![s[i]] + s.subrange(i + 1, s.len() as int));
    } else {
        assert(s.subrange(i, s.len() as int) =~= Seq::<u8>::empty());
    }
}

/// Text without escape bytes comes out of escape removal unchanged.
pub proof fn law_delesc_keeps_plain_text(s: Seq<u8>)
    requires
        forall|k: int| 0 <= k < s.len() ==> s[k] != 0x1b,
    ensures
        delesc_spec(s) == s,
{
    lemma_delesc_plain_from(s, 0);
    assert(s.subrange(0, s.len() as int) =~= s);
}

proof fn lemma_delesc_length_from(s: Seq<u8>, i: int)
    requires
        0 <= i,
    ensures
        delesc_from(s, i).len() <= if i < s.len() { s.len() - i } else { 0 },
    decreases s.len() + 1 - i,
{
    if i < s.len() {
        if s[i] != 0x1b {
            lemma_delesc_length_from(s, i + 1);
        } else if i < escape_end(s, i) <= s.len() + 1 {
            lemma_delesc_length_from(s, escape_end(s, i));
        }
    }
}

/// Escape removal never lengthens a text.
pub proof fn law_delesc_never_lengthens(s: Seq<u8>)
    ensures
        delesc_spec(s).len() <= s.len(),
{
    lemma_delesc_length_from(s, 0);
}

proof fn lemma_zen2tohan_ascii_from(s: Seq<u8>, i: int)
    requires
        0 <= i <= s.len(),
        forall|k: int| 0 <= k < s.len() ==> s[k] < 0x80,
    ensures
        zen2tohan_from(s, i) == s.subrange(i, s.len() as int),
    decreases s.len() - i,
{
    if i < s.len() {
        lemma_zen2tohan_ascii_from(s, i + 1);
        assert(s.subrange(i, s.len() as int) =~= seq![s[i]] + s.subrange(i + 1, s.len() as int));
    } else {
        assert(s.subrange(i, s.len() as int) =~= Seq::<u8>::empty());
    }
}

/// Plain ASCII text comes out of the full-width conversion unchanged.
pub proof fn law_zen2tohan_keeps_ascii(s: Seq<u8>)
    requires
        forall|k: int| 0 <= k < s.len() ==> s[k] < 0x80,
    ensures
        zen2tohan_spec(s) == s,
{
    lemma_zen2tohan_ascii_from(s, 0);
    assert(s.subrange(0, s.len() as int) =~= s);
}

} // verus!
