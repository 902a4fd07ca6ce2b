use vstd::prelude::*;
use crate::jis::{
    codepoint_of, euc_jp_bytes, euc_jp_decoded, jis0201_codepoint, jis0201_spec, jis0208_code, jis0208_codepoint,
    CodepointError,
};
use crate::opna::trace::{
    is_utf8, leading_ws, leading_ws_len, lemma_split_nonempty, lemma_trim_start_step, parse_radix,
    parse_radix_range, split_on, split_ranges, trim, trim_range, trim_start,
};

verus! {

// ----- Reading BDF bitmap fonts -----

/// A 16-row glyph of a BDF font, under its `ENCODING`; each row holds the
/// pixels left to right from the top bit.
#[derive(Clone, Copy, Debug, PartialEq, Eq)]
pub struct BdfGlyph {
    pub encoding: u32,
    pub rows: [u16; 16],
}

/// The number field of a BDF line that did not parse.
#[derive(Clone, Copy, Debug, PartialEq, Eq, Structural)]
pub enum BdfField {
    Encoding,
    BbxWidth,
    BbxHeight,
}

/// Why a BDF font could not be read.
#[derive(Clone, Debug, PartialEq, Eq)]
pub enum BdfError {
    /// The file is not UTF-8 text.
    NotText,
    /// A `STARTCHAR` inside a glyph.
    NestedStartChar,
    /// An `ENCODING` or `BBX` number that is not an unsigned 32-bit decimal.
    InvalidNumber { field: BdfField, value: Vec<u8> },
    /// A `BBX` line with fewer than two numbers.
    IncompleteBbx,
    /// An `ENDCHAR` of a glyph without `ENCODING`.
    MissingEncoding,
    /// A glyph whose width is neither 8 nor 16.
    UnsupportedWidth { encoding: u32, width: Option<u32> },
    /// A glyph whose height or bitmap is not 16 rows.
    NotSixteenRows { encoding: u32 },
    /// A bitmap row that is not a 32-bit hexadecimal number.
    InvalidBitmapRow { row: Vec<u8> },
    /// Bitmap rows before a usable `BBX`.
    BitmapBeforeBbx,
    /// The file ends inside a glyph.
    EndsInsideGlyph,
}

/// `BdfError` with its texts as sequences.
pub ghost enum BdfFault {
    NotText,
    NestedStartChar,
    InvalidNumber(BdfField, Seq<u8>),
    IncompleteBbx,
    MissingEncoding,
    UnsupportedWidth(u32, Option<u32>),
    NotSixteenRows(u32),
    InvalidBitmapRow(Seq<u8>),
    BitmapBeforeBbx,
    EndsInsideGlyph,
}

impl BdfError {
    pub open spec fn fault(&self) -> BdfFault {
        match self {
            BdfError::NotText => BdfFault::NotText,
            BdfError::NestedStartChar => BdfFault::NestedStartChar,
            BdfError::InvalidNumber { field, value } => BdfFault::InvalidNumber(*field, value@),
            BdfError::IncompleteBbx => BdfFault::IncompleteBbx,
            BdfError::MissingEncoding => BdfFault::MissingEncoding,
            BdfError::UnsupportedWidth { encoding, width } => BdfFault::UnsupportedWidth(*encoding, *width),
            BdfError::NotSixteenRows { encoding } => BdfFault::NotSixteenRows(*encoding),
            BdfError::InvalidBitmapRow { row } => BdfFault::InvalidBitmapRow(row@),
            BdfError::BitmapBeforeBbx => BdfFault::BitmapBeforeBbx,
            BdfError::EndsInsideGlyph => BdfFault::EndsInsideGlyph,
        }
    }
}

/// A glyph as its encoding and rows.
pub open spec fn glyph_view(g: BdfGlyph) -> (u32, Seq<u16>) {
    (g.encoding, g.rows@)
}

/// What the reader knows after some lines.
pub ghost struct BdfState {
    pub in_glyph: bool,
    pub encoding: Option<u32>,
    pub width: Option<u32>,
    pub height: Option<u32>,
    pub bitmap: bool,
    pub rows: Seq<u16>,
    pub glyphs: Seq<(u32, Seq<u16>)>,
}

pub open spec fn bdf_start() -> BdfState {
    BdfState {
        in_glyph: false,
        encoding: None,
        width: None,
        height: None,
        bitmap: false,
        rows: Seq::empty(),
        glyphs: Seq::empty(),
    }
}

/// `STARTCHAR`
pub open spec fn word_startchar() -> Seq<u8> {
    seq![0x53u8, 0x54u8, 0x41u8, 0x52u8, 0x54u8, 0x43u8, 0x48u8, 0x41u8, 0x52u8]
}

/// `ENCODING ` (with the space)
pub open spec fn word_encoding() -> Seq<u8> {
    seq![0x45u8, 0x4eu8, 0x43u8, 0x4fu8, 0x44u8, 0x49u8, 0x4eu8, 0x47u8, 0x20u8]
}

/// `BBX ` (with the space)
pub open spec fn word_bbx() -> Seq<u8> {
    seq![0x42u8, 0x42u8, 0x58u8, 0x20u8]
}

/// `BITMAP`
pub open spec fn word_bitmap() -> Seq<u8> {
    seq![0x42u8, 0x49u8, 0x54u8, 0x4du8, 0x41u8, 0x50u8]
}

/// `ENDCHAR`
pub open spec fn word_endchar() -> Seq<u8> {
    seq![0x45u8, 0x4eu8, 0x44u8, 0x43u8, 0x48u8, 0x41u8, 0x52u8]
}

pub open spec fn has_prefix(s: Seq<u8>, p: Seq<u8>) -> bool {
    p.len() <= s.len() && s.subrange(0, p.len() as int) == p
}

/// An unsigned 32-bit number in a radix with an optional leading `+`, as
/// `str::parse::<u32>` (radix 10) and `u32::from_str_radix` read it.
pub open spec fn parse_u32_spec(s: Seq<u8>, radix: u32) -> Option<u32> {
    match parse_radix(s, radix) {
        Some(v) => if v <= u32::MAX { Some(v as u32) } else { None },
        None => None,
    }
}

/// The length of the run of non-whitespace bytes at the start of `s`.
pub open spec fn token_len(s: Seq<u8>) -> int
    decreases s.len(),
{
    if s.len() == 0 || leading_ws_len(s) > 0 {
        0
    } else {
        1 + token_len(s.drop_first())
    }
}

/// The first whitespace-separated word of `s` and what follows it.
pub open spec fn first_word(s: Seq<u8>) -> Option<(Seq<u8>, Seq<u8>)> {
    let r = trim_start(s);
    if r.len() == 0 {
        None
    } else {
        Some((r.subrange(0, token_len(r)), r.subrange(token_len(r), r.len() as int)))
    }
}

/// A `BBX` line: the first two words are the width and the height.
pub open spec fn bbx_step(st: BdfState, value: Seq<u8>) -> Result<BdfState, BdfFault> {
    match first_word(value) {
        None => Err(BdfFault::IncompleteBbx),
        Some((w, rest)) => match parse_u32_spec(w, 10) {
            None => Err(BdfFault::InvalidNumber(BdfField::BbxWidth, w)),
            Some(width) => match first_word(rest) {
                None => Err(BdfFault::IncompleteBbx),
                Some((h, _)) => match parse_u32_spec(h, 10) {
                    None => Err(BdfFault::InvalidNumber(BdfField::BbxHeight, h)),
                    Some(height) => Ok(BdfState { width: Some(width), height: Some(height), ..st }),
                },
            },
        },
    }
}

/// `ENDCHAR`: the glyph must have an encoding, a width of 8 or 16 and 16 rows.
pub open spec fn endchar_step(st: BdfState) -> Result<BdfState, BdfFault> {
    match st.encoding {
        None => Err(BdfFault::MissingEncoding),
        Some(encoding) => if st.width != Some(8u32) && st.width != Some(16u32) {
            Err(BdfFault::UnsupportedWidth(encoding, st.width))
        } else if st.height != Some(16u32) || st.rows.len() != 16 {
            Err(BdfFault::NotSixteenRows(encoding))
        } else {
            Ok(BdfState { in_glyph: false, bitmap: false, glyphs: st.glyphs.push((encoding, st.rows)), ..st })
        },
    }
}

/// A bitmap row: hexadecimal, left-aligned in 16 bits for 8-pixel glyphs.
pub open spec fn row_step(st: BdfState, line: Seq<u8>) -> Result<BdfState, BdfFault> {
    match parse_u32_spec(line, 16) {
        None => Err(BdfFault::InvalidBitmapRow(line)),
        Some(value) => if st.width == Some(8u32) {
            Ok(BdfState { rows: st.rows.push(((value % 256) * 256) as u16), ..st })
        } else if st.width == Some(16u32) {
            Ok(BdfState { rows: st.rows.push((value % 65536) as u16), ..st })
        } else {
            Err(BdfFault::BitmapBeforeBbx)
        },
    }
}

/// One trimmed line of a BDF font. Outside a glyph only `STARTCHAR`
/// matters; inside one, `ENCODING`, `BBX`, `BITMAP` and `ENDCHAR`, and
/// after `BITMAP` every other line is a row.
pub open spec fn bdf_step(st: BdfState, line: Seq<u8>) -> Result<BdfState, BdfFault> {
    if line == word_startchar() || has_prefix(line, word_startchar().push(0x20u8)) {
        if st.in_glyph {
            Err(BdfFault::NestedStartChar)
        } else {
            Ok(BdfState { in_glyph: true, encoding: None, width: None, height: None, bitmap: false, rows: Seq::empty(), ..st })
        }
    } else if !st.in_glyph {
        Ok(st)
    } else if has_prefix(line, word_encoding()) {
        let value = line.subrange(9, line.len() as int);
        match parse_u32_spec(value, 10) {
            Some(encoding) => Ok(BdfState { encoding: Some(encoding), ..st }),
            None => Err(BdfFault::InvalidNumber(BdfField::Encoding, value)),
        }
    } else if has_prefix(line, word_bbx()) {
        bbx_step(st, line.subrange(4, line.len() as int))
    } else if line == word_bitmap() {
        Ok(BdfState { bitmap: true, ..st })
    } else if line == word_endchar() {
        endchar_step(st)
    } else if st.bitmap {
        row_step(st, line)
    } else {
        Ok(st)
    }
}

/// The lines of a text as `str::lines` gives them: split at `\n`, without
/// an empty piece after a final `\n` (a `\r` before it goes with the trim).
pub open spec fn bdf_lines(text: Seq<u8>) -> Seq<Seq<u8>> {
    let pieces = split_on(text, 0x0a);
    if pieces.last().len() == 0 { pieces.drop_last() } else { pieces }
}

/// The reader after the first `count` lines.
pub open spec fn bdf_run(lines: Seq<Seq<u8>>, count: int) -> Result<BdfState, BdfFault>
    decreases count,
{
    if count <= 0 {
        Ok(bdf_start())
    } else {
        match bdf_run(lines, count - 1) {
            Err(fault) => Err(fault),
            Ok(st) => bdf_step(st, trim(lines[count - 1])),
        }
    }
}

/// The glyphs of a BDF font in file order, or the first fault.
pub open spec fn parse_bdf_spec(text: Seq<u8>) -> Result<Seq<(u32, Seq<u16>)>, BdfFault> {
    if !vstd::utf8::valid_utf8(text) {
        Err(BdfFault::NotText)
    } else {
        let lines = bdf_lines(text);
        match bdf_run(lines, lines.len() as int) {
            Err(fault) => Err(fault),
            Ok(st) => if st.in_glyph { Err(BdfFault::EndsInsideGlyph) } else { Ok(st.glyphs) },
        }
    }
}


/// Whether `input[start..end]` starts with `word`.
fn starts_with_word(input: &[u8], start: usize, end: usize, word: &[u8]) -> (found: bool)
    requires
        start <= end <= input@.len(),
    ensures
        found == has_prefix(input@.subrange(start as int, end as int), word@),
{
    let ghost s = input@.subrange(start as int, end as int);
    if word.len() > end - start {
        return false;
    }
    let mut i: usize = 0;
    while i < word.len()
        invariant
            0 <= i <= word@.len(),
            word@.len() <= end - start,
            start <= end <= input@.len(),
            s == input@.subrange(start as int, end as int),
            forall|j: int| 0 <= j < i ==> input@[start + j] == word@[j],
        decreases word@.len() - i,
    {
        if input[start + i] != word[i] {
            proof {
                assert(s.subrange(0, word@.len() as int)[i as int] == input@[start + i]);
            }
            return false;
        }
        i = i + 1;
    }
    proof {
        assert(s.subrange(0, word@.len() as int) =~= word@);
    }
    true
}

/// Whether `input[start..end]` is exactly `word`.
fn is_word(input: &[u8], start: usize, end: usize, word: &[u8]) -> (found: bool)
    requires
        start <= end <= input@.len(),
    ensures
        found == (input@.subrange(start as int, end as int) == word@),
{
    let ghost s = input@.subrange(start as int, end as int);
    if end - start != word.len() {
        return false;
    }
    let found = starts_with_word(input, start, end, word);
    proof {
        assert(s.subrange(0, s.len() as int) =~= s);
    }
    found
}

/// The start of `input[start..end]` after its leading whitespace.
fn skip_ws(input: &[u8], start: usize, end: usize) -> (a: usize)
    requires
        start <= end <= input@.len(),
    ensures
        start <= a <= end,
        input@.subrange(a as int, end as int) == trim_start(input@.subrange(start as int, end as int)),
{
    let ghost s = input@.subrange(start as int, end as int);
    let mut a = start;
    while a < end
        invariant
            start <= a <= end <= input@.len(),
            s == input@.subrange(start as int, end as int),
            trim_start(s) == trim_start(input@.subrange(a as int, end as int)),
        ensures
            start <= a <= end,
            trim_start(s) == trim_start(input@.subrange(a as int, end as int)),
            a == end || leading_ws_len(input@.subrange(a as int, end as int)) == 0,
        decreases end - a,
    {
        let k = leading_ws(input, a, end);
        if k == 0 {
            break;
        }
        proof {
            lemma_trim_start_step(input@.subrange(0, end as int), a as int, k as int);
            assert(input@.subrange(0, end as int).subrange(a as int, end as int) =~= input@.subrange(a as int, end as int));
            assert(input@.subrange(0, end as int).subrange(a + k, end as int) =~= input@.subrange(a + k, end as int));
        }
        a = a + k;
    }
    proof {
        if a == end {
            assert(input@.subrange(a as int, end as int) =~= Seq::<u8>::empty());
        }
    }
    a
}

/// The end of the run of non-whitespace bytes from `start`.
fn token_end(input: &[u8], start: usize, end: usize) -> (stop: usize)
    requires
        start <= end <= input@.len(),
    ensures
        start <= stop <= end,
        stop - start == token_len(input@.subrange(start as int, end as int)),
{
    let mut i = start;
    while i < end
        invariant
            start <= i <= end <= input@.len(),
            token_len(input@.subrange(start as int, end as int)) == (i - start) + token_len(input@.subrange(i as int, end as int)),
        ensures
            start <= i <= end,
            token_len(input@.subrange(start as int, end as int)) == (i - start) + token_len(input@.subrange(i as int, end as int)),
            token_len(input@.subrange(i as int, end as int)) == 0,
        decreases end - i,
    {
        if leading_ws(input, i, end) > 0 {
            break;
        }
        proof {
            assert(input@.subrange(i as int, end as int).drop_first() =~= input@.subrange(i + 1, end as int));
        }
        i = i + 1;
    }
    i
}

/// The range of the first word of `input[start..end]`; what follows it
/// runs to `end`.
fn first_word_range(input: &[u8], start: usize, end: usize) -> (word: Option<(usize, usize)>)
    requires
        start <= end <= input@.len(),
    ensures
        match first_word(input@.subrange(start as int, end as int)) {
            None => word is None,
            Some((w, rest)) => word matches Some((a, b)) && start <= a <= b <= end
                && input@.subrange(a as int, b as int) == w && input@.subrange(b as int, end as int) == rest,
        },
{
    let a = skip_ws(input, start, end);
    if a == end {
        proof {
            assert(input@.subrange(a as int, end as int).len() == 0);
        }
        return None;
    }
    let b = token_end(input, a, end);
    proof {
        let r = input@.subrange(a as int, end as int);
        assert(r.subrange(0, b - a) =~= input@.subrange(a as int, b as int));
        assert(r.subrange(b - a, r.len() as int) =~= input@.subrange(b as int, end as int));
    }
    Some((a, b))
}

/// Parses `input[start..end]` as an unsigned 32-bit number in a radix.
fn parse_u32_range(input: &[u8], start: usize, end: usize, radix: u32) -> (value: Option<u32>)
    requires
        start <= end <= input@.len(),
        radix == 10 || radix == 16,
    ensures
        value == parse_u32_spec(input@.subrange(start as int, end as int), radix),
{
    match parse_radix_range(input, start, end, radix) {
        Some(v) => if v <= 0xffff_ffff { Some(v as u32) } else { None },
        None => None,
    }
}

/// A copy of `input[start..end]`.
fn copy_range(input: &[u8], start: usize, end: usize) -> (bytes: Vec<u8>)
    requires
        start <= end <= input@.len(),
    ensures
        bytes@ == input@.subrange(start as int, end as int),
{
    let mut bytes: Vec<u8> = Vec::new();
    let mut i = start;
    while i < end
        invariant
            start <= i <= end <= input@.len(),
            bytes@ == input@.subrange(start as int, i as int),
        decreases end - i,
    {
        bytes.push(input[i]);
        proof {
            assert(input@.subrange(start as int, i + 1) =~= input@.subrange(start as int, i as int).push(input@[i as int]));
        }
        i = i + 1;
    }
    bytes
}

/// The reader's state while a font is read.
struct BdfReader {
    in_glyph: bool,
    encoding: Option<u32>,
    width: Option<u32>,
    height: Option<u32>,
    bitmap: bool,
    rows: Vec<u16>,
    glyphs: Vec<BdfGlyph>,
}

impl BdfReader {
    spec fn state(&self) -> BdfState {
        BdfState {
            in_glyph: self.in_glyph,
            encoding: self.encoding,
            width: self.width,
            height: self.height,
            bitmap: self.bitmap,
            rows: self.rows@,
            glyphs: self.glyphs@.map_values(|g: BdfGlyph| glyph_view(g)),
        }
    }

    /// A `BBX` line whose numbers are in `input[start..end]`.
    fn bbx(&mut self, input: &[u8], start: usize, end: usize) -> (result: Result<(), BdfError>)
        requires
            start <= end <= input@.len(),
        ensures
            match bbx_step(old(self).state(), input@.subrange(start as int, end as int)) {
                Ok(st) => result is Ok && final(self).state() == st,
                Err(fault) => result matches Err(e) && e.fault() == fault,
            },
    {
        let first = first_word_range(input, start, end);
        let (a, b) = match first {
            None => return Err(BdfError::IncompleteBbx),
            Some(range) => range,
        };
        let width = match parse_u32_range(input, a, b, 10) {
            None => return Err(BdfError::InvalidNumber { field: BdfField::BbxWidth, value: copy_range(input, a, b) }),
            Some(width) => width,
        };
        let second = first_word_range(input, b, end);
        let (c, d) = match second {
            None => return Err(BdfError::IncompleteBbx),
            Some(range) => range,
        };
        let height = match parse_u32_range(input, c, d, 10) {
            None => return Err(BdfError::InvalidNumber { field: BdfField::BbxHeight, value: copy_range(input, c, d) }),
            Some(height) => height,
        };
        self.width = Some(width);
        self.height = Some(height);
        Ok(())
    }

    /// `ENDCHAR`: keeps the finished glyph.
    fn endchar(&mut self) -> (result: Result<(), BdfError>)
        ensures
            match endchar_step(old(self).state()) {
                Ok(st) => result is Ok && final(self).state() == st,
                Err(fault) => result matches Err(e) && e.fault() == fault,
            },
    {
        let encoding = match self.encoding {
            None => return Err(BdfError::MissingEncoding),
            Some(encoding) => encoding,
        };
        if self.width != Some(8u32) && self.width != Some(16u32) {
            return Err(BdfError::UnsupportedWidth { encoding, width: self.width });
        }
        if self.height != Some(16u32) || self.rows.len() != 16 {
            return Err(BdfError::NotSixteenRows { encoding });
        }
        let r = &self.rows;
        let rows: [u16; 16] = [
            r[0], r[1], r[2], r[3], r[4], r[5], r[6], r[7],
            r[8], r[9], r[10], r[11], r[12], r[13], r[14], r[15],
        ];
        proof {
            assert(rows@ =~= self.rows@);
        }
        let ghost before = self.glyphs@;
        self.glyphs.push(BdfGlyph { encoding, rows });
        proof {
            assert(self.glyphs@.map_values(|g: BdfGlyph| glyph_view(g))
                =~= before.map_values(|g: BdfGlyph| glyph_view(g)).push((encoding, rows@)));
        }
        self.in_glyph = false;
        self.bitmap = false;
        Ok(())
    }

    /// A bitmap row in `input[start..end]`.
    fn row(&mut self, input: &[u8], start: usize, end: usize) -> (result: Result<(), BdfError>)
        requires
            start <= end <= input@.len(),
        ensures
            match row_step(old(self).state(), input@.subrange(start as int, end as int)) {
                Ok(st) => result is Ok && final(self).state() == st,
                Err(fault) => result matches Err(e) && e.fault() == fault,
            },
    {
        let value = match parse_u32_range(input, start, end, 16) {
            None => return Err(BdfError::InvalidBitmapRow { row: copy_range(input, start, end) }),
            Some(value) => value,
        };
        if self.width == Some(8u32) {
            self.rows.push(((value % 256) as u16) * 256);
        } else if self.width == Some(16u32) {
            self.rows.push((value % 65536) as u16);
        } else {
            return Err(BdfError::BitmapBeforeBbx);
        }
        Ok(())
    }

    /// One line, `input[start..end]` before trimming.
    fn step(&mut self, input: &[u8], start: usize, end: usize) -> (result: Result<(), BdfError>)
        requires
            start <= end <= input@.len(),
        ensures
            match bdf_step(old(self).state(), trim(input@.subrange(start as int, end as int))) {
                Ok(st) => result is Ok && final(self).state() == st,
                Err(fault) => result matches Err(e) && e.fault() == fault,
            },
    {
        let (a, b) = trim_range(input, start, end);
        let ghost line = input@.subrange(a as int, b as int);
        let startchar: [u8; 9] = [0x53, 0x54, 0x41, 0x52, 0x54, 0x43, 0x48, 0x41, 0x52];
        let startchar_space: [u8; 10] = [0x53, 0x54, 0x41, 0x52, 0x54, 0x43, 0x48, 0x41, 0x52, 0x20];
        let encoding_word: [u8; 9] = [0x45, 0x4e, 0x43, 0x4f, 0x44, 0x49, 0x4e, 0x47, 0x20];
        let bbx_word: [u8; 4] = [0x42, 0x42, 0x58, 0x20];
        let bitmap_word: [u8; 6] = [0x42, 0x49, 0x54, 0x4d, 0x41, 0x50];
        let endchar_word: [u8; 7] = [0x45, 0x4e, 0x44, 0x43, 0x48, 0x41, 0x52];
        proof {
            assert(startchar@ =~= word_startchar());
            assert(startchar_space@ =~= word_startchar().push(0x20u8));
            assert(encoding_word@ =~= word_encoding());
            assert(bbx_word@ =~= word_bbx());
            assert(bitmap_word@ =~= word_bitmap());
            assert(endchar_word@ =~= word_endchar());
        }
        if is_word(input, a, b, &startchar) || starts_with_word(input, a, b, &startchar_space) {
            if self.in_glyph {
                return Err(BdfError::NestedStartChar);
            }
            self.in_glyph = true;
            self.encoding = None;
            self.width = None;
            self.height = None;
            self.bitmap = false;
            self.rows = Vec::new();
            return Ok(());
        }
        if !self.in_glyph {
            return Ok(());
        }
        if starts_with_word(input, a, b, &encoding_word) {
            proof {
                assert(line.subrange(9, line.len() as int) =~= input@.subrange(a + 9, b as int));
            }
            match parse_u32_range(input, a + 9, b, 10) {
                Some(encoding) => {
                    self.encoding = Some(encoding);
                    return Ok(());
                },
                None => {
                    return Err(BdfError::InvalidNumber { field: BdfField::Encoding, value: copy_range(input, a + 9, b) });
                },
            }
        }
        if starts_with_word(input, a, b, &bbx_word) {
            proof {
                assert(line.subrange(4, line.len() as int) =~= input@.subrange(a + 4, b as int));
            }
            return self.bbx(input, a + 4, b);
        }
        if is_word(input, a, b, &bitmap_word) {
            self.bitmap = true;
            return Ok(());
        }
        if is_word(input, a, b, &endchar_word) {
            return self.endchar();
        }
        if self.bitmap {
            return self.row(input, a, b);
        }
        Ok(())
    }
}

proof fn lemma_bdf_run_error_sticks(lines: Seq<Seq<u8>>, count: int, later: int)
    requires
        0 <= count <= later,
        bdf_run(lines, count) is Err,
    ensures
        bdf_run(lines, later) == bdf_run(lines, count),
    decreases later - count,
{
    if later > count {
        lemma_bdf_run_error_sticks(lines, count, later - 1);
    }
}

/// Reads the 16-row glyphs of a BDF font, in file order. Lines are trimmed
/// of whitespace; a glyph runs from `STARTCHAR` to `ENDCHAR` and needs an
/// `ENCODING`, a `BBX` of width 8 or 16 and height 16, and 16 hexadecimal
/// rows after `BITMAP`. Everything else is ignored.
pub fn parse_bdf(text: &[u8]) -> (result: Result<Vec<BdfGlyph>, BdfError>)
    ensures
        match parse_bdf_spec(text@) {
            Ok(glyphs) => result matches Ok(v) && v@.map_values(|g: BdfGlyph| glyph_view(g)) == glyphs,
            Err(fault) => result matches Err(e) && e.fault() == fault,
        },
{
    if !is_utf8(text) {
        return Err(BdfError::NotText);
    }
    proof {
        assert(text@.subrange(0, text@.len() as int) =~= text@);
        lemma_split_nonempty(text@, 0x0a);
    }
    let pieces = split_ranges(text, 0, text.len(), 0x0a);
    let ghost all = split_on(text@, 0x0a);
    let ghost lines = bdf_lines(text@);
    let (last_a, last_b) = pieces[pieces.len() - 1];
    let count = if last_a == last_b { pieces.len() - 1 } else { pieces.len() };
    proof {
        assert(all.last() == text@.subrange(last_a as int, last_b as int));
        assert(lines.len() == count);
        assert forall|k: int| 0 <= k < count implies lines[k] == all[k] by {}
    }
    let mut reader = BdfReader {
        in_glyph: false,
        encoding: None,
        width: None,
        height: None,
        bitmap: false,
        rows: Vec::new(),
        glyphs: Vec::new(),
    };
    proof {
        assert(reader.state().glyphs =~= Seq::<(u32, Seq<u16>)>::empty());
        assert(reader.state().rows =~= Seq::<u16>::empty());
    }
    let mut index: usize = 0;
    while index < count
        invariant
            0 <= index <= count <= pieces@.len(),
            vstd::utf8::valid_utf8(text@),
            pieces@.len() == all.len(),
            all == split_on(text@, 0x0a),
            lines == bdf_lines(text@),
            lines.len() == count,
            forall|k: int| 0 <= k < count ==> lines[k] == all[k],
            forall|k: int| 0 <= k < pieces@.len() ==> {
                let (a, b) = #[trigger] pieces@[k];
                &&& 0 <= a <= b <= text@.len()
                &&& text@.subrange(a as int, b as int) == all[k]
            },
            bdf_run(lines, index as int) == Ok::<BdfState, BdfFault>(reader.state()),
        decreases count - index,
    {
        let (a, b) = pieces[index];
        let stepped = reader.step(text, a, b);
        match stepped {
            Ok(()) => {},
            Err(e) => {
                proof {
                    assert(lines[index as int] == text@.subrange(a as int, b as int));
                    lemma_bdf_run_error_sticks(lines, index + 1, count as int);
                }
                return Err(e);
            },
        }
        proof {
            assert(lines[index as int] == text@.subrange(a as int, b as int));
        }
        index = index + 1;
    }
    if reader.in_glyph {
        return Err(BdfError::EndsInsideGlyph);
    }
    Ok(reader.glyphs)
}


// ----- The font table -----

/// A glyph under its Unicode code point.
#[derive(Clone, Copy, Debug, PartialEq, Eq)]
pub struct FontGlyph {
    pub codepoint: u32,
    pub rows: [u16; 16],
}

/// Why no font table could be made.
#[derive(Clone, Copy, Debug, PartialEq, Eq, Structural)]
pub enum FontError {
    /// A JIS X 0208 code without a single code point.
    Codepoint { encoding: u32, error: CodepointError },
    /// Neither font had a glyph with a code point.
    NoGlyphs,
    /// The glyph index does not fit in memory.
    IndexTooLarge,
    /// The glyph bitmaps do not fit in memory.
    GlyphsTooLarge,
    /// The whole table does not fit in memory.
    TableTooLarge,
}

pub open spec fn glyph_seq(glyphs: Seq<BdfGlyph>) -> Seq<(u32, Seq<u16>)> {
    glyphs.map_values(|g: BdfGlyph| glyph_view(g))
}

pub open spec fn font_view(glyphs: Seq<FontGlyph>) -> Seq<(u32, Seq<u16>)> {
    glyphs.map_values(|g: FontGlyph| (g.codepoint, g.rows@))
}

/// The code point of a JIS X 0208 code, as `jis0208_codepoint` gives it.
pub open spec fn jis0208_lookup(encoding: u32) -> Result<Option<u32>, CodepointError> {
    if jis0208_code(encoding) {
        codepoint_of(euc_jp_decoded(euc_jp_bytes(encoding)))
    } else {
        Ok(None)
    }
}

/// The JIS X 0208 glyphs that have a code point, under it, in order; or
/// the first code whose lookup fails.
pub open spec fn jis0208_entries(glyphs: Seq<(u32, Seq<u16>)>) -> Result<Seq<(u32, Seq<u16>)>, (u32, CodepointError)>
    decreases glyphs.len(),
{
    if glyphs.len() == 0 {
        Ok(Seq::empty())
    } else {
        match jis0208_entries(glyphs.drop_last()) {
            Err(e) => Err(e),
            Ok(entries) => match jis0208_lookup(glyphs.last().0) {
                Err(error) => Err((glyphs.last().0, error)),
                Ok(None) => Ok(entries),
                Ok(Some(codepoint)) => Ok(entries.push((codepoint, glyphs.last().1))),
            },
        }
    }
}

/// The JIS X 0201 glyphs that have a code point, under it, in order.
pub open spec fn jis0201_entries(glyphs: Seq<(u32, Seq<u16>)>) -> Seq<(u32, Seq<u16>)>
    decreases glyphs.len(),
{
    if glyphs.len() == 0 {
        Seq::empty()
    } else {
        let entries = jis0201_entries(glyphs.drop_last());
        match jis0201_spec(glyphs.last().0) {
            Some(codepoint) => entries.push((codepoint, glyphs.last().1)),
            None => entries,
        }
    }
}

/// The rows of the first entry with a code point.
pub open spec fn first_rows(entries: Seq<(u32, Seq<u16>)>, codepoint: u32) -> Option<Seq<u16>>
    decreases entries.len(),
{
    if entries.len() == 0 {
        None
    } else {
        match first_rows(entries.drop_last(), codepoint) {
            Some(rows) => Some(rows),
            None => if entries.last().0 == codepoint { Some(entries.last().1) } else { None },
        }
    }
}

/// The glyph table of some entries: each code point once, ascending, with
/// the rows of its first entry.
pub open spec fn is_glyph_table(table: Seq<(u32, Seq<u16>)>, entries: Seq<(u32, Seq<u16>)>) -> bool {
    &&& forall|i: int, j: int| 0 <= i < j < table.len() ==> table[i].0 < table[j].0
    &&& forall|i: int| 0 <= i < table.len() ==> first_rows(entries, table[i].0) == Some(table[i].1)
    &&& forall|c: u32| #[trigger] first_rows(entries, c) is Some ==> exists|i: int| 0 <= i < table.len() && table[i].0 == c
}

/// Adds an entry to a glyph table unless its code point is there already.
fn insert_first(table: &mut Vec<FontGlyph>, codepoint: u32, rows: [u16; 16], Ghost(entries): Ghost<Seq<(u32, Seq<u16>)>>)
    requires
        is_glyph_table(font_view(old(table)@), entries),
    ensures
        is_glyph_table(font_view(final(table)@), entries.push((codepoint, rows@))),
{
    let ghost old_view = font_view(table@);
    let ghost next = entries.push((codepoint, rows@));
    proof {
        assert(next.drop_last() =~= entries);
        assert(next.last() == (codepoint, rows@));
    }
    let mut p: usize = 0;
    while p < table.len() && table[p].codepoint < codepoint
        invariant
            0 <= p <= table@.len(),
            old_view == font_view(table@),
            forall|k: int| 0 <= k < p ==> #[trigger] old_view[k].0 < codepoint,
        decreases table@.len() - p,
    {
        p = p + 1;
    }
    if p < table.len() && table[p].codepoint == codepoint {
        proof {
            assert(old_view[p as int].0 == codepoint);
            assert forall|i: int| 0 <= i < old_view.len() implies first_rows(next, old_view[i].0) == Some(old_view[i].1) by {
                assert(first_rows(entries, old_view[i].0) == Some(old_view[i].1));
            }
            assert forall|c: u32| #[trigger] first_rows(next, c) is Some implies exists|i: int| 0 <= i < old_view.len() && old_view[i].0 == c by {
                if first_rows(entries, c) is None {
                    assert(c == codepoint);
                    assert(old_view[p as int].0 == c);
                }
            }
        }
        return;
    }
    proof {
        if first_rows(entries, codepoint) is Some {
            let i = choose|i: int| 0 <= i < old_view.len() && old_view[i].0 == codepoint;
            if i < p {
                assert(old_view[i].0 < codepoint);
            } else {
                assert(p < old_view.len());
                assert(old_view[p as int].0 > codepoint);
                if i > p {
                    assert(old_view[p as int].0 < old_view[i].0);
                }
            }
        }
        assert(first_rows(next, codepoint) == Some(rows@));
    }
    table.insert(p, FontGlyph { codepoint, rows });
    proof {
        let new_view = font_view(table@);
        assert(new_view =~= old_view.insert(p as int, (codepoint, rows@)));
        assert forall|i: int, j: int| 0 <= i < j < new_view.len() implies new_view[i].0 < new_view[j].0 by {
            if j < p {
            } else if j == p {
                assert(new_view[i] == old_view[i]);
            } else if i < p {
                assert(new_view[j] == old_view[j - 1]);
            } else if i == p {
                assert(new_view[j] == old_view[j - 1]);
                if j - 1 > p {
                    assert(old_view[p as int].0 < old_view[j - 1].0);
                }
                assert(p < old_view.len());
            } else {
                assert(new_view[i] == old_view[i - 1]);
                assert(new_view[j] == old_view[j - 1]);
            }
        }
        assert forall|i: int| 0 <= i < new_view.len() implies first_rows(next, new_view[i].0) == Some(new_view[i].1) by {
            if i < p {
                assert(new_view[i] == old_view[i]);
                assert(first_rows(entries, old_view[i].0) == Some(old_view[i].1));
            } else if i > p {
                assert(new_view[i] == old_view[i - 1]);
                assert(first_rows(entries, old_view[i - 1].0) == Some(old_view[i - 1].1));
            }
        }
        assert forall|c: u32| #[trigger] first_rows(next, c) is Some implies exists|i: int| 0 <= i < new_view.len() && new_view[i].0 == c by {
            if first_rows(entries, c) is Some {
                let i = choose|i: int| 0 <= i < old_view.len() && old_view[i].0 == c;
                if i < p {
                    assert(new_view[i] == old_view[i]);
                } else {
                    assert(new_view[i + 1] == old_view[i]);
                }
            } else {
                assert(c == codepoint);
                assert(new_view[p as int].0 == c);
            }
        }
    }
}

proof fn lemma_jis0208_entries_error_sticks(glyphs: Seq<(u32, Seq<u16>)>, count: int)
    requires
        0 <= count <= glyphs.len(),
        jis0208_entries(glyphs.subrange(0, count)) is Err,
    ensures
        jis0208_entries(glyphs) == jis0208_entries(glyphs.subrange(0, count)),
    decreases glyphs.len() - count,
{
    if count < glyphs.len() {
        assert(glyphs.subrange(0, count + 1).drop_last() =~= glyphs.subrange(0, count));
        lemma_jis0208_entries_error_sticks(glyphs, count + 1);
    } else {
        assert(glyphs.subrange(0, count) =~= glyphs);
    }
}

/// The glyph table of two fonts: the JIS X 0208 glyphs under their EUC-JP
/// code points, then the JIS X 0201 ones; where two glyphs share a code
/// point the first one stays.
pub fn collect_font_glyphs(jis0208: &[BdfGlyph], jis0201: &[BdfGlyph]) -> (result: Result<Vec<FontGlyph>, FontError>)
    ensures
        match jis0208_entries(glyph_seq(jis0208@)) {
            Err((encoding, error)) => result == Err::<Vec<FontGlyph>, FontError>(FontError::Codepoint { encoding, error }),
            Ok(entries) => result matches Ok(table)
                && is_glyph_table(font_view(table@), entries + jis0201_entries(glyph_seq(jis0201@))),
        },
{
    let ghost large = glyph_seq(jis0208@);
    let ghost small = glyph_seq(jis0201@);
    let mut table: Vec<FontGlyph> = Vec::new();
    let ghost mut entries: Seq<(u32, Seq<u16>)> = Seq::empty();
    proof {
        assert(large.subrange(0, 0) =~= Seq::<(u32, Seq<u16>)>::empty());
        assert(font_view(table@) =~= Seq::<(u32, Seq<u16>)>::empty());
    }
    let mut i: usize = 0;
    while i < jis0208.len()
        invariant
            0 <= i <= jis0208@.len(),
            large == glyph_seq(jis0208@),
            jis0208_entries(large.subrange(0, i as int)) == Ok::<Seq<(u32, Seq<u16>)>, (u32, CodepointError)>(entries),
            is_glyph_table(font_view(table@), entries),
        decreases jis0208@.len() - i,
    {
        let glyph = jis0208[i];
        proof {
            assert(large.subrange(0, i + 1).drop_last() =~= large.subrange(0, i as int));
            assert(large.subrange(0, i + 1).last() == glyph_view(glyph));
        }
        match jis0208_codepoint(glyph.encoding) {
            Err(error) => {
                proof {
                    lemma_jis0208_entries_error_sticks(large, i + 1);
                }
                return Err(FontError::Codepoint { encoding: glyph.encoding, error });
            },
            Ok(None) => {},
            Ok(Some(codepoint)) => {
                insert_first(&mut table, codepoint, glyph.rows, Ghost(entries));
                proof {
                    entries = entries.push((codepoint, glyph.rows@));
                }
            },
        }
        i = i + 1;
    }
    proof {
        assert(large.subrange(0, jis0208@.len() as int) =~= large);
        assert(small.subrange(0, 0) =~= Seq::<(u32, Seq<u16>)>::empty());
        assert(entries + jis0201_entries(small.subrange(0, 0)) =~= entries);
    }
    let ghost head = entries;
    let mut j: usize = 0;
    while j < jis0201.len()
        invariant
            0 <= j <= jis0201@.len(),
            small == glyph_seq(jis0201@),
            jis0208_entries(large) == Ok::<Seq<(u32, Seq<u16>)>, (u32, CodepointError)>(head),
            entries == head + jis0201_entries(small.subrange(0, j as int)),
            is_glyph_table(font_view(table@), entries),
        decreases jis0201@.len() - j,
    {
        let glyph = jis0201[j];
        proof {
            assert(small.subrange(0, j + 1).drop_last() =~= small.subrange(0, j as int));
            assert(small.subrange(0, j + 1).last() == glyph_view(glyph));
        }
        match jis0201_codepoint(glyph.encoding) {
            None => {},
            Some(codepoint) => {
                insert_first(&mut table, codepoint, glyph.rows, Ghost(entries));
                proof {
                    assert(head + jis0201_entries(small.subrange(0, j + 1)) =~= entries.push((codepoint, glyph.rows@)));
                    entries = entries.push((codepoint, glyph.rows@));
                }
            },
        }
        j = j + 1;
    }
    proof {
        assert(small.subrange(0, jis0201@.len() as int) =~= small);
    }
    Ok(table)
}


/// A 32-bit number as four little-endian bytes.
pub open spec fn le32(v: u32) -> Seq<u8> {
    seq![(v % 256) as u8, ((v / 256) % 256) as u8, ((v / 65536) % 256) as u8, (v / 16777216) as u8]
}

/// A 16-bit number as two big-endian bytes.
pub open spec fn be16(v: u16) -> Seq<u8> {
    seq![(v / 256) as u8, (v % 256) as u8]
}

/// Bitmap rows, two big-endian bytes each.
pub open spec fn rows_bytes(rows: Seq<u16>) -> Seq<u8>
    decreases rows.len(),
{
    if rows.len() == 0 { Seq::empty() } else { rows_bytes(rows.drop_last()) + be16(rows.last()) }
}

/// The index of the first `count` glyphs: code point, then glyph number.
pub open spec fn index_bytes(table: Seq<(u32, Seq<u16>)>, count: int) -> Seq<u8>
    decreases count,
{
    if count <= 0 {
        Seq::empty()
    } else {
        index_bytes(table, count - 1) + le32(table[count - 1].0) + le32((count - 1) as u32)
    }
}

/// The bitmaps of the first `count` glyphs.
pub open spec fn bitmap_bytes(table: Seq<(u32, Seq<u16>)>, count: int) -> Seq<u8>
    decreases count,
{
    if count <= 0 { Seq::empty() } else { bitmap_bytes(table, count - 1) + rows_bytes(table[count - 1].1) }
}

/// `PMDK16` and two zero bytes.
pub open spec fn font_magic() -> Seq<u8> {
    seq![0x50u8, 0x4du8, 0x44u8, 0x4bu8, 0x31u8, 0x36u8, 0u8, 0u8]
}

/// The bytes of a font table: magic, version 1, glyph count and bitmap
/// offset (little-endian), the index sorted by code point, then 32 bytes of
/// bitmap per glyph.
pub open spec fn font_bytes(table: Seq<(u32, Seq<u16>)>) -> Seq<u8> {
    font_magic() + le32(1) + le32(table.len() as u32) + le32((20 + 8 * table.len()) as u32)
        + index_bytes(table, table.len() as int) + bitmap_bytes(table, table.len() as int)
}

/// What encoding a table of `count` glyphs gives when the sizes are checked
/// in `usize`.
pub open spec fn font_size_check(count: int) -> Result<(), FontError> {
    if count == 0 {
        Err(FontError::NoGlyphs)
    } else if 8 * count > usize::MAX {
        Err(FontError::IndexTooLarge)
    } else if 20 + 8 * count > usize::MAX {
        Err(FontError::TableTooLarge)
    } else if 32 * count > usize::MAX {
        Err(FontError::GlyphsTooLarge)
    } else if 20 + 40 * count > usize::MAX {
        Err(FontError::TableTooLarge)
    } else {
        Ok(())
    }
}

fn push_le32(out: &mut Vec<u8>, v: u32)
    ensures
        final(out)@ == old(out)@ + le32(v),
{
    out.push((v % 256) as u8);
    out.push(((v / 256) % 256) as u8);
    out.push(((v / 65536) % 256) as u8);
    out.push((v / 16777216) as u8);
    proof {
        assert(final(out)@ =~= old(out)@ + le32(v));
    }
}

fn push_rows(out: &mut Vec<u8>, rows: &[u16; 16])
    ensures
        final(out)@ == old(out)@ + rows_bytes(rows@),
{
    let ghost start = out@;
    let mut i: usize = 0;
    proof {
        assert(rows@.subrange(0, 0) =~= Seq::<u16>::empty());
        assert(out@ =~= start + rows_bytes(rows@.subrange(0, 0)));
    }
    while i < 16
        invariant
            0 <= i <= 16,
            rows@.len() == 16,
            out@ == start + rows_bytes(rows@.subrange(0, i as int)),
        decreases 16 - i,
    {
        let row = rows[i];
        out.push((row / 256) as u8);
        out.push((row % 256) as u8);
        proof {
            assert(rows@.subrange(0, i + 1).drop_last() =~= rows@.subrange(0, i as int));
            assert(out@ =~= start + rows_bytes(rows@.subrange(0, i + 1)));
        }
        i = i + 1;
    }
    proof {
        assert(rows@.subrange(0, 16) =~= rows@);
    }
}

/// Encodes a glyph table (code points ascending) as the player's font file.
pub fn encode_font_table(glyphs: &[FontGlyph]) -> (result: Result<Vec<u8>, FontError>)
    ensures
        match font_size_check(glyphs@.len() as int) {
            Err(e) => result == Err::<Vec<u8>, FontError>(e),
            Ok(()) => result matches Ok(bytes) && bytes@ == font_bytes(font_view(glyphs@)),
        },
{
    let ghost table = font_view(glyphs@);
    let count = glyphs.len();
    if count == 0 {
        return Err(FontError::NoGlyphs);
    }
    let index_size = match count.checked_mul(8) {
        None => return Err(FontError::IndexTooLarge),
        Some(size) => size,
    };
    let glyph_offset = match index_size.checked_add(20) {
        None => return Err(FontError::TableTooLarge),
        Some(offset) => offset,
    };
    let bitmap_size = match count.checked_mul(32) {
        None => return Err(FontError::GlyphsTooLarge),
        Some(size) => size,
    };
    match glyph_offset.checked_add(bitmap_size) {
        None => return Err(FontError::TableTooLarge),
        Some(_) => {},
    }
    let mut output: Vec<u8> = Vec::new();
    output.push(0x50);
    output.push(0x4d);
    output.push(0x44);
    output.push(0x4b);
    output.push(0x31);
    output.push(0x36);
    output.push(0);
    output.push(0);
    proof {
        assert(output@ =~= font_magic());
    }
    push_le32(&mut output, 1);
    push_le32(&mut output, count as u32);
    push_le32(&mut output, glyph_offset as u32);
    let ghost header = output@;
    proof {
        assert(header == font_magic() + le32(1) + le32(table.len() as u32) + le32((20 + 8 * table.len()) as u32));
        assert(output@ =~= header + index_bytes(table, 0));
    }
    let mut i: usize = 0;
    while i < count
        invariant
            0 <= i <= count,
            count == glyphs@.len(),
            table == font_view(glyphs@),
            output@ == header + index_bytes(table, i as int),
        decreases count - i,
    {
        push_le32(&mut output, glyphs[i].codepoint);
        push_le32(&mut output, i as u32);
        proof {
            assert(table[i as int].0 == glyphs@[i as int].codepoint);
            assert(output@ =~= header + index_bytes(table, i + 1));
        }
        i = i + 1;
    }
    let ghost indexed = output@;
    proof {
        assert(output@ =~= indexed + bitmap_bytes(table, 0));
    }
    let mut k: usize = 0;
    while k < count
        invariant
            0 <= k <= count,
            count == glyphs@.len(),
            table == font_view(glyphs@),
            output@ == indexed + bitmap_bytes(table, k as int),
        decreases count - k,
    {
        push_rows(&mut output, &glyphs[k].rows);
        proof {
            assert(table[k as int].1 == glyphs@[k as int].rows@);
            assert(output@ =~= indexed + bitmap_bytes(table, k + 1));
        }
        k = k + 1;
    }
    proof {
        assert(output@ =~= font_bytes(table));
    }
    Ok(output)
}

} // verus!
