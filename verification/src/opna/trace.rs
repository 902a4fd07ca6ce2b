use vstd::prelude::*;

verus! {

/// One register write of a chip trace.
#[derive(Clone, Copy, Debug, PartialEq, Eq, Structural)]
pub struct RegisterWrite {
    pub time_us: u64,
    pub tick: u64,
    pub address: u16,
    pub value: u8,
}

/// A malformed trace; `line` is the 1-based line of the first bad row.
#[derive(Clone, Copy, Debug, PartialEq, Eq, Structural)]
pub struct TraceError {
    pub line: usize,
}

/// The first position at which two traces differ.
#[derive(Clone, Copy, Debug, PartialEq, Eq, Structural)]
pub struct TraceMismatch {
    pub index: usize,
    pub expected: Option<RegisterWrite>,
    pub actual: Option<RegisterWrite>,
}

/// The entry of a trace at an index, if there is one.
pub open spec fn trace_entry(trace: Seq<RegisterWrite>, index: int) -> Option<RegisterWrite> {
    if 0 <= index < trace.len() { Some(trace[index]) } else { None }
}

fn entry(trace: &[RegisterWrite], index: usize) -> (entry: Option<RegisterWrite>)
    ensures
        entry == trace_entry(trace@, index as int),
{
    if index < trace.len() {
        Some(trace[index])
    } else {
        None
    }
}

/// Compares two traces entry by entry; the error names the first index at
/// which they differ, in content or in length.
pub fn compare_register_traces(
    expected: &[RegisterWrite],
    actual: &[RegisterWrite],
) -> (result: Result<(), TraceMismatch>)
    ensures
        result is Ok <==> expected@ == actual@,
        result matches Err(m) ==> {
            &&& trace_entry(expected@, m.index as int) != trace_entry(actual@, m.index as int)
            &&& forall|i: int| 0 <= i < m.index ==> trace_entry(expected@, i) == trace_entry(actual@, i)
            &&& m.expected == trace_entry(expected@, m.index as int)
            &&& m.actual == trace_entry(actual@, m.index as int)
        },
{
    let count = if expected.len() > actual.len() { expected.len() } else { actual.len() };
    let mut index: usize = 0;
    while index < count
        invariant
            count == if expected@.len() > actual@.len() { expected@.len() } else { actual@.len() },
            index <= count,
            forall|i: int| 0 <= i < index ==> trace_entry(expected@, i) == trace_entry(actual@, i),
        decreases count - index,
    {
        let e = entry(expected, index);
        let a = entry(actual, index);
        if e != a {
            proof {
                if expected@ == actual@ {
                    assert(trace_entry(expected@, index as int) == trace_entry(actual@, index as int));
                }
            }
            return Err(TraceMismatch { index, expected: e, actual: a });
        }
        index = index + 1;
    }
    proof {
        assert(expected@.len() == actual@.len()) by {
            if expected@.len() != actual@.len() {
                let k = if expected@.len() < actual@.len() { expected@.len() as int } else { actual@.len() as int };
                assert(trace_entry(expected@, k) == trace_entry(actual@, k));
            }
        }
        assert forall|i: int| 0 <= i < expected@.len() implies expected@[i] == actual@[i] by {
            assert(trace_entry(expected@, i) == trace_entry(actual@, i));
        }
        assert(expected@ =~= actual@);
    }
    Ok(())
}

// ----- Text model of the trace format -----

/// Whether a byte is ASCII whitespace as Unicode defines it.
pub open spec fn is_ascii_ws(b: u8) -> bool {
    b == 0x09 || b == 0x0a || b == 0x0b || b == 0x0c || b == 0x0d || b == 0x20
}

/// Whether three bytes are the UTF-8 encoding of a three-byte whitespace
/// character (U+1680, U+2000..U+200A, U+2028, U+2029, U+202F, U+205F, U+3000).
pub open spec fn is_ws3(a: u8, b: u8, c: u8) -> bool {
    ||| a == 0xe1 && b == 0x9a && c == 0x80
    ||| a == 0xe2 && b == 0x80 && ((0x80 <= c <= 0x8a) || c == 0xa8 || c == 0xa9 || c == 0xaf)
    ||| a == 0xe2 && b == 0x81 && c == 0x9f
    ||| a == 0xe3 && b == 0x80 && c == 0x80
}

/// Whether two bytes encode U+0085 or U+00A0.
pub open spec fn is_ws2(a: u8, b: u8) -> bool {
    a == 0xc2 && (b == 0x85 || b == 0xa0)
}

/// The length of the whitespace character at the start of `s`, or 0.
pub open spec fn leading_ws_len(s: Seq<u8>) -> int {
    if s.len() >= 1 && is_ascii_ws(s[0]) {
        1
    } else if s.len() >= 2 && is_ws2(s[0], s[1]) {
        2
    } else if s.len() >= 3 && is_ws3(s[0], s[1], s[2]) {
        3
    } else {
        0
    }
}

/// The length of the whitespace character at the end of `s`, or 0.
pub open spec fn trailing_ws_len(s: Seq<u8>) -> int {
    let n = s.len() as int;
    if n >= 1 && is_ascii_ws(s[n - 1]) {
        1
    } else if n >= 2 && is_ws2(s[n - 2], s[n - 1]) {
        2
    } else if n >= 3 && is_ws3(s[n - 3], s[n - 2], s[n - 1]) {
        3
    } else {
        0
    }
}

pub open spec fn trim_start(s: Seq<u8>) -> Seq<u8>
    decreases s.len(),
{
    let k = leading_ws_len(s);
    if k == 0 { s } else { trim_start(s.subrange(k, s.len() as int)) }
}

pub open spec fn trim_end(s: Seq<u8>) -> Seq<u8>
    decreases s.len(),
{
    let k = trailing_ws_len(s);
    if k == 0 { s } else { trim_end(s.subrange(0, s.len() - k)) }
}

/// The text with leading and trailing Unicode whitespace removed.
pub open spec fn trim(s: Seq<u8>) -> Seq<u8> {
    trim_end(trim_start(s))
}

/// The pieces of `s` between occurrences of `sep` (always at least one).
pub open spec fn split_on(s: Seq<u8>, sep: u8) -> Seq<Seq<u8>>
    decreases s.len(),
{
    if s.len() == 0 {
        seq![Seq::<u8>::empty()]
    } else {
        let rest = split_on(s.drop_last(), sep);
        if s.last() == sep {
            rest.push(Seq::<u8>::empty())
        } else {
            rest.update(rest.len() - 1, rest.last().push(s.last()))
        }
    }
}

/// The value of a digit in a radix, if the byte is one.
pub open spec fn digit_value(b: u8, radix: u32) -> Option<nat> {
    if 0x30 <= b <= 0x39 && (b - 0x30) < radix {
        Some((b - 0x30) as nat)
    } else if radix == 16 && 0x61 <= b <= 0x66 {
        Some((b - 0x61 + 10) as nat)
    } else if radix == 16 && 0x41 <= b <= 0x46 {
        Some((b - 0x41 + 10) as nat)
    } else {
        None
    }
}

/// Whether every byte is a digit of the radix.
pub open spec fn all_digits(s: Seq<u8>, radix: u32) -> bool {
    forall|i: int| 0 <= i < s.len() ==> (#[trigger] digit_value(s[i], radix)) is Some
}

/// The number written by a digit string.
pub open spec fn digits_value(s: Seq<u8>, radix: u32) -> nat
    decreases s.len(),
{
    if s.len() == 0 {
        0
    } else {
        let d = match digit_value(s.last(), radix) {
            Some(v) => v,
            None => 0,
        };
        digits_value(s.drop_last(), radix) * (radix as nat) + d
    }
}

/// An unsigned number in a radix with an optional leading `+`, if it fits in 64 bits.
pub open spec fn parse_radix(s: Seq<u8>, radix: u32) -> Option<u64> {
    let d = if s.len() > 0 && s[0] == 0x2b { s.subrange(1, s.len() as int) } else { s };
    if d.len() == 0 || !all_digits(d, radix) || digits_value(d, radix) > u64::MAX {
        None
    } else {
        Some(digits_value(d, radix) as u64)
    }
}

/// A field value: hexadecimal after `0x` or `0X`, decimal otherwise.
pub open spec fn parse_u64_spec(s: Seq<u8>) -> Option<u64> {
    if s.len() >= 2 && s[0] == 0x30 && (s[1] == 0x78 || s[1] == 0x58) {
        parse_radix(s.subrange(2, s.len() as int), 16)
    } else {
        parse_radix(s, 10)
    }
}

/// What a line of the trace holds.
pub enum LineContent {
    Skip,
    Row(RegisterWrite),
    Malformed,
}

/// The meaning of one line: blank lines and `#` comments are skipped, a row
/// is four comma-separated fields `time_us,tick,address,value`.
pub open spec fn line_content(line: Seq<u8>) -> LineContent {
    let t = trim(line);
    if t.len() == 0 || t[0] == 0x23 {
        LineContent::Skip
    } else {
        let fields = split_on(t, 0x2c);
        if fields.len() != 4 {
            LineContent::Malformed
        } else {
            match (
                parse_u64_spec(trim(fields[0])),
                parse_u64_spec(trim(fields[1])),
                parse_u64_spec(trim(fields[2])),
                parse_u64_spec(trim(fields[3])),
            ) {
                (Some(time_us), Some(tick), Some(address), Some(value)) => {
                    if address <= 0xffff && value <= 0xff {
                        LineContent::Row(RegisterWrite { time_us, tick, address: address as u16, value: value as u8 })
                    } else {
                        LineContent::Malformed
                    }
                },
                _ => LineContent::Malformed,
            }
        }
    }
}

/// The rows of the first `count` lines, or the number of the first malformed line.
pub open spec fn parse_lines(lines: Seq<Seq<u8>>, count: int) -> Result<Seq<RegisterWrite>, int>
    decreases count,
{
    if count <= 0 {
        Ok(Seq::empty())
    } else {
        match parse_lines(lines, count - 1) {
            Err(line) => Err(line),
            Ok(rows) => match line_content(lines[count - 1]) {
                LineContent::Skip => Ok(rows),
                LineContent::Row(w) => Ok(rows.push(w)),
                LineContent::Malformed => Err(count),
            },
        }
    }
}

/// The rows of a whole trace text, or the line number of the first error;
/// text that is not UTF-8 fails on line 1.
pub open spec fn parse_trace_spec(input: Seq<u8>) -> Result<Seq<RegisterWrite>, int> {
    if !vstd::utf8::valid_utf8(input) {
        Err(1)
    } else {
        let lines = split_on(input, 0x0a);
        parse_lines(lines, lines.len() as int)
    }
}

/// Whether `input` is well-formed UTF-8, as `core::str::from_utf8` decides.
#[verifier::external_body]
pub(crate) fn is_utf8(input: &[u8]) -> (valid: bool)
    ensures
        valid == vstd::utf8::valid_utf8(input@),
{
    core::str::from_utf8(input).is_ok()
}

/// The split of a prefix extended by one byte.
proof fn lemma_split_step(s: Seq<u8>, i: int, sep: u8)
    requires
        0 <= i < s.len(),
    ensures
        split_on(s.subrange(0, i + 1), sep) == (if s[i] == sep {
            split_on(s.subrange(0, i), sep).push(Seq::<u8>::empty())
        } else {
            let rest = split_on(s.subrange(0, i), sep);
            rest.update(rest.len() - 1, rest.last().push(s[i]))
        }),
{
    assert(s.subrange(0, i + 1).drop_last() =~= s.subrange(0, i));
}

pub(crate) proof fn lemma_split_nonempty(s: Seq<u8>, sep: u8)
    ensures
        split_on(s, sep).len() >= 1,
        split_on(s, sep).len() <= s.len() + 1,
    decreases s.len(),
{
    if s.len() > 0 {
        lemma_split_nonempty(s.drop_last(), sep);
    }
}

/// The ranges of the pieces of `input[start..end]` between occurrences of `sep`.
pub(crate) fn split_ranges(input: &[u8], start: usize, end: usize, sep: u8) -> (ranges: Vec<(usize, usize)>)
    requires
        start <= end <= input@.len(),
    ensures
        ranges@.len() == split_on(input@.subrange(start as int, end as int), sep).len(),
        forall|k: int| 0 <= k < ranges@.len() ==> {
            let (a, b) = #[trigger] ranges@[k];
            &&& start <= a <= b <= end
            &&& input@.subrange(a as int, b as int) == split_on(input@.subrange(start as int, end as int), sep)[k]
        },
{
    let ghost s = input@.subrange(start as int, end as int);
    let mut ranges: Vec<(usize, usize)> = Vec::new();
    let mut piece_start = start;
    let mut i = start;
    proof { assert(s.subrange(0, 0) =~= Seq::<u8>::empty()); }
    while i < end
        invariant
            start <= piece_start <= i <= end <= input@.len(),
            s == input@.subrange(start as int, end as int),
            ranges@.len() + 1 == split_on(s.subrange(0, i - start), sep).len(),
            forall|k: int| 0 <= k < ranges@.len() ==> {
                let (a, b) = #[trigger] ranges@[k];
                &&& start <= a <= b <= end
                &&& input@.subrange(a as int, b as int) == split_on(s.subrange(0, i - start), sep)[k]
            },
            input@.subrange(piece_start as int, i as int) == split_on(s.subrange(0, i - start), sep).last(),
        decreases end - i,
    {
        let ghost before = split_on(s.subrange(0, i - start), sep);
        proof {
            lemma_split_step(s, i - start, sep);
            lemma_split_nonempty(s.subrange(0, i - start), sep);
        }
        if input[i] == sep {
            ranges.push((piece_start, i));
            piece_start = i + 1;
            proof {
                assert(input@.subrange(piece_start as int, i + 1) =~= Seq::<u8>::empty());
            }
        } else {
            proof {
                assert(input@.subrange(piece_start as int, i + 1) =~= input@.subrange(piece_start as int, i as int).push(input@[i as int]));
            }
        }
        i = i + 1;
    }
    proof {
        assert(s.subrange(0, end - start) =~= s);
        lemma_split_nonempty(s, sep);
    }
    ranges.push((piece_start, end));
    ranges
}

pub(crate) proof fn lemma_trim_start_step(s: Seq<u8>, i: int, k: int)
    requires
        0 <= i <= s.len(),
        k == leading_ws_len(s.subrange(i, s.len() as int)),
        k > 0,
    ensures
        trim_start(s.subrange(i, s.len() as int)) == trim_start(s.subrange(i + k, s.len() as int)),
        i + k <= s.len(),
{
    assert(s.subrange(i, s.len() as int).subrange(k, s.len() - i) =~= s.subrange(i + k, s.len() as int));
}

proof fn lemma_trim_end_step(s: Seq<u8>, j: int, k: int)
    requires
        0 <= j <= s.len(),
        k == trailing_ws_len(s.subrange(0, j)),
        k > 0,
    ensures
        trim_end(s.subrange(0, j)) == trim_end(s.subrange(0, j - k)),
        k <= j,
{
    assert(s.subrange(0, j).subrange(0, j - k) =~= s.subrange(0, j - k));
}

/// The length of the whitespace character at `input[start..end]`'s start.
pub(crate) fn leading_ws(input: &[u8], start: usize, end: usize) -> (k: usize)
    requires
        start <= end <= input@.len(),
    ensures
        k == leading_ws_len(input@.subrange(start as int, end as int)),
{
    let n = end - start;
    if n >= 1 {
        let b = input[start];
        if b == 0x09 || b == 0x0a || b == 0x0b || b == 0x0c || b == 0x0d || b == 0x20 {
            return 1;
        }
    }
    if n >= 2 {
        let a = input[start];
        let b = input[start + 1];
        if a == 0xc2 && (b == 0x85 || b == 0xa0) {
            return 2;
        }
    }
    if n >= 3 {
        let a = input[start];
        let b = input[start + 1];
        let c = input[start + 2];
        if (a == 0xe1 && b == 0x9a && c == 0x80)
            || (a == 0xe2 && b == 0x80 && ((0x80 <= c && c <= 0x8a) || c == 0xa8 || c == 0xa9 || c == 0xaf))
            || (a == 0xe2 && b == 0x81 && c == 0x9f)
            || (a == 0xe3 && b == 0x80 && c == 0x80) {
            return 3;
        }
    }
    0
}

/// The length of the whitespace character at `input[start..end]`'s end.
fn trailing_ws(input: &[u8], start: usize, end: usize) -> (k: usize)
    requires
        start <= end <= input@.len(),
    ensures
        k == trailing_ws_len(input@.subrange(start as int, end as int)),
{
    let n = end - start;
    if n >= 1 {
        let b = input[end - 1];
        if b == 0x09 || b == 0x0a || b == 0x0b || b == 0x0c || b == 0x0d || b == 0x20 {
            return 1;
        }
    }
    if n >= 2 {
        let a = input[end - 2];
        let b = input[end - 1];
        if a == 0xc2 && (b == 0x85 || b == 0xa0) {
            return 2;
        }
    }
    if n >= 3 {
        let a = input[end - 3];
        let b = input[end - 2];
        let c = input[end - 1];
        if (a == 0xe1 && b == 0x9a && c == 0x80)
            || (a == 0xe2 && b == 0x80 && ((0x80 <= c && c <= 0x8a) || c == 0xa8 || c == 0xa9 || c == 0xaf))
            || (a == 0xe2 && b == 0x81 && c == 0x9f)
            || (a == 0xe3 && b == 0x80 && c == 0x80) {
            return 3;
        }
    }
    0
}

/// The range of `input[start..end]` with surrounding whitespace removed.
pub(crate) fn trim_range(input: &[u8], start: usize, end: usize) -> (range: (usize, usize))
    requires
        start <= end <= input@.len(),
    ensures
        start <= range.0 <= range.1 <= end,
        input@.subrange(range.0 as int, range.1 as int) == trim(input@.subrange(start as int, end as int)),
{
    let ghost s = input@.subrange(start as int, end as int);
    let mut a = start;
    while a < end
        invariant
            start <= a <= end <= input@.len(),
            s == input@.subrange(start as int, end as int),
            trim_start(s) == trim_start(input@.subrange(a as int, end as int)),
        ensures
            start <= a <= end,
            trim_start(s) == trim_start(input@.subrange(a as int, end as int)),
            a == end || leading_ws_len(input@.subrange(a as int, end as int)) == 0,
        decreases end - a,
    {
        let k = leading_ws(input, a, end);
        if k == 0 {
            break;
        }
        proof {
            lemma_trim_start_step(input@.subrange(0, end as int), a as int, k as int);
            assert(input@.subrange(0, end as int).subrange(a as int, end as int) =~= input@.subrange(a as int, end as int));
            assert(input@.subrange(0, end as int).subrange(a + k, end as int) =~= input@.subrange(a + k, end as int));
        }
        a = a + k;
    }
    proof {
        if a == end {
            assert(input@.subrange(a as int, end as int) =~= Seq::<u8>::empty());
        }
    }
    let ghost t = input@.subrange(a as int, end as int);
    let mut b = end;
    while b > a
        invariant
            start <= a <= b <= end <= input@.len(),
            t == input@.subrange(a as int, end as int),
            trim_end(t) == trim_end(input@.subrange(a as int, b as int)),
        ensures
            a <= b <= end,
            trim_end(t) == trim_end(input@.subrange(a as int, b as int)),
            b == a || trailing_ws_len(input@.subrange(a as int, b as int)) == 0,
        decreases b - a,
    {
        let k = trailing_ws(input, a, b);
        if k == 0 {
            break;
        }
        proof {
            lemma_trim_end_step(input@.subrange(a as int, input@.len() as int), (b - a) as int, k as int);
            assert(input@.subrange(a as int, input@.len() as int).subrange(0, b - a) =~= input@.subrange(a as int, b as int));
            assert(input@.subrange(a as int, input@.len() as int).subrange(0, b - a - k) =~= input@.subrange(a as int, b - k));
        }
        b = b - k;
    }
    proof {
        if b == a {
            assert(input@.subrange(a as int, b as int) =~= Seq::<u8>::empty());
        }
    }
    (a, b)
}

/// The value of a single digit byte in a radix.
fn digit(b: u8, radix: u32) -> (value: Option<u64>)
    requires
        radix == 10 || radix == 16,
    ensures
        value matches Some(v) ==> digit_value(b, radix) == Some(v as nat) && v < radix,
        value is None ==> digit_value(b, radix) is None,
{
    if 0x30 <= b && b <= 0x39 && ((b - 0x30) as u32) < radix {
        Some((b - 0x30) as u64)
    } else if radix == 16 && 0x61 <= b && b <= 0x66 {
        Some((b - 0x61 + 10) as u64)
    } else if radix == 16 && 0x41 <= b && b <= 0x46 {
        Some((b - 0x41 + 10) as u64)
    } else {
        None
    }
}

proof fn lemma_digits_value_monotone(s: Seq<u8>, i: int, radix: u32)
    requires
        0 <= i <= s.len(),
        radix >= 1,
    ensures
        digits_value(s.subrange(0, i), radix) <= digits_value(s, radix),
    decreases s.len() - i,
{
    if i < s.len() {
        lemma_digits_value_monotone(s, i + 1, radix);
        assert(s.subrange(0, i + 1).drop_last() =~= s.subrange(0, i));
        let p = digits_value(s.subrange(0, i), radix);
        assert(p * radix >= p) by (nonlinear_arith) requires radix >= 1;
    } else {
        assert(s.subrange(0, i) =~= s);
    }
}

/// Parses `input[start..end]` as a number in a radix with an optional `+`.
pub(crate) fn parse_radix_range(input: &[u8], start: usize, end: usize, radix: u32) -> (value: Option<u64>)
    requires
        start <= end <= input@.len(),
        radix == 10 || radix == 16,
    ensures
        value == parse_radix(input@.subrange(start as int, end as int), radix),
{
    let ghost s = input@.subrange(start as int, end as int);
    let mut a = start;
    if a < end && input[a] == 0x2b {
        a = a + 1;
    }
    let ghost d = input@.subrange(a as int, end as int);
    proof {
        if start < end && input@[start as int] == 0x2b {
            assert(s[0] == input@[start as int]);
            assert(d =~= s.subrange(1, s.len() as int));
        } else {
            assert(d =~= s);
        }
    }
    if a == end {
        return None;
    }
    let mut value: u64 = 0;
    let mut i = a;
    while i < end
        invariant
            start <= a <= i <= end <= input@.len(),
            radix == 10 || radix == 16,
            s == input@.subrange(start as int, end as int),
            d == (if s.len() > 0 && s[0] == 0x2b { s.subrange(1, s.len() as int) } else { s }),
            d == input@.subrange(a as int, end as int),
            all_digits(d.subrange(0, i - a), radix),
            value as nat == digits_value(d.subrange(0, i - a), radix),
        decreases end - i,
    {
        let ghost prefix = d.subrange(0, i - a);
        let ghost next = d.subrange(0, i - a + 1);
        proof {
            assert(next.drop_last() =~= prefix);
        }
        let dv = digit(input[i], radix);
        match dv {
            None => {
                proof {
                    assert(d[i - a] == input@[i as int]);
                    assert(digit_value(d[i - a], radix) is None);
                    assert(!all_digits(d, radix));
                    assert(parse_radix(s, radix) is None);
                }
                return None;
            },
            Some(v) => {
                proof {
                    assert(d[i - a] == input@[i as int]);
                    assert(next.last() == d[i - a]);
                    assert(digits_value(next, radix) == value * radix + v);
                    lemma_digits_value_monotone(d, i - a + 1, radix);
                }
                let scaled = value.checked_mul(radix as u64);
                match scaled {
                    None => {
                        proof {
                            assert(value * radix > u64::MAX);
                            assert(digits_value(next, radix) > u64::MAX);
                            assert(digits_value(d, radix) > u64::MAX);
                            assert(parse_radix(s, radix) is None);
                        }
                        return None;
                    },
                    Some(m) => {
                        let sum = m.checked_add(v);
                        match sum {
                            None => {
                                return None;
                            },
                            Some(total) => {
                                proof {
                                    assert forall|j: int| 0 <= j < next.len() implies (#[trigger] digit_value(next[j], radix)) is Some by {
                                        if j < prefix.len() {
                                            assert(next[j] == prefix[j]);
                                        }
                                    }
                                }
                                value = total;
                            },
                        }
                    },
                }
            },
        }
        i = i + 1;
    }
    proof { assert(d.subrange(0, end - a) =~= d); }
    Some(value)
}

/// Parses a trimmed field: hexadecimal after `0x` or `0X`, decimal otherwise.
fn parse_field(input: &[u8], start: usize, end: usize) -> (value: Option<u64>)
    requires
        start <= end <= input@.len(),
    ensures
        value == parse_u64_spec(input@.subrange(start as int, end as int)),
{
    if end - start >= 2 && input[start] == 0x30 && (input[start + 1] == 0x78 || input[start + 1] == 0x58) {
        proof {
            assert(input@.subrange(start as int, end as int).subrange(2, end - start) =~= input@.subrange(start + 2, end as int));
        }
        parse_radix_range(input, start + 2, end, 16)
    } else {
        parse_radix_range(input, start, end, 10)
    }
}

proof fn lemma_parse_lines_error_sticks(lines: Seq<Seq<u8>>, count: int, later: int)
    requires
        0 <= count <= later,
        parse_lines(lines, count) is Err,
    ensures
        parse_lines(lines, later) == parse_lines(lines, count),
    decreases later - count,
{
    if later > count {
        lemma_parse_lines_error_sticks(lines, count, later - 1);
    }
}

/// Reads one line of the trace.
fn read_line(input: &[u8], start: usize, end: usize) -> (content: Option<Option<RegisterWrite>>)
    requires
        start <= end <= input@.len(),
    ensures
        content == (match line_content(input@.subrange(start as int, end as int)) {
            LineContent::Skip => Some(None),
            LineContent::Row(w) => Some(Some(w)),
            LineContent::Malformed => None,
        }),
{
    let (a, b) = trim_range(input, start, end);
    if a == b || input[a] == 0x23 {
        return Some(None);
    }
    let fields = split_ranges(input, a, b, 0x2c);
    if fields.len() != 4 {
        return None;
    }
    let (s0, e0) = fields[0];
    let (s1, e1) = fields[1];
    let (s2, e2) = fields[2];
    let (s3, e3) = fields[3];
    let (t0, u0) = trim_range(input, s0, e0);
    let (t1, u1) = trim_range(input, s1, e1);
    let (t2, u2) = trim_range(input, s2, e2);
    let (t3, u3) = trim_range(input, s3, e3);
    let time_us = parse_field(input, t0, u0);
    let tick = parse_field(input, t1, u1);
    let address = parse_field(input, t2, u2);
    let value = parse_field(input, t3, u3);
    match (time_us, tick, address, value) {
        (Some(time_us), Some(tick), Some(address), Some(value)) => {
            if address <= 0xffff && value <= 0xff {
                Some(Some(RegisterWrite { time_us, tick, address: address as u16, value: value as u8 }))
            } else {
                None
            }
        },
        _ => None,
    }
}

/// Parses a chip trace: one `time_us,tick,address,value` row per line, with
/// blank lines and `#` comments ignored; numbers are decimal or `0x` hex.
pub fn parse_trace_csv(input: &[u8]) -> (result: Result<Vec<RegisterWrite>, TraceError>)
    ensures
        match parse_trace_spec(input@) {
            Ok(rows) => result matches Ok(v) && v@ == rows,
            Err(line) => result matches Err(e) && e.line == line,
        },
{
    if !is_utf8(input) {
        return Err(TraceError { line: 1 });
    }
    proof { assert(input@.subrange(0, input@.len() as int) =~= input@); }
    let lines = split_ranges(input, 0, input.len(), 0x0a);
    let ghost pieces = split_on(input@, 0x0a);
    let mut writes: Vec<RegisterWrite> = Vec::new();
    let mut index: usize = 0;
    while index < lines.len()
        invariant
            0 <= index <= lines@.len(),
            vstd::utf8::valid_utf8(input@),
            lines@.len() == pieces.len(),
            pieces == split_on(input@, 0x0a),
            forall|k: int| 0 <= k < lines@.len() ==> {
                let (a, b) = #[trigger] lines@[k];
                &&& 0 <= a <= b <= input@.len()
                &&& input@.subrange(a as int, b as int) == pieces[k]
            },
            parse_lines(pieces, index as int) == Ok::<Seq<RegisterWrite>, int>(writes@),
        decreases lines@.len() - index,
    {
        let (a, b) = lines[index];
        let content = read_line(input, a, b);
        match content {
            None => {
                proof {
                    assert(line_content(pieces[index as int]) matches LineContent::Malformed);
                    assert(parse_lines(pieces, index + 1) == Err::<Seq<RegisterWrite>, int>(index + 1));
                    lemma_parse_lines_error_sticks(pieces, index + 1, pieces.len() as int);
                }
                return Err(TraceError { line: index + 1 });
            },
            Some(None) => {},
            Some(Some(w)) => {
                writes.push(w);
            },
        }
        index = index + 1;
    }
    Ok(writes)
}

} // verus!
