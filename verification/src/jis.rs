use vstd::prelude::*;

verus! {

/// The Unicode code point of a JIS X 0201 code: ASCII as itself, the
/// half-width katakana (0xa1 to 0xdf) from U+FF61 on.
pub open spec fn jis0201_spec(encoding: u32) -> Option<u32> {
    if 0x20 <= encoding <= 0x7e {
        Some(encoding)
    } else if 0xa1 <= encoding <= 0xdf {
        Some((0xff61 + encoding - 0xa1) as u32)
    } else {
        None
    }
}

pub fn jis0201_codepoint(encoding: u32) -> (codepoint: Option<u32>)
    ensures
        codepoint == jis0201_spec(encoding),
{
    if 0x20 <= encoding && encoding <= 0x7e {
        Some(encoding)
    } else if 0xa1 <= encoding && encoding <= 0xdf {
        Some(0xff61 + encoding - 0xa1)
    } else {
        None
    }
}

/// The text that the EUC-JP decoder of `encoding_rs` produces from some
/// bytes, and whether it met malformed input.
pub uninterp spec fn euc_jp_decoded(bytes: Seq<u8>) -> (Seq<char>, bool);

/// Decodes EUC-JP bytes with `encoding_rs::EUC_JP.decode`, returning the
/// text and whether malformed sequences were replaced. Nothing of the
/// decoding itself is stated here.
#[verifier::external_body]
fn decode_euc_jp(bytes: &[u8]) -> (decoded: (String, bool))
    ensures
        (decoded.0@, decoded.1) == euc_jp_decoded(bytes@),
{
    let (text, _, had_errors) = encoding_rs::EUC_JP.decode(bytes);
    (text.into_owned(), had_errors)
}

/// Why a JIS X 0208 code has no single code point.
#[derive(Clone, Copy, Debug, PartialEq, Eq, Structural)]
pub enum CodepointError {
    Undecodable,
    SeveralCodepoints,
}

/// The EUC-JP bytes of a JIS X 0208 row and cell.
pub open spec fn euc_jp_bytes(encoding: u32) -> Seq<u8> {
    seq![((encoding >> 8u32) + 0x80) as u8, ((encoding & 0xff) + 0x80) as u8]
}

/// Whether a code is a JIS X 0208 row and cell (both 0x21 to 0x7e).
pub open spec fn jis0208_code(encoding: u32) -> bool {
    0x21 <= (encoding >> 8u32) <= 0x7e && 0x21 <= (encoding & 0xff) <= 0x7e
}

/// What the decoded text of a JIS X 0208 code gives: its one code point,
/// nothing for empty text, an error for malformed input or several code
/// points.
pub open spec fn codepoint_of(decoded: (Seq<char>, bool)) -> Result<Option<u32>, CodepointError> {
    if decoded.1 {
        Err(CodepointError::Undecodable)
    } else if decoded.0.len() == 0 {
        Ok(None)
    } else if decoded.0.len() > 1 {
        Err(CodepointError::SeveralCodepoints)
    } else {
        Ok(Some(decoded.0[0] as u32))
    }
}

/// The code point of a JIS X 0208 code, decoded as EUC-JP; codes outside
/// the 94 by 94 table have none.
pub fn jis0208_codepoint(encoding: u32) -> (result: Result<Option<u32>, CodepointError>)
    ensures
        !jis0208_code(encoding) ==> result == Ok::<Option<u32>, CodepointError>(None),
        jis0208_code(encoding) ==> result == codepoint_of(euc_jp_decoded(euc_jp_bytes(encoding))),
{
    let row = encoding >> 8;
    let cell = encoding & 0xff;
    if !(0x21 <= row && row <= 0x7e) || !(0x21 <= cell && cell <= 0x7e) {
        return Ok(None);
    }
    let bytes: [u8; 2] = [(row + 0x80) as u8, (cell + 0x80) as u8];
    assert(bytes@ =~= euc_jp_bytes(encoding));
    let (decoded, had_errors) = decode_euc_jp(&bytes);
    codepoint_from_text(decoded.as_str(), had_errors)
}

/// The code point a decoded JIS X 0208 text stands for.
pub fn codepoint_from_text(text: &str, had_errors: bool) -> (result: Result<Option<u32>, CodepointError>)
    ensures
        result == codepoint_of((text@, had_errors)),
{
    if had_errors {
        return Err(CodepointError::Undecodable);
    }
    let length = text.unicode_len();
    if length == 0 {
        Ok(None)
    } else if length > 1 {
        Err(CodepointError::SeveralCodepoints)
    } else {
        Ok(Some(text.get_char(0) as u32))
    }
}

} // verus!
