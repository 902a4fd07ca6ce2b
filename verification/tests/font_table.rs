use pmd_core::font::{collect_font_glyphs, encode_font_table, parse_bdf, BdfError, BdfField, BdfGlyph, FontError, FontGlyph};

fn glyph_text(encoding: &str, width: u32, rows: &[&str]) -> String {
    let mut text = format!("STARTCHAR g{encoding}\nENCODING {encoding}\nSWIDTH 500 0\nBBX {width} 16 0 -2\nBITMAP\n");
    for row in rows {
        text.push_str(row);
        text.push('\n');
    }
    text.push_str("ENDCHAR\n");
    text
}

fn sixteen(row: &str) -> Vec<&str> {
    vec![row; 16]
}

#[test]
fn reads_a_narrow_and_a_wide_glyph() {
    let mut text = String::from("STARTFONT 2.1\nFONT -shinonome\nCHARS 2\n");
    text.push_str(&glyph_text("65", 8, &sixteen("81")));
    text.push_str(&glyph_text("9250", 16, &sixteen("8001")));
    text.push_str("ENDFONT\n");
    let glyphs = parse_bdf(text.as_bytes()).expect("valid font");
    assert_eq!(
        glyphs,
        vec![
            BdfGlyph { encoding: 65, rows: [0x8100; 16] },
            BdfGlyph { encoding: 9250, rows: [0x8001; 16] },
        ]
    );
}

#[test]
fn trims_lines_and_accepts_crlf_and_a_missing_final_newline() {
    let text = glyph_text("66", 8, &sixteen("  ff\t")).replace('\n', "\r\n");
    let text = text.trim_end().to_owned();
    let glyphs = parse_bdf(text.as_bytes()).expect("valid font");
    assert_eq!(glyphs, vec![BdfGlyph { encoding: 66, rows: [0xff00; 16] }]);
}

#[test]
fn reports_each_kind_of_malformed_font() {
    assert_eq!(parse_bdf(&[0x53, 0xff]), Err(BdfError::NotText));
    assert_eq!(parse_bdf(b"STARTCHAR a\nSTARTCHAR b\n"), Err(BdfError::NestedStartChar));
    assert_eq!(
        parse_bdf(b"STARTCHAR a\nENCODING -1\n"),
        Err(BdfError::InvalidNumber { field: BdfField::Encoding, value: b"-1".to_vec() })
    );
    assert_eq!(parse_bdf(b"STARTCHAR a\nBBX 8\n"), Err(BdfError::IncompleteBbx));
    assert_eq!(
        parse_bdf(b"STARTCHAR a\nBBX 8 x16\n"),
        Err(BdfError::InvalidNumber { field: BdfField::BbxHeight, value: b"x16".to_vec() })
    );
    assert_eq!(parse_bdf(b"STARTCHAR a\nENDCHAR\n"), Err(BdfError::MissingEncoding));
    assert_eq!(
        parse_bdf(b"STARTCHAR a\nENCODING 7\nBBX 12 16 0 0\nENDCHAR\n"),
        Err(BdfError::UnsupportedWidth { encoding: 7, width: Some(12) })
    );
    assert_eq!(
        parse_bdf(b"STARTCHAR a\nENCODING 7\nBBX 8 16 0 0\nBITMAP\n00\nENDCHAR\n"),
        Err(BdfError::NotSixteenRows { encoding: 7 })
    );
    assert_eq!(
        parse_bdf(b"STARTCHAR a\nENCODING 7\nBBX 8 16 0 0\nBITMAP\nzz\n"),
        Err(BdfError::InvalidBitmapRow { row: b"zz".to_vec() })
    );
    assert_eq!(parse_bdf(b"STARTCHAR a\nBITMAP\n00\n"), Err(BdfError::BitmapBeforeBbx));
    assert_eq!(parse_bdf(b"STARTCHAR a\nENCODING 7\n"), Err(BdfError::EndsInsideGlyph));
}

#[test]
fn lines_outside_glyphs_are_ignored() {
    assert_eq!(parse_bdf(b"COMMENT zz\nENDCHAR\nBITMAP\n"), Ok(vec![]));
}

#[test]
fn first_glyph_of_a_codepoint_wins_and_the_table_is_sorted() {
    let kanji = BdfGlyph { encoding: 0x456c, rows: [1; 16] };
    let ascii_a = BdfGlyph { encoding: 0x41, rows: [2; 16] };
    let ascii_a_again = BdfGlyph { encoding: 0x41, rows: [3; 16] };
    let outside = BdfGlyph { encoding: 0x10, rows: [4; 16] };
    let table = collect_font_glyphs(&[kanji, outside], &[ascii_a, ascii_a_again, outside]).expect("valid codes");
    assert_eq!(
        table,
        vec![
            FontGlyph { codepoint: 0x41, rows: [2; 16] },
            FontGlyph { codepoint: '東' as u32, rows: [1; 16] },
        ]
    );
}

#[test]
fn jis0208_glyphs_come_before_jis0201_ones() {
    let wide_space = BdfGlyph { encoding: 0x2121, rows: [5; 16] };
    let table = collect_font_glyphs(&[wide_space], &[]).expect("valid code");
    assert_eq!(table, vec![FontGlyph { codepoint: 0x3000, rows: [5; 16] }]);
}

#[test]
fn encodes_the_font_table_layout() {
    let glyph = FontGlyph { codepoint: 0x3000, rows: [0x1234; 16] };
    let bytes = encode_font_table(&[glyph]).expect("one glyph");
    let mut expected = b"PMDK16\0\0".to_vec();
    expected.extend_from_slice(&1u32.to_le_bytes());
    expected.extend_from_slice(&1u32.to_le_bytes());
    expected.extend_from_slice(&28u32.to_le_bytes());
    expected.extend_from_slice(&0x3000u32.to_le_bytes());
    expected.extend_from_slice(&0u32.to_le_bytes());
    for _ in 0..16 {
        expected.extend_from_slice(&[0x12, 0x34]);
    }
    assert_eq!(bytes, expected);
    assert_eq!(encode_font_table(&[]), Err(FontError::NoGlyphs));
}
