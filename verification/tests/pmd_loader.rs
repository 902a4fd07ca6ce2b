use pmd_core::pmd::{delesc, parse_song, zen2tohan, MainFormat, MainLayout};
use pmd_core::Error;

fn set_u16(main: &mut [u8], mml_offset: usize, value: u16) {
    let bytes = value.to_le_bytes();
    main[1 + mml_offset..1 + mml_offset + 2].copy_from_slice(&bytes);
}

fn set_bytes(main: &mut [u8], mml_offset: usize, bytes: &[u8]) {
    main[1 + mml_offset..1 + mml_offset + bytes.len()].copy_from_slice(bytes);
}

fn metadata_song() -> Vec<u8> {
    let mut main = vec![0u8; 0x100];
    main[1] = 0x1a;
    main[2] = 0;
    set_u16(&mut main, 0x18, 0x40);
    set_u16(&mut main, 0x3c, 0x50);
    main[1 + 0x3e] = 0x40;

    let offsets = [0x70u16, 0x80, 0x90, 0xa0, 0xb0];
    for (index, offset) in offsets.into_iter().enumerate() {
        set_u16(&mut main, 0x50 + index * 2, offset);
    }

    set_bytes(&mut main, 0x70, b"bank.PPC\0");
    set_bytes(&mut main, 0x80, &[0x93, 0xfa, 0x96, 0x7b, b' ', b'T', b'i', b't', b'l', b'e', 0]);
    set_bytes(&mut main, 0x90, b"Composer\0");
    set_bytes(&mut main, 0xa0, b"Arranger\0");
    set_bytes(&mut main, 0xb0, b"Comment\x1b[2Jvisible\0");
    main
}

fn companion_song() -> Vec<u8> {
    let mut main = vec![0u8; 0x100];
    main[1] = 0x1a;
    main[2] = 0;
    set_u16(&mut main, 0x18, 0x40);
    set_u16(&mut main, 0x3c, 0x50);
    main[1 + 0x3e] = 0x48;
    main[1 + 0x3f] = 0xfe;

    let offsets = [0x70u16, 0x80, 0x90, 0xa0, 0xb0];
    for (index, offset) in offsets.into_iter().enumerate() {
        set_u16(&mut main, 0x50 + index * 2, offset);
    }
    set_bytes(&mut main, 0x70, b"bank.PPZ\0");
    set_bytes(&mut main, 0x80, b"bank.PPS\0");
    set_bytes(&mut main, 0x90, b"bank.PPC\0");
    set_bytes(&mut main, 0xa0, b"Title\0");
    set_bytes(&mut main, 0xb0, b"Composer\0");
    main
}

#[test]
fn rejects_truncated_and_invalid_loader_headers() {
    assert_eq!(parse_song(&[]), Err(Error::TruncatedFile));
    assert_eq!(parse_song(&[0, 0x1a]), Err(Error::TruncatedFile));
    assert_eq!(parse_song(&[0x10, 0x1a, 0]), Err(Error::InvalidHeader));
    assert_eq!(parse_song(&[0, 0x19, 0]), Err(Error::InvalidHeader));
    assert_eq!(parse_song(&[0, 0x1a, 1]), Err(Error::InvalidHeader));
}

#[test]
fn rejects_main_streams_larger_than_the_cpp_work_area() {
    let mut main = vec![0u8; 64 * 1024 + 1];
    main[..3].copy_from_slice(&[0, 0x1a, 0]);
    assert_eq!(parse_song(&main), Err(Error::FileTooLarge));
}

#[test]
fn parses_header_layout_and_sjis_display_memos() {
    let song = parse_song(&metadata_song()).expect("synthetic PMD should parse");
    assert_eq!(song.format, MainFormat::V1a);
    assert_eq!(song.flags, 0);
    assert_eq!(song.metadata.title.as_deref(), Some("日本 Title"));
    assert_eq!(song.metadata.composer.as_deref(), Some("Composer"));
    assert_eq!(song.metadata.arranger.as_deref(), Some("Arranger"));
    assert_eq!(song.metadata.comment.as_deref(), Some("Commentvisible"));
    assert_eq!(song.companions.pcm.as_deref(), Some("bank.PPC"));
    assert_eq!(song.companions.pps, None);
    assert_eq!(song.companions.ppz, None);
    assert_eq!(song.main.len(), 0x100);
    assert_eq!(
        song.layout,
        Some(MainLayout {
            part_offsets: [0x1a, 0, 0, 0, 0, 0, 0, 0, 0, 0, 0],
            rhythm_table_offset: 0,
            program_area_offset: 0x40,
        })
    );
}

#[test]
fn marker_extensions_shift_companion_selectors() {
    let song = parse_song(&companion_song()).expect("synthetic PMD should parse");
    assert_eq!(song.companions.pcm.as_deref(), Some("bank.PPC"));
    assert_eq!(song.companions.pps.as_deref(), Some("bank.PPS"));
    assert_eq!(song.companions.ppz.as_deref(), Some("bank.PPZ"));
    assert_eq!(song.metadata.title.as_deref(), Some("Title"));
    assert_eq!(song.metadata.composer.as_deref(), Some("Composer"));

    assert_eq!(song.metadata.arranger, None);
    assert_eq!(song.metadata.comment, None);
}

#[test]
fn ports_halfwidth_and_escape_cleanup() {
    assert_eq!(zen2tohan(&[0x85, 0x40, 0x85, 0x60, 0x85, 0x7f]), b"!A");
    assert_eq!(zen2tohan(&[0x85, 0xdd]), &[0xdf]);
    assert_eq!(zen2tohan(&[0x85, 0xde, 0x85, 0xdf]), &[0x85, 0xde, 0x85, 0xdf]);
    assert_eq!(delesc(b"A\x1b[2JB"), b"AB");
    assert_eq!(delesc(b"A\x1b=12B"), b"AB");
    assert_eq!(delesc(b"A\x1b)1B"), b"AB");
    assert_eq!(delesc(b"A\x1b!1B"), b"AB");
}

#[test]
fn halfwidth_voiced_kana_pairs_follow_the_driver_table() {
    assert_eq!(zen2tohan(&[0x85, 0xe3, 0x85, 0xf2]), &[0xb3, 0xde, 0xc4, 0xde]);
    assert_eq!(zen2tohan(&[0x85, 0xf3, 0x85, 0xf4, 0x85, 0xfc]), &[0xca, 0xde, 0xca, 0xdf, 0xce, 0xdf]);
    assert_eq!(zen2tohan(&[0x88, 0x9f, 0x85]), &[0x88, 0x9f, 0x85]);
    assert_eq!(delesc(b"\x1b[\x88\x9fmX"), b"X");
    assert_eq!(delesc(b"A\x1b"), b"A");
}

#[test]
fn accepts_the_towns_header_variant_without_metadata() {
    let mut main = vec![0u8; 0x1a];
    main[..3].copy_from_slice(&[0xff, 0x18, 0]);
    let song = parse_song(&main).expect("Towns header should be accepted");
    assert_eq!(song.format, MainFormat::V18);
    assert_eq!(song.metadata, Default::default());
}

#[test]
fn plain_texts_pass_escape_removal_and_halfwidth_conversion_unchanged() {
    let text = b"PLAIN TEXT 123".to_vec();
    assert_eq!(delesc(&text), text);
    assert_eq!(zen2tohan(&text), text);
    assert!(delesc(b"\x1b[1mA\x1b[0m").len() <= 11);
}
