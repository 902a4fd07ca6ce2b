use pmd_core::pmd::banks::{pcm_fallback_name, pps_first_lookup_name, ppz_lookup_names};
use pmd_core::pmd::banks::{
    extension_is, has_extension, load_companions, lookup_names, normalize_lower_name, normalize_name,
    replace_extension, CompanionLoadError,
    decode_pvi_samples, AdpcmBank, AdpcmFormat, P86Bank, PpsBank, PpzBank, PPC_HEADER_SIZE, PPS_HEADER_SIZE,
    PPZ_PVI_HEADER_SIZE, PPZ_PZI_HEADER_SIZE, PVI_ADPCM_HEADER_SIZE,
};

use pmd_core::pmd::CompanionNames;
use pmd_core::FileProvider;

struct Files {
    name: &'static str,
    bytes: Vec<u8>,
}

impl FileProvider for Files {
    fn get(&self, name: &str) -> Option<&[u8]> {
        (name == self.name).then_some(self.bytes.as_slice())
    }
}

fn empty_ppc_for_lookup() -> Vec<u8> {
    let mut ppc = vec![0u8; PPC_HEADER_SIZE];
    ppc[..30].copy_from_slice(b"ADPCM DATA for  PMD ver.4.4-  ");
    set_u16(&mut ppc, 30, 0x26);
    ppc
}

fn set_u16(bytes: &mut [u8], offset: usize, value: u16) {
    bytes[offset..offset + 2].copy_from_slice(&value.to_le_bytes());
}

fn set_u24(bytes: &mut [u8], offset: usize, value: u32) {
    bytes[offset..offset + 3].copy_from_slice(&[value as u8, (value >> 8) as u8, (value >> 16) as u8]);
}

#[test]
fn parses_ppc_and_pvi_adpcm_block_addresses() {
    let mut ppc = vec![0u8; PPC_HEADER_SIZE + 64];
    ppc[..30].copy_from_slice(b"ADPCM DATA for  PMD ver.4.4-  ");
    set_u16(&mut ppc, 30, 0x28);
    set_u16(&mut ppc, 32, 0x26);
    set_u16(&mut ppc, 34, 0x28);
    let ppc_bank = AdpcmBank::parse(&ppc).expect("synthetic PPC");
    assert_eq!(ppc_bank.format, AdpcmFormat::Ppc);
    assert_eq!(ppc_bank.sample_bytes(0).expect("sample").len(), 64);

    let mut pvi = vec![0u8; PVI_ADPCM_HEADER_SIZE + 96];
    pvi[..4].copy_from_slice(b"PVI2");
    pvi[10] = 2;
    set_u16(&mut pvi, 0x10, 0);
    set_u16(&mut pvi, 0x12, 2);
    let pvi_bank = AdpcmBank::parse(&pvi).expect("synthetic PVI");
    assert_eq!(pvi_bank.format, AdpcmFormat::Pvi8);
    assert_eq!(pvi_bank.sample_bytes(0).expect("sample").len(), 64);
}

#[test]
fn adpcm_banks_reject_bad_signatures_and_out_of_range_spans() {
    assert!(AdpcmBank::parse(b"nothing").is_err());
    let mut ppc = vec![0u8; PPC_HEADER_SIZE + 64];
    ppc[..30].copy_from_slice(b"ADPCM DATA for  PMD ver.4.4-  ");
    set_u16(&mut ppc, 30, 0x28);
    set_u16(&mut ppc, 32, 0x26);
    set_u16(&mut ppc, 34, 0x29);
    assert!(AdpcmBank::parse(&ppc).is_err());
    set_u16(&mut ppc, 34, 0x28);
    ppc.truncate(PPC_HEADER_SIZE + 63);
    assert!(AdpcmBank::parse(&ppc).is_err());
}

#[test]
fn parses_pps_and_p86_payloads_without_filesystem_access() {
    let mut pps = vec![0u8; PPS_HEADER_SIZE + 1];
    set_u16(&mut pps, 0, PPS_HEADER_SIZE as u16);
    set_u16(&mut pps, 2, 1);
    pps[PPS_HEADER_SIZE] = 0xab;
    let pps_bank = PpsBank::parse(&pps).expect("synthetic PPS");
    assert_eq!(pps_bank.sample_values(0).expect("sample"), &[10, 3]);

    let mut p86 = vec![0u8; 1552 + 3];
    set_u24(&mut p86, 0x10, 1552);
    set_u24(&mut p86, 0x13, 3);
    p86[1552..].copy_from_slice(&[1, 2, 3]);
    let p86_bank = P86Bank::parse(&p86).expect("synthetic P86");
    assert_eq!(p86_bank.sample_bytes(0), Some(&[1, 2, 3][..]));
}

#[test]
fn pps_fade_reaches_fifteen_steps_over_the_last_samples() {
    let mut pps = vec![0u8; PPS_HEADER_SIZE + 100];
    set_u16(&mut pps, 0, PPS_HEADER_SIZE as u16);
    set_u16(&mut pps, 2, 100);
    for byte in &mut pps[PPS_HEADER_SIZE..] {
        *byte = 0xff;
    }
    let bank = PpsBank::parse(&pps).expect("synthetic PPS");
    let values = bank.sample_values(0).expect("sample");
    assert_eq!(values.len(), 200);
    assert_eq!(values[39], 15);
    assert_eq!(values[40], 15);
    assert_eq!(values[199], 0);
    set_u16(&mut pps, 2, 101);
    assert!(PpsBank::parse(&pps).is_err());
}

#[test]
fn parses_pzi_and_pvi_ppz_banks() {
    let mut pzi = vec![0u8; PPZ_PZI_HEADER_SIZE + 3];
    pzi[..4].copy_from_slice(b"PZI1");
    pzi[0x0b] = 1;
    pzi[0x20..0x24].copy_from_slice(&0u32.to_le_bytes());
    pzi[0x24..0x28].copy_from_slice(&3u32.to_le_bytes());
    pzi[0x30..0x32].copy_from_slice(&16000u16.to_le_bytes());
    pzi[PPZ_PZI_HEADER_SIZE..].copy_from_slice(&[1, 2, 3]);
    let pzi_bank = PpzBank::parse_pzi(&pzi).expect("synthetic PZI");
    assert!(!pzi_bank.from_pvi);
    assert_eq!(pzi_bank.sample_bytes(0), Some(&[1, 2, 3][..]));

    let mut pvi = vec![0u8; PPZ_PVI_HEADER_SIZE + 32];
    pvi[..4].copy_from_slice(b"PVI2");
    pvi[0x0b] = 1;
    set_u16(&mut pvi, 0x10, 0);
    set_u16(&mut pvi, 0x12, 0);
    let pvi_bank = PpzBank::parse_pvi(&pvi).expect("synthetic PPZ PVI");
    assert!(pvi_bank.from_pvi);
    assert_eq!(pvi_bank.sample_bytes(0).expect("sample").len(), 64);
}

#[test]
fn pvi_decoding_follows_the_adpcm_step_tables() {
    let samples = decode_pvi_samples(&[0x7f, 0x08], 4).expect("enough source");
    assert_eq!(samples, vec![129, 128, 128, 128]);
    assert_eq!(decode_pvi_samples(&[0x00], 4), None);
    assert_eq!(decode_pvi_samples(&[0x00], 3).map(|v| v.len()), Some(2));
}

#[test]
fn companion_lookup_normalizes_case_and_replaces_extensions() {
    let mut ppc = vec![0u8; PPC_HEADER_SIZE];
    ppc[..30].copy_from_slice(b"ADPCM DATA for  PMD ver.4.4-  ");
    set_u16(&mut ppc, 30, 0x26);
    let files = Files {
        name: "BANK.PPC",
        bytes: ppc,
    };
    let banks = load_companions(
        &CompanionNames {
            pcm: Some("bank.P86".into()),
            ..CompanionNames::default()
        },
        &files,
    )
    .expect("case-insensitive PPC fallback");
    assert_eq!(banks.adpcm.expect("ADPCM bank").format, AdpcmFormat::Ppc);

    let files = Files {
        name: "bank.ppc",
        bytes: empty_ppc_for_lookup(),
    };
    let banks = load_companions(
        &CompanionNames {
            pcm: Some("BANK.PPC".into()),
            ..CompanionNames::default()
        },
        &files,
    )
    .expect("reverse case-insensitive lookup");
    assert!(banks.adpcm.is_some());
}

#[test]
fn companion_names_are_normalized_and_extensions_replaced() {
    assert_eq!(normalize_name("ab/Cd.x"), "AB/CD.X");
    assert_eq!(normalize_lower_name("AB/Cd.X"), "ab/cd.x");
    assert!(extension_is("dir.v/file.pzi", "PZI"));
    assert!(!extension_is("dir.pzi/file", "PZI"));
    assert!(has_extension("a.b"));
    assert!(!has_extension("a."));
    assert_eq!(replace_extension("dir.v/file", ".PZI"), "dir.v/file.PZI");
    assert_eq!(replace_extension("song.p86", ".PPC"), "song.PPC");
    assert_eq!(lookup_names("a\\Bc"), vec!["a\\Bc", "A\\BC", "a\\bc", "Bc", "BC", "bc"]);
    assert_eq!(lookup_names("X"), vec!["X", "x"]);
}

#[test]
fn companion_loading_reports_missing_and_invalid_lists() {
    let files = Files { name: "none", bytes: Vec::new() };
    let none = load_companions(&CompanionNames::default(), &files).expect("nothing to load");
    assert!(none.adpcm.is_none() && none.p86.is_none() && none.pps.is_none());
    let missing = load_companions(
        &CompanionNames { pps: Some("drums".into()), ..CompanionNames::default() },
        &files,
    );
    assert_eq!(missing, Err(CompanionLoadError::Missing));
    let invalid = load_companions(
        &CompanionNames { ppz: Some("a,b,c".into()), ..CompanionNames::default() },
        &files,
    );
    assert_eq!(invalid, Err(CompanionLoadError::Invalid));
    let empty_second = load_companions(
        &CompanionNames { ppz: Some("a,".into()), ..CompanionNames::default() },
        &files,
    );
    assert_eq!(empty_second, Err(CompanionLoadError::Invalid));
    let pmb = load_companions(
        &CompanionNames { ppz: Some("voices.pmb".into()), ..CompanionNames::default() },
        &files,
    )
    .expect("PMB banks are skipped");
    assert!(pmb.ppz[0].is_none());
    let bad = Files { name: "BANK.PPC", bytes: vec![1, 2, 3] };
    let result = load_companions(
        &CompanionNames { pcm: Some("bank.ppc".into()), ..CompanionNames::default() },
        &bad,
    );
    assert_eq!(result, Err(CompanionLoadError::Invalid));
}

#[test]
fn lookup_plans_name_the_fallbacks() {
    assert_eq!(pcm_fallback_name("bank.p86"), "bank.PPC");
    assert_eq!(pcm_fallback_name("BANK.PPC"), "BANK.P86");
    assert_eq!(pps_first_lookup_name("drums.pps"), "drums.pps");
    assert_eq!(pps_first_lookup_name("drums"), "drums.PPS");
    assert_eq!(ppz_lookup_names("set.pmb"), Ok(None));
    assert_eq!(ppz_lookup_names("a,b.pvi"), Ok(Some(vec![String::from("a.PZI"), String::from("b.pvi")])));
    assert_eq!(ppz_lookup_names("a,"), Err(CompanionLoadError::Invalid));
    assert_eq!(ppz_lookup_names(",a"), Err(CompanionLoadError::Invalid));
    assert_eq!(ppz_lookup_names("a,b,c"), Err(CompanionLoadError::Invalid));
}
