use vstd::prelude::*;

verus! {

/// Logarithmic attenuation of a quarter sine wave, one entry per phase step
/// (4.8 fixed point, larger means quieter).
pub const SIN_ATTENUATION: [u32; 256] = [
    0x859, 0x6c3, 0x607, 0x58b, 0x52e, 0x4e4, 0x4a6, 0x471, 0x443, 0x41a, 0x3f5, 0x3d3,
    0x3b5, 0x398, 0x37e, 0x365, 0x34e, 0x339, 0x324, 0x311, 0x2ff, 0x2ed, 0x2dc, 0x2cd,
    0x2bd, 0x2af, 0x2a0, 0x293, 0x286, 0x279, 0x26d, 0x261, 0x256, 0x24b, 0x240, 0x236,
    0x22c, 0x222, 0x218, 0x20f, 0x206, 0x1fd, 0x1f5, 0x1ec, 0x1e4, 0x1dc, 0x1d4, 0x1cd,
    0x1c5, 0x1be, 0x1b7, 0x1b0, 0x1a9, 0x1a2, 0x19b, 0x195, 0x18f, 0x188, 0x182, 0x17c,
    0x177, 0x171, 0x16b, 0x166, 0x160, 0x15b, 0x155, 0x150, 0x14b, 0x146, 0x141, 0x13c,
    0x137, 0x133, 0x12e, 0x129, 0x125, 0x121, 0x11c, 0x118, 0x114, 0x10f, 0x10b, 0x107,
    0x103, 0xff, 0xfb, 0xf8, 0xf4, 0xf0, 0xec, 0xe9, 0xe5, 0xe2, 0xde, 0xdb,
    0xd7, 0xd4, 0xd1, 0xcd, 0xca, 0xc7, 0xc4, 0xc1, 0xbe, 0xbb, 0xb8, 0xb5,
    0xb2, 0xaf, 0xac, 0xa9, 0xa7, 0xa4, 0xa1, 0x9f, 0x9c, 0x99, 0x97, 0x94,
    0x92, 0x8f, 0x8d, 0x8a, 0x88, 0x86, 0x83, 0x81, 0x7f, 0x7d, 0x7a, 0x78,
    0x76, 0x74, 0x72, 0x70, 0x6e, 0x6c, 0x6a, 0x68, 0x66, 0x64, 0x62, 0x60,
    0x5e, 0x5c, 0x5b, 0x59, 0x57, 0x55, 0x53, 0x52, 0x50, 0x4e, 0x4d, 0x4b,
    0x4a, 0x48, 0x46, 0x45, 0x43, 0x42, 0x40, 0x3f, 0x3e, 0x3c, 0x3b, 0x39,
    0x38, 0x37, 0x35, 0x34, 0x33, 0x31, 0x30, 0x2f, 0x2e, 0x2d, 0x2b, 0x2a,
    0x29, 0x28, 0x27, 0x26, 0x25, 0x24, 0x23, 0x22, 0x21, 0x20, 0x1f, 0x1e,
    0x1d, 0x1c, 0x1b, 0x1a, 0x19, 0x18, 0x17, 0x17, 0x16, 0x15, 0x14, 0x14,
    0x13, 0x12, 0x11, 0x11, 0x10, 0xf, 0xf, 0xe, 0xd, 0xd, 0xc, 0xc,
    0xb, 0xa, 0xa, 0x9, 0x9, 0x8, 0x8, 0x7, 0x7, 0x7, 0x6, 0x6,
    0x5, 0x5, 0x5, 0x4, 0x4, 0x4, 0x3, 0x3, 0x3, 0x2, 0x2, 0x2,
    0x2, 0x1, 0x1, 0x1, 0x1, 0x1, 0x1, 0x1, 0x0, 0x0, 0x0, 0x0,
    0x0, 0x0, 0x0, 0x0,
];

/// Mantissas of `2^(-x/256)` with the implicit leading bit set, pre-shifted
/// left by two so that a right shift by the integer part yields the volume.
pub const POWER: [u32; 256] = [
    0x1fe8, 0x1fd4, 0x1fbc, 0x1fa8, 0x1f90, 0x1f7c, 0x1f68, 0x1f50, 0x1f3c, 0x1f24, 0x1f10, 0x1efc,
    0x1ee4, 0x1ed0, 0x1eb8, 0x1ea4, 0x1e90, 0x1e7c, 0x1e64, 0x1e50, 0x1e3c, 0x1e28, 0x1e10, 0x1dfc,
    0x1de8, 0x1dd4, 0x1dc0, 0x1da8, 0x1d94, 0x1d80, 0x1d6c, 0x1d58, 0x1d44, 0x1d30, 0x1d1c, 0x1d08,
    0x1cf4, 0x1ce0, 0x1ccc, 0x1cb8, 0x1ca4, 0x1c90, 0x1c7c, 0x1c68, 0x1c54, 0x1c40, 0x1c2c, 0x1c18,
    0x1c08, 0x1bf4, 0x1be0, 0x1bcc, 0x1bb8, 0x1ba4, 0x1b94, 0x1b80, 0x1b6c, 0x1b58, 0x1b48, 0x1b34,
    0x1b20, 0x1b10, 0x1afc, 0x1ae8, 0x1ad4, 0x1ac4, 0x1ab0, 0x1aa0, 0x1a8c, 0x1a78, 0x1a68, 0x1a54,
    0x1a44, 0x1a30, 0x1a20, 0x1a0c, 0x19fc, 0x19e8, 0x19d8, 0x19c4, 0x19b4, 0x19a0, 0x1990, 0x197c,
    0x196c, 0x195c, 0x1948, 0x1938, 0x1924, 0x1914, 0x1904, 0x18f0, 0x18e0, 0x18d0, 0x18c0, 0x18ac,
    0x189c, 0x188c, 0x1878, 0x1868, 0x1858, 0x1848, 0x1838, 0x1824, 0x1814, 0x1804, 0x17f4, 0x17e4,
    0x17d4, 0x17c0, 0x17b0, 0x17a0, 0x1790, 0x1780, 0x1770, 0x1760, 0x1750, 0x1740, 0x1730, 0x1720,
    0x1710, 0x1700, 0x16f0, 0x16e0, 0x16d0, 0x16c0, 0x16b0, 0x16a0, 0x1690, 0x1680, 0x1670, 0x1664,
    0x1654, 0x1644, 0x1634, 0x1624, 0x1614, 0x1604, 0x15f8, 0x15e8, 0x15d8, 0x15c8, 0x15bc, 0x15ac,
    0x159c, 0x158c, 0x1580, 0x1570, 0x1560, 0x1550, 0x1544, 0x1534, 0x1524, 0x1518, 0x1508, 0x14f8,
    0x14ec, 0x14dc, 0x14d0, 0x14c0, 0x14b0, 0x14a4, 0x1494, 0x1488, 0x1478, 0x146c, 0x145c, 0x1450,
    0x1440, 0x1430, 0x1424, 0x1418, 0x1408, 0x13fc, 0x13ec, 0x13e0, 0x13d0, 0x13c4, 0x13b4, 0x13a8,
    0x139c, 0x138c, 0x1380, 0x1370, 0x1364, 0x1358, 0x1348, 0x133c, 0x1330, 0x1320, 0x1314, 0x1308,
    0x12f8, 0x12ec, 0x12e0, 0x12d4, 0x12c4, 0x12b8, 0x12ac, 0x12a0, 0x1290, 0x1284, 0x1278, 0x126c,
    0x1260, 0x1250, 0x1244, 0x1238, 0x122c, 0x1220, 0x1214, 0x1208, 0x11f8, 0x11ec, 0x11e0, 0x11d4,
    0x11c8, 0x11bc, 0x11b0, 0x11a4, 0x1198, 0x118c, 0x1180, 0x1174, 0x1168, 0x115c, 0x1150, 0x1144,
    0x1138, 0x112c, 0x1120, 0x1114, 0x1108, 0x10fc, 0x10f0, 0x10e4, 0x10d8, 0x10cc, 0x10c0, 0x10b4,
    0x10a8, 0x10a0, 0x1094, 0x1088, 0x107c, 0x1070, 0x1064, 0x1058, 0x1050, 0x1044, 0x1038, 0x102c,
    0x1020, 0x1018, 0x100c, 0x1000,
];

/// Envelope increments: eight packed nibbles per rate, one for each step of
/// the envelope counter's cycle.
pub const INCREMENT: [u32; 64] = [
    0x0, 0x0, 0x10101010, 0x10101010,
    0x10101010, 0x10101010, 0x11101110, 0x11101110,
    0x10101010, 0x10111010, 0x11101110, 0x11111110,
    0x10101010, 0x10111010, 0x11101110, 0x11111110,
    0x10101010, 0x10111010, 0x11101110, 0x11111110,
    0x10101010, 0x10111010, 0x11101110, 0x11111110,
    0x10101010, 0x10111010, 0x11101110, 0x11111110,
    0x10101010, 0x10111010, 0x11101110, 0x11111110,
    0x10101010, 0x10111010, 0x11101110, 0x11111110,
    0x10101010, 0x10111010, 0x11101110, 0x11111110,
    0x10101010, 0x10111010, 0x11101110, 0x11111110,
    0x10101010, 0x10111010, 0x11101110, 0x11111110,
    0x11111111, 0x21112111, 0x21212121, 0x22212221,
    0x22222222, 0x42224222, 0x42424242, 0x44424442,
    0x44444444, 0x84448444, 0x84848484, 0x88848884,
    0x88888888, 0x88888888, 0x88888888, 0x88888888,
];

/// The sine table index of a 10-bit phase: the second quarter mirrors the first.
pub open spec fn sin_index(phase: u32) -> int {
    if phase & 0x100 != 0 {
        (!phase & 0xff) as int
    } else {
        (phase & 0xff) as int
    }
}

/// The attenuation of `|sin|` at a phase (only the low nine bits count).
pub open spec fn abs_sin_attenuation_spec(phase: u32) -> u32 {
    SIN_ATTENUATION@[sin_index(phase)]
}

/// The linear volume of an attenuation in 4.8 fixed point.
pub open spec fn attenuation_to_volume_spec(attenuation: u32) -> u32 {
    POWER@[(attenuation & 0xff) as int] >> (attenuation >> 8)
}

/// The attenuation increment that `rate` applies at step `index` of its cycle.
pub open spec fn attenuation_increment_spec(rate: u32, index: u32) -> u32 {
    (INCREMENT@[rate as int] >> (4 * index)) & 0xf
}

pub fn abs_sin_attenuation(phase: u32) -> (attenuation: u32)
    ensures
        attenuation == abs_sin_attenuation_spec(phase),
        attenuation <= 0x859,
{
    let index = if phase & 0x100 != 0 { !phase & 0xff } else { phase & 0xff };
    assert(index < 256) by (bit_vector)
        requires index == (if phase & 0x100 != 0 { !phase & 0xff } else { phase & 0xff });
    proof { lemma_sin_table_bounded(index as int); }
    SIN_ATTENUATION[index as usize]
}

pub fn attenuation_to_volume(attenuation: u32) -> (volume: u32)
    requires
        attenuation < 0x2000,
    ensures
        volume == attenuation_to_volume_spec(attenuation),
        volume <= 0x1fe8,
{
    let fraction = attenuation & 0xff;
    let whole = attenuation >> 8;
    assert(fraction < 256 && whole < 32) by (bit_vector)
        requires fraction == attenuation & 0xff, whole == attenuation >> 8, attenuation < 0x2000;
    proof { lemma_power_table_bounded(fraction as int); }
    let entry = POWER[fraction as usize];
    assert(entry >> whole <= entry) by (bit_vector);
    entry >> whole
}

pub fn attenuation_increment(rate: u32, index: u32) -> (increment: u32)
    requires
        rate < 64,
        index < 8,
    ensures
        increment == attenuation_increment_spec(rate, index),
        increment <= 15,
{
    let packed = INCREMENT[rate as usize];
    assert((packed >> (4 * index)) & 0xf <= 15) by (bit_vector);
    (packed >> (4 * index)) & 0xf
}

proof fn lemma_sin_table_bounded(index: int)
    requires
        0 <= index < 256,
    ensures
        SIN_ATTENUATION@[index] <= 0x859,
{
    assert(forall|i: int| 0 <= i < 256 ==> #[trigger] SIN_ATTENUATION@[i] <= 0x859);
}

proof fn lemma_power_table_bounded(index: int)
    requires
        0 <= index < 256,
    ensures
        POWER@[index] <= 0x1fe8,
{
    assert(forall|i: int| 0 <= i < 256 ==> #[trigger] POWER@[i] <= 0x1fe8);
}

} // verus!
