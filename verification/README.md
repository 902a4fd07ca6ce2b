# pmd-core

A player library for PC-98 PMD music files (`.M`, `.M2`, `.M26`, `.M86`),
written in Verus: the song loader and sequencer, the companion sample banks,
the YM2608 (OPNA) emulation and the player that ties them together carry
`requires`/`ensures` contracts that Verus proves.

Layout:

- `src/pmd/` – the song format: headers, part streams and their commands,
  channel state and effects, timers, sample banks, register output.
- `src/opna/` – the chip: register file, FM operators and channels, SSG,
  rhythm and ADPCM engines, resampling, register traces and schedules.
- `src/player.rs` – loading a song with its companion files, ticking the
  sequencer on the driver's timers and rendering interleaved PCM.
- `src/visual.rs` – the per-channel display rows.
- `src/jis.rs`, `src/font.rs` – JIS code points and the BDF font converter
  behind the player's font table.
- `tests/` – tests of the library on concrete values.
- `app/` – the command-line tools (file I/O, floating-point output and the
  sinc resampler), which call the library.

`encoding_rs` decodes Shift_JIS and EUC-JP text; `libm` gives the sine of the
sinc resampler in `app/`.
