//! The addresses the probes touch and the values they look for.

use vstd::prelude::*;

verus! {

/// Display control register, 16 bits.
pub const REG_DISPCNT: u32 = 0x0400_0000;

/// Display mode 0.
pub const MODE_0: u16 = 0;

/// The bit of the display control register that shows background 0.
pub const BG0_ENABLE: u16 = 0x0100;

/// Memory control register, 32 bits. Bits 24 to 27 hold the wait-state code of
/// the external work RAM.
pub const MEMCTRL_REGISTER: u32 = 0x0400_0800;

/// The memory control word with wait-state code 0xD: real hardware may show
/// it after boot, and it is the last word that works on a Game Boy Micro.
pub const MEMCTRL_DEFAULT: u32 = 0x0D00_0020;

/// The memory control word with wait-state code 0xE, the shortest wait state
/// and the last code that the sweep tries: real hardware may show it after
/// boot, and it is the last word that works on a Game Boy Advance.
pub const MEMCTRL_FASTEST: u32 = 0x0E00_0020;

/// The largest wait-state code that the sweep tries.
pub const LAST_TIMING_CODE: u32 = 0xE;

/// First word of the external work RAM, used as scratch space.
pub const EWRAM_STATIC_DATA: u32 = 0x0200_0000;

/// The word the round-trip test writes and expects back.
pub const RAM_TEST_PATTERN: u32 = 0x7071_7518;

/// mGBA's debug enable register, 16 bits.
pub const REG_MGBA_ENABLE: u32 = 0x04FF_F780;

/// Written to the debug enable register to ask for the debug channel.
pub const MGBA_ENABLE_REQUEST: u16 = 0xC0DE;

/// Read back from the debug enable register once the channel is on.
pub const MGBA_ENABLE_ACK: u16 = 0x1DEA;

/// Where no$gba keeps its seven-byte signature.
pub const NOCASH_SIG: u32 = 0x04FF_FA00;

/// Length of no$gba's signature in bytes.
pub const NOCASH_SIG_LEN: u32 = 7;

/// Added to the firmware checksum: the sum wraps to zero for the firmware
/// of a Nintendo DS.
pub const DS_CHECKSUM_COMPLEMENT: u32 = 0x4551_E780;

/// The checksum of the Game Boy Advance firmware in a Nintendo DS.
pub const DS_FIRMWARE_CHECKSUM: u32 = 0xBAAE_1880;

} // verus!
