use gba_env::backend::{Bus, RegisterBackend};
use gba_env::{
    dram_training, fold_checksum, identify_ds, identify_gba_micro, identify_gpsp, identify_mgba,
    identify_nocashba_debug, identify_real_gba, identify_vba, ram_overclock, ram_test,
};

/// One access as the simulated machine saw it.
#[derive(Clone, Debug, PartialEq, Eq)]
enum Op {
    Read8(u32, u8),
    Read16(u32, u16),
    Read32(u32, u32),
    Write16(u32, u16),
    Write32(u32, u32),
    Checksum(u32),
    Log(String),
}

/// A simulated register file with the quirks the probes look for.
#[derive(Clone, Debug)]
struct Machine {
    checksum: u32,
    /// The debug enable register acknowledges a request, as mGBA's does.
    acknowledges: bool,
    debug_enable: u16,
    signature: [u8; 7],
    memctrl: u32,
    /// Bit `code` is set when the work RAM keeps up with wait-state code `code`.
    working_codes: u16,
    scratch: u32,
    dispcnt: u16,
    /// Selecting the shortest wait state wipes the background bit, as on gpSP.
    overclock_wipes_display: bool,
    ops: Vec<Op>,
}

impl Machine {
    fn new() -> Self {
        Machine {
            checksum: 0xBAAE_187F,
            acknowledges: false,
            debug_enable: 0,
            signature: [0; 7],
            memctrl: 0x0300_0020,
            working_codes: 0x7FFF,
            scratch: 0x1234_5678,
            dispcnt: 0x0080,
            overclock_wipes_display: false,
            ops: Vec::new(),
        }
    }

    /// What a snapshot of the registers shows.
    fn registers(&self) -> (u16, u32, u32, u16) {
        (self.debug_enable, self.memctrl, self.scratch, self.dispcnt)
    }

    fn ram_works(&self) -> bool {
        let code = (self.memctrl >> 24) & 0xF;
        self.working_codes & (1 << code) != 0
    }
}

impl RegisterBackend for Machine {
    fn read8(&mut self, addr: u32) -> u8 {
        let value = match addr.checked_sub(0x04FF_FA00) {
            Some(offset) if offset < 7 => self.signature[offset as usize],
            _ => 0xFF,
        };
        self.ops.push(Op::Read8(addr, value));
        value
    }

    fn read16(&mut self, addr: u32) -> u16 {
        let value = match addr {
            0x04FF_F780 if self.acknowledges && self.debug_enable == 0xC0DE => 0x1DEA,
            0x04FF_F780 => self.debug_enable,
            0x0400_0000 => self.dispcnt,
            _ => 0xFFFF,
        };
        self.ops.push(Op::Read16(addr, value));
        value
    }

    fn read32(&mut self, addr: u32) -> u32 {
        let value = match addr {
            0x0400_0800 => self.memctrl,
            0x0200_0000 => self.scratch,
            _ => 0xFFFF_FFFF,
        };
        self.ops.push(Op::Read32(addr, value));
        value
    }

    fn write16(&mut self, addr: u32, value: u16) {
        self.ops.push(Op::Write16(addr, value));
        match addr {
            0x04FF_F780 => self.debug_enable = value,
            0x0400_0000 => self.dispcnt = value,
            _ => {}
        }
    }

    fn write32(&mut self, addr: u32, value: u32) {
        self.ops.push(Op::Write32(addr, value));
        match addr {
            0x0400_0800 => {
                self.memctrl = value;
                if self.overclock_wipes_display && value == 0x0E00_0020 {
                    self.dispcnt &= !0x0100;
                }
            }
            0x0200_0000 => {
                self.scratch = if self.ram_works() { value } else { !value };
            }
            _ => {}
        }
    }

    fn firmware_checksum(&mut self) -> u32 {
        self.ops.push(Op::Checksum(self.checksum));
        self.checksum
    }

    fn debug_log(&mut self, text: &str) {
        self.ops.push(Op::Log(text.to_string()));
    }
}

fn ops_of(bus: Bus<Machine>) -> Vec<Op> {
    bus.into_backend().ops
}

#[test]
fn fold_checksum_keeps_only_the_carry() {
    assert_eq!(fold_checksum(0xBAAE_1880), 1);
    assert_eq!(fold_checksum(0xBAAE_187F), 0);
    assert_eq!(fold_checksum(0xBAAE_1881), 0);
    assert_eq!(fold_checksum(0), 0);
    assert_eq!(fold_checksum(u32::MAX), 0);
}

#[test]
fn identify_ds_matches_the_ds_firmware_checksum() {
    let mut machine = Machine::new();
    machine.checksum = 0xBAAE_1880;
    let mut bus = Bus::new(machine);
    assert!(identify_ds(&mut bus));
    assert_eq!(ops_of(bus), vec![Op::Checksum(0xBAAE_1880)]);
}

#[test]
fn identify_ds_rejects_the_gba_firmware_checksum() {
    let mut bus = Bus::new(Machine::new());
    assert!(!identify_ds(&mut bus));
    assert_eq!(ops_of(bus), vec![Op::Checksum(0xBAAE_187F)]);
}

#[test]
fn identify_mgba_matches_on_the_acknowledgement() {
    let mut machine = Machine::new();
    machine.acknowledges = true;
    machine.debug_enable = 0x0042;
    let mut bus = Bus::new(machine);
    assert!(identify_mgba(&mut bus));
    assert_eq!(
        ops_of(bus),
        vec![
            Op::Read16(0x04FF_F780, 0x0042),
            Op::Write16(0x04FF_F780, 0xC0DE),
            Op::Read16(0x04FF_F780, 0x1DEA),
            Op::Write16(0x04FF_F780, 0x0042),
        ]
    );
}

#[test]
fn identify_mgba_rejects_a_plain_register() {
    let mut bus = Bus::new(Machine::new());
    assert!(!identify_mgba(&mut bus));
    assert_eq!(
        ops_of(bus),
        vec![
            Op::Read16(0x04FF_F780, 0),
            Op::Write16(0x04FF_F780, 0xC0DE),
            Op::Read16(0x04FF_F780, 0xC0DE),
            Op::Write16(0x04FF_F780, 0),
        ]
    );
}

#[test]
fn identify_mgba_restores_the_debug_enable_register() {
    for acknowledges in [false, true] {
        let mut machine = Machine::new();
        machine.acknowledges = acknowledges;
        machine.debug_enable = 0x0BAD;
        let before = machine.registers();
        let mut bus = Bus::new(machine);
        identify_mgba(&mut bus);
        assert_eq!(bus.into_backend().registers(), before);
    }
}

#[test]
fn identify_nocashba_debug_matches_the_signature() {
    let mut machine = Machine::new();
    machine.signature = *b"no$gba ";
    let mut bus = Bus::new(machine);
    assert!(identify_nocashba_debug(&mut bus));
    let expected: Vec<Op> = b"no$gba "
        .iter()
        .enumerate()
        .map(|(i, byte)| Op::Read8(0x04FF_FA00 + i as u32, *byte))
        .collect();
    assert_eq!(ops_of(bus), expected);
}

#[test]
fn identify_nocashba_debug_rejects_any_other_byte() {
    for position in 0..7 {
        let mut machine = Machine::new();
        machine.signature = *b"no$gba ";
        machine.signature[position] ^= 0x20;
        let mut bus = Bus::new(machine);
        assert!(!identify_nocashba_debug(&mut bus));
        assert_eq!(ops_of(bus).len(), 7);
    }
}

#[test]
fn identify_real_gba_matches_both_boot_values() {
    for (memctrl, expected) in [
        (0x0D00_0020, true),
        (0x0E00_0020, true),
        (0x0C00_0020, false),
        (0x0D00_0021, false),
        (0x6E15_6015, false),
        (0, false),
    ] {
        let mut machine = Machine::new();
        machine.memctrl = memctrl;
        let mut bus = Bus::new(machine);
        assert_eq!(identify_real_gba(&mut bus), expected);
        assert_eq!(ops_of(bus), vec![Op::Read32(0x0400_0800, memctrl)]);
    }
}

#[test]
fn ram_test_passes_when_the_pattern_comes_back() {
    let mut bus = Bus::new(Machine::new());
    assert!(ram_test(&mut bus));
    assert_eq!(
        ops_of(bus),
        vec![
            Op::Write32(0x0200_0000, 0x7071_7518),
            Op::Read32(0x0200_0000, 0x7071_7518),
            Op::Write32(0x0200_0000, 0),
        ]
    );
}

#[test]
fn ram_test_fails_when_the_ram_does_not_keep_up() {
    let mut machine = Machine::new();
    machine.working_codes = 0;
    let mut bus = Bus::new(machine);
    assert!(!ram_test(&mut bus));
    assert_eq!(
        ops_of(bus),
        vec![
            Op::Write32(0x0200_0000, 0x7071_7518),
            Op::Read32(0x0200_0000, !0x7071_7518),
            Op::Write32(0x0200_0000, 0),
        ]
    );
}

/// A mask with the codes `0..=last` set.
fn codes_through(last: u32) -> u16 {
    ((1u32 << (last + 1)) - 1) as u16
}

#[test]
fn dram_training_returns_the_last_good_code() {
    for last in 0..=14u32 {
        let mut machine = Machine::new();
        machine.memctrl = 0x0300_0020;
        machine.working_codes = codes_through(last);
        let mut bus = Bus::new(machine);
        assert_eq!(dram_training(&mut bus), 0x0000_0020 | (last << 24));
    }
}

#[test]
fn dram_training_returns_the_base_when_no_code_works() {
    let mut machine = Machine::new();
    machine.memctrl = 0x0D00_0020;
    machine.working_codes = 0;
    let mut bus = Bus::new(machine);
    assert_eq!(dram_training(&mut bus), 0x0000_0020);
    assert_eq!(
        ops_of(bus),
        vec![
            Op::Read32(0x0400_0800, 0x0D00_0020),
            Op::Write32(0x0400_0800, 0x0000_0020),
            Op::Write32(0x0200_0000, 0x7071_7518),
            Op::Read32(0x0200_0000, !0x7071_7518),
            Op::Write32(0x0200_0000, 0),
            Op::Write32(0x0400_0800, 0x0D00_0020),
        ]
    );
}

#[test]
fn dram_training_stops_at_the_first_failure() {
    let mut machine = Machine::new();
    machine.memctrl = 0xFF12_3456;
    // Codes 0 and 1 work, 2 does not, 3 would.
    machine.working_codes = 0b1011;
    let mut bus = Bus::new(machine);
    assert_eq!(dram_training(&mut bus), 0xF112_3456);
    let ops = ops_of(bus);
    let selected: Vec<u32> = ops
        .iter()
        .filter_map(|op| match op {
            Op::Write32(0x0400_0800, value) => Some(*value),
            _ => None,
        })
        .collect();
    assert_eq!(selected, vec![0xF012_3456, 0xF112_3456, 0xF212_3456, 0xFF12_3456]);
    assert_eq!(ops.len(), 1 + 3 * 4 + 1);
}

#[test]
fn dram_training_tries_every_code_when_all_work() {
    let mut machine = Machine::new();
    machine.memctrl = 0x0D00_0020;
    let mut bus = Bus::new(machine);
    assert_eq!(dram_training(&mut bus), 0x0E00_0020);
    let ops = ops_of(bus);
    assert_eq!(ops.len(), 1 + 15 * 4 + 1);
    assert_eq!(ops[ops.len() - 1], Op::Write32(0x0400_0800, 0x0D00_0020));
}

#[test]
fn dram_training_restores_the_memory_control_register() {
    for working_codes in [0u16, 0b1, 0b1011, 0x3FFF, 0x7FFF] {
        let mut machine = Machine::new();
        machine.memctrl = 0x0A55_AA20;
        machine.working_codes = working_codes;
        let before = machine.registers();
        let mut bus = Bus::new(machine);
        dram_training(&mut bus);
        let machine = bus.into_backend();
        let after = machine.registers();
        assert_eq!((after.0, after.1, after.3), (before.0, before.1, before.3));
        let last_scratch_write = machine.ops.iter().rev().find_map(|op| match op {
            Op::Write32(0x0200_0000, value) => Some(*value),
            _ => None,
        });
        assert_eq!(last_scratch_write, Some(0));
    }
}

#[test]
fn identify_gba_micro_matches_when_code_d_is_the_last_good_one() {
    let mut machine = Machine::new();
    machine.memctrl = 0x0300_0020;
    machine.working_codes = codes_through(0xD);
    let mut bus = Bus::new(machine);
    assert!(identify_gba_micro(&mut bus));
}

#[test]
fn identify_gba_micro_rejects_other_last_good_codes() {
    for last in (0..=14u32).filter(|last| *last != 0xD) {
        let mut machine = Machine::new();
        machine.memctrl = 0x0300_0020;
        machine.working_codes = codes_through(last);
        let mut bus = Bus::new(machine);
        assert!(!identify_gba_micro(&mut bus));
    }
}

#[test]
fn identify_gba_micro_rejects_another_base_word() {
    let mut machine = Machine::new();
    machine.memctrl = 0x0D00_0021;
    machine.working_codes = codes_through(0xD);
    let mut bus = Bus::new(machine);
    assert!(!identify_gba_micro(&mut bus));
}

#[test]
fn ram_overclock_keeps_the_shortest_wait_state_when_the_word_holds() {
    let mut bus = Bus::new(Machine::new());
    assert!(ram_overclock(&mut bus));
    assert_eq!(
        ops_of(bus),
        vec![
            Op::Write32(0x0400_0800, 0x0E00_0020),
            Op::Write32(0x0200_0000, 1),
            Op::Read32(0x0200_0000, 1),
        ]
    );
}

#[test]
fn ram_overclock_falls_back_when_the_word_does_not_hold() {
    let mut machine = Machine::new();
    machine.working_codes = codes_through(0xD);
    let mut bus = Bus::new(machine);
    assert!(!ram_overclock(&mut bus));
    assert_eq!(
        ops_of(bus),
        vec![
            Op::Write32(0x0400_0800, 0x0E00_0020),
            Op::Write32(0x0200_0000, 1),
            Op::Read32(0x0200_0000, !1),
            Op::Write32(0x0400_0800, 0x0D00_0020),
        ]
    );
}

#[test]
fn identify_gpsp_matches_when_the_overclock_wipes_the_background_bit() {
    let mut machine = Machine::new();
    machine.overclock_wipes_display = true;
    machine.dispcnt = 0x1F40;
    let mut bus = Bus::new(machine);
    assert!(identify_gpsp(&mut bus));
    let machine = bus.into_backend();
    assert_eq!(machine.dispcnt, 0x1F40);
    assert_eq!(
        machine.ops,
        vec![
            Op::Read16(0x0400_0000, 0x1F40),
            Op::Write16(0x0400_0000, 0x0100),
            Op::Write32(0x0400_0800, 0x0E00_0020),
            Op::Write32(0x0200_0000, 1),
            Op::Read32(0x0200_0000, 1),
            Op::Read16(0x0400_0000, 0x0000),
            Op::Write16(0x0400_0000, 0x1F40),
        ]
    );
}

#[test]
fn identify_gpsp_rejects_a_display_that_keeps_its_background() {
    let mut machine = Machine::new();
    machine.dispcnt = 0x0003;
    let mut bus = Bus::new(machine);
    assert!(!identify_gpsp(&mut bus));
    let machine = bus.into_backend();
    assert_eq!(machine.dispcnt, 0x0003);
    assert_eq!(machine.memctrl, 0x0E00_0020);
    assert_eq!(machine.scratch, 1);
}

#[test]
fn identify_vba_always_matches_and_prints() {
    let mut bus = Bus::new(Machine::new());
    assert!(identify_vba(&mut bus));
    assert_eq!(ops_of(bus), vec![Op::Log("VBA".to_string()), Op::Log("\n".to_string())]);
}

#[test]
fn reading_probes_leave_every_register_alone() {
    let mut machine = Machine::new();
    machine.signature = *b"no$gba ";
    let before = machine.registers();
    let mut bus = Bus::new(machine);
    identify_ds(&mut bus);
    identify_nocashba_debug(&mut bus);
    identify_real_gba(&mut bus);
    identify_vba(&mut bus);
    let machine = bus.into_backend();
    assert_eq!(machine.registers(), before);
    assert!(machine
        .ops
        .iter()
        .all(|op| !matches!(op, Op::Write16(..) | Op::Write32(..))));
}

#[test]
fn a_probe_run_twice_answers_the_same() {
    let mut machine = Machine::new();
    machine.acknowledges = true;
    machine.working_codes = codes_through(0xD);
    let mut bus = Bus::new(machine);
    let first = (identify_mgba(&mut bus), identify_gba_micro(&mut bus));
    let after_first = bus.into_backend();
    let mut bus = Bus::new(after_first.clone());
    let second = (identify_mgba(&mut bus), identify_gba_micro(&mut bus));
    let after_second = bus.into_backend();
    assert_eq!(first, second);
    assert_eq!(first, (true, true));
    assert_eq!(after_first.memctrl, after_second.memctrl);
    assert_eq!(after_first.debug_enable, after_second.debug_enable);
    assert_eq!(after_first.dispcnt, after_second.dispcnt);
}
