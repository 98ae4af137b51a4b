use gba_env::backend::{Bus, RegisterBackend};
use gba_env::get_env::{
    detect_android_myboy_emulator, detect_ds, detect_gba_micro, detect_mgba,
    detect_nocashba_debug, detect_real_gba, detect_vba, dram_training, get_env, ram_overclock,
    ram_test, Environment,
};

/// One access as the simulated machine saw it.
#[derive(Clone, Debug, PartialEq, Eq)]
enum Op {
    Read8(u32, u8),
    Read16(u32, u16),
    Read32(u32, u32),
    Write16(u32, u16),
    Write32(u32, u32),
    Checksum(u32),
    Log(String),
}

/// A simulated register file with the quirks the probes look for.
#[derive(Clone, Debug)]
struct Machine {
    checksum: u32,
    /// The debug enable register acknowledges a request, as mGBA's does.
    acknowledges: bool,
    debug_enable: u16,
    signature: [u8; 7],
    memctrl: u32,
    /// Bit `code` is set when the work RAM keeps up with wait-state code `code`.
    working_codes: u16,
    scratch: u32,
    dispcnt: u16,
    /// Selecting the shortest wait state wipes the background bit, as on gpSP.
    overclock_wipes_display: bool,
    ops: Vec<Op>,
}

impl Machine {
    fn new() -> Self {
        Machine {
            checksum: 0xBAAE_187F,
            acknowledges: false,
            debug_enable: 0,
            signature: [0; 7],
            memctrl: 0x0300_0020,
            working_codes: 0x7FFF,
            scratch: 0x1234_5678,
            dispcnt: 0x0080,
            overclock_wipes_display: false,
            ops: Vec::new(),
        }
    }

    /// What a snapshot of the registers shows.
    fn registers(&self) -> (u16, u32, u32, u16) {
        (self.debug_enable, self.memctrl, self.scratch, self.dispcnt)
    }

    fn ram_works(&self) -> bool {
        let code = (self.memctrl >> 24) & 0xF;
        self.working_codes & (1 << code) != 0
    }
}

impl RegisterBackend for Machine {
    fn read8(&mut self, addr: u32) -> u8 {
        let value = match addr.checked_sub(0x04FF_FA00) {
            Some(offset) if offset < 7 => self.signature[offset as usize],
            _ => 0xFF,
        };
        self.ops.push(Op::Read8(addr, value));
        value
    }

    fn read16(&mut self, addr: u32) -> u16 {
        let value = match addr {
            0x04FF_F780 if self.acknowledges && self.debug_enable == 0xC0DE => 0x1DEA,
            0x04FF_F780 => self.debug_enable,
            0x0400_0000 => self.dispcnt,
            _ => 0xFFFF,
        };
        self.ops.push(Op::Read16(addr, value));
        value
    }

    fn read32(&mut self, addr: u32) -> u32 {
        let value = match addr {
            0x0400_0800 => self.memctrl,
            0x0200_0000 => self.scratch,
            _ => 0xFFFF_FFFF,
        };
        self.ops.push(Op::Read32(addr, value));
        value
    }

    fn write16(&mut self, addr: u32, value: u16) {
        self.ops.push(Op::Write16(addr, value));
        match addr {
            0x04FF_F780 => self.debug_enable = value,
            0x0400_0000 => self.dispcnt = value,
            _ => {}
        }
    }

    fn write32(&mut self, addr: u32, value: u32) {
        self.ops.push(Op::Write32(addr, value));
        match addr {
            0x0400_0800 => {
                self.memctrl = value;
                if self.overclock_wipes_display && value == 0x0E00_0020 {
                    self.dispcnt &= !0x0100;
                }
            }
            0x0200_0000 => {
                self.scratch = if self.ram_works() { value } else { !value };
            }
            _ => {}
        }
    }

    fn firmware_checksum(&mut self) -> u32 {
        self.ops.push(Op::Checksum(self.checksum));
        self.checksum
    }

    fn debug_log(&mut self, text: &str) {
        self.ops.push(Op::Log(text.to_string()));
    }
}

fn ops_of(bus: Bus<Machine>) -> Vec<Op> {
    bus.into_backend().ops
}

fn classify(machine: Machine) -> (Environment, Machine) {
    let mut bus = Bus::new(machine);
    let env = get_env(&mut bus);
    (env, bus.into_backend())
}

/// A mask with the codes `0..=last` set.
fn codes_through(last: u32) -> u16 {
    ((1u32 << (last + 1)) - 1) as u16
}

#[test]
fn detect_ds_matches_the_ds_firmware_checksum() {
    let mut machine = Machine::new();
    machine.checksum = 0xBAAE_1880;
    let mut bus = Bus::new(machine);
    assert!(detect_ds(&mut bus));
    let mut bus = Bus::new(Machine::new());
    assert!(!detect_ds(&mut bus));
    assert_eq!(ops_of(bus), vec![Op::Checksum(0xBAAE_187F)]);
}

#[test]
fn detect_mgba_leaves_its_request_in_the_register() {
    let mut machine = Machine::new();
    machine.acknowledges = true;
    machine.debug_enable = 0x0042;
    let mut bus = Bus::new(machine);
    assert!(detect_mgba(&mut bus));
    let machine = bus.into_backend();
    assert_eq!(machine.debug_enable, 0xC0DE);
    assert_eq!(
        machine.ops,
        vec![Op::Write16(0x04FF_F780, 0xC0DE), Op::Read16(0x04FF_F780, 0x1DEA)]
    );
}

#[test]
fn detect_mgba_rejects_a_plain_register() {
    let mut bus = Bus::new(Machine::new());
    assert!(!detect_mgba(&mut bus));
    assert_eq!(
        ops_of(bus),
        vec![Op::Write16(0x04FF_F780, 0xC0DE), Op::Read16(0x04FF_F780, 0xC0DE)]
    );
}

#[test]
fn detect_nocashba_debug_matches_the_signature_only() {
    let mut machine = Machine::new();
    machine.signature = *b"no$gba ";
    let mut bus = Bus::new(machine);
    assert!(detect_nocashba_debug(&mut bus));
    assert_eq!(ops_of(bus).len(), 7);
    let mut machine = Machine::new();
    machine.signature = *b"no$gba\0";
    let mut bus = Bus::new(machine);
    assert!(!detect_nocashba_debug(&mut bus));
    assert_eq!(ops_of(bus).len(), 7);
}

#[test]
fn detect_real_gba_matches_both_boot_values() {
    for (memctrl, expected) in [(0x0D00_0020, true), (0x0E00_0020, true), (0x0F00_0020, false)] {
        let mut machine = Machine::new();
        machine.memctrl = memctrl;
        let mut bus = Bus::new(machine);
        assert_eq!(detect_real_gba(&mut bus), expected);
        assert_eq!(ops_of(bus), vec![Op::Read32(0x0400_0800, memctrl)]);
    }
}

#[test]
fn first_ram_test_uses_its_own_pattern() {
    let mut bus = Bus::new(Machine::new());
    assert!(ram_test(&mut bus));
    assert_eq!(
        ops_of(bus),
        vec![
            Op::Write32(0x0200_0000, 0xDEAD_BEEF),
            Op::Read32(0x0200_0000, 0xDEAD_BEEF),
            Op::Write32(0x0200_0000, 0),
        ]
    );
    let mut machine = Machine::new();
    machine.working_codes = 0;
    let mut bus = Bus::new(machine);
    assert!(!ram_test(&mut bus));
}

#[test]
fn first_dram_training_leaves_the_last_good_code_selected() {
    for last in 0..=14u32 {
        let mut machine = Machine::new();
        machine.memctrl = 0x0300_0020;
        machine.working_codes = codes_through(last);
        let mut bus = Bus::new(machine);
        let expected = 0x0000_0020 | (last << 24);
        assert_eq!(dram_training(&mut bus), expected);
        let machine = bus.into_backend();
        assert_eq!(machine.memctrl, expected);
        let tried = if last == 14 { 15 } else { last as usize + 2 };
        let settled = if last == 14 { 0 } else { 1 };
        assert_eq!(machine.ops.len(), 1 + tried * 4 + settled);
    }
}

#[test]
fn first_dram_training_selects_the_base_when_no_code_works() {
    let mut machine = Machine::new();
    machine.memctrl = 0x0D00_0020;
    machine.working_codes = 0;
    let mut bus = Bus::new(machine);
    assert_eq!(dram_training(&mut bus), 0x0000_0020);
    assert_eq!(
        ops_of(bus),
        vec![
            Op::Read32(0x0400_0800, 0x0D00_0020),
            Op::Write32(0x0400_0800, 0x0000_0020),
            Op::Write32(0x0200_0000, 0xDEAD_BEEF),
            Op::Read32(0x0200_0000, !0xDEAD_BEEF),
            Op::Write32(0x0200_0000, 0),
            Op::Write32(0x0400_0800, 0x0000_0020),
        ]
    );
}

#[test]
fn detect_gba_micro_matches_when_code_d_is_the_last_good_one() {
    for last in 0..=14u32 {
        let mut machine = Machine::new();
        machine.memctrl = 0x0300_0020;
        machine.working_codes = codes_through(last);
        let mut bus = Bus::new(machine);
        assert_eq!(detect_gba_micro(&mut bus), last == 0xD);
    }
}

#[test]
fn first_ram_overclock_reports_whether_the_word_held() {
    let mut bus = Bus::new(Machine::new());
    assert!(ram_overclock(&mut bus));
    assert_eq!(bus.into_backend().memctrl, 0x0E00_0020);
    let mut machine = Machine::new();
    machine.working_codes = codes_through(0xD);
    let mut bus = Bus::new(machine);
    assert!(!ram_overclock(&mut bus));
    assert_eq!(bus.into_backend().memctrl, 0x0D00_0020);
}

#[test]
fn detect_android_myboy_emulator_restores_the_display_only() {
    let mut machine = Machine::new();
    machine.overclock_wipes_display = true;
    machine.dispcnt = 0x1F40;
    let mut bus = Bus::new(machine);
    assert!(detect_android_myboy_emulator(&mut bus));
    let machine = bus.into_backend();
    assert_eq!(machine.dispcnt, 0x1F40);
    assert_eq!(machine.memctrl, 0x0E00_0020);
    assert_eq!(machine.ops.len(), 7);
    let mut bus = Bus::new(Machine::new());
    assert!(!detect_android_myboy_emulator(&mut bus));
}

#[test]
fn detect_vba_always_matches_and_prints() {
    let mut bus = Bus::new(Machine::new());
    assert!(detect_vba(&mut bus));
    assert_eq!(ops_of(bus), vec![Op::Log("VBA".to_string()), Op::Log("\n".to_string())]);
}

#[test]
fn first_get_env_answers_each_environment() {
    let mut machine = Machine::new();
    machine.checksum = 0xBAAE_1880;
    machine.acknowledges = true;
    assert_eq!(classify(machine).0, Environment::NintendoDS);

    let mut machine = Machine::new();
    machine.acknowledges = true;
    machine.signature = *b"no$gba ";
    assert_eq!(classify(machine).0, Environment::MGBA);

    let mut machine = Machine::new();
    machine.signature = *b"no$gba ";
    machine.memctrl = 0x0E00_0020;
    assert_eq!(classify(machine).0, Environment::NoCashGBA);

    let mut machine = Machine::new();
    machine.memctrl = 0x0E00_0020;
    assert_eq!(classify(machine).0, Environment::GameBoyAdvance);

    let mut machine = Machine::new();
    machine.working_codes = codes_through(0xD);
    assert_eq!(classify(machine).0, Environment::GameBoyAdvanceMicro);

    assert_eq!(classify(Machine::new()).0, Environment::VisualBoyAdvance);
}

#[test]
fn first_get_env_never_reprograms_the_display() {
    let mut machine = Machine::new();
    machine.overclock_wipes_display = true;
    let (env, machine) = classify(machine);
    assert_eq!(env, Environment::VisualBoyAdvance);
    assert_ne!(env, Environment::MyBoy);
    assert_ne!(env, Environment::GpSP);
    assert_ne!(env, Environment::Unknown);
    assert!(machine.ops.iter().all(|op| match op {
        Op::Read16(addr, _) | Op::Write16(addr, _) => *addr != 0x0400_0000,
        _ => true,
    }));
    assert_eq!(machine.ops.len(), 1 + 2 + 7 + 1 + (1 + 15 * 4) + 2);
}

#[test]
fn first_get_env_stops_at_the_first_match() {
    let mut machine = Machine::new();
    machine.checksum = 0xBAAE_1880;
    let (env, machine) = classify(machine);
    assert_eq!(env, Environment::NintendoDS);
    assert_eq!(machine.ops, vec![Op::Checksum(0xBAAE_1880)]);
}

#[test]
fn first_get_env_lets_the_higher_probe_win() {
    let mut machine = Machine::new();
    machine.acknowledges = true;
    machine.signature = *b"no$gba ";
    machine.memctrl = 0x0D00_0020;
    machine.working_codes = codes_through(0xD);
    let (env, machine) = classify(machine);
    assert_eq!(env, Environment::MGBA);
    assert_eq!(machine.ops.len(), 1 + 2);

    let mut machine = Machine::new();
    machine.memctrl = 0x0D00_0020;
    machine.working_codes = codes_through(0xD);
    let (env, machine) = classify(machine);
    assert_eq!(env, Environment::GameBoyAdvance);
    assert_eq!(machine.ops.len(), 1 + 2 + 7 + 1);
}

#[test]
fn first_get_env_answers_the_same_on_the_same_machine() {
    let mut machine = Machine::new();
    machine.working_codes = codes_through(0xD);
    let (first_env, first) = classify(machine.clone());
    let (second_env, second) = classify(machine);
    assert_eq!(first_env, second_env);
    assert_eq!(first.ops, second.ops);
}

#[test]
fn first_dram_training_keeps_the_rest_of_the_word() {
    let mut machine = Machine::new();
    machine.memctrl = 0xFF12_3456;
    machine.working_codes = 0b1011;
    let mut bus = Bus::new(machine);
    assert_eq!(dram_training(&mut bus), 0xF112_3456);
    let machine = bus.into_backend();
    assert_eq!(machine.memctrl, 0xF112_3456);
    assert_eq!(machine.ops[machine.ops.len() - 1], Op::Write32(0x0400_0800, 0xF112_3456));
}

#[test]
fn first_get_env_leaves_its_request_and_the_last_good_code() {
    let mut machine = Machine::new();
    machine.memctrl = 0x0300_0020;
    machine.working_codes = codes_through(0xB);
    machine.dispcnt = 0x1F40;
    let (env, machine) = classify(machine);
    assert_eq!(env, Environment::VisualBoyAdvance);
    assert_eq!(machine.debug_enable, 0xC0DE);
    assert_eq!(machine.memctrl, 0x0B00_0020);
    assert_eq!(machine.dispcnt, 0x1F40);
}

#[test]
fn first_get_env_keeps_to_its_counts() {
    for checksum in [0xBAAE_187Fu32, 0xBAAE_1880] {
        for acknowledges in [false, true] {
            for memctrl in [0x0D00_0020u32, 0x0300_0020, 0x0F00_0021] {
                for working_codes in [0u16, 0b1011, 0x3FFF, 0x7FFF] {
                    let mut machine = Machine::new();
                    machine.checksum = checksum;
                    machine.acknowledges = acknowledges;
                    machine.memctrl = memctrl;
                    machine.working_codes = working_codes;
                    let (_, machine) = classify(machine);
                    let count = |which: fn(&Op) -> bool| {
                        machine.ops.iter().filter(|op| which(op)).count()
                    };
                    assert!(machine.ops.len() <= 75);
                    assert!(count(|op| matches!(op, Op::Checksum(_))) <= 1);
                    assert!(count(|op| matches!(op, Op::Log(_))) <= 2);
                    assert!(count(|op| matches!(op, Op::Write32(0x0400_0800, _))) <= 16);
                    assert!(count(|op| matches!(op, Op::Read32(0x0200_0000, _))) <= 15);
                    assert_eq!(count(|op| matches!(op, Op::Write16(0x0400_0000, _))), 0);
                }
            }
        }
    }
}
