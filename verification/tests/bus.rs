use gba_env::backend::{Bus, RegisterBackend};

/// One access as the simulated machine saw it.
#[derive(Clone, Debug, PartialEq, Eq)]
enum Op {
    Read8(u32, u8),
    Read16(u32, u16),
    Read32(u32, u32),
    Write16(u32, u16),
    Write32(u32, u32),
    Checksum(u32),
    Log(String),
}

/// A simulated register file with the quirks the probes look for.
#[derive(Clone, Debug)]
struct Machine {
    checksum: u32,
    /// The debug enable register acknowledges a request, as mGBA's does.
    acknowledges: bool,
    debug_enable: u16,
    signature: [u8; 7],
    memctrl: u32,
    /// Bit `code` is set when the work RAM keeps up with wait-state code `code`.
    working_codes: u16,
    scratch: u32,
    dispcnt: u16,
    /// Selecting the shortest wait state wipes the background bit, as on gpSP.
    overclock_wipes_display: bool,
    ops: Vec<Op>,
}

impl Machine {
    fn new() -> Self {
        Machine {
            checksum: 0xBAAE_187F,
            acknowledges: false,
            debug_enable: 0,
            signature: [0; 7],
            memctrl: 0x0300_0020,
            working_codes: 0x7FFF,
            scratch: 0x1234_5678,
            dispcnt: 0x0080,
            overclock_wipes_display: false,
            ops: Vec::new(),
        }
    }

    /// What a snapshot of the registers shows.
    fn registers(&self) -> (u16, u32, u32, u16) {
        (self.debug_enable, self.memctrl, self.scratch, self.dispcnt)
    }

    fn ram_works(&self) -> bool {
        let code = (self.memctrl >> 24) & 0xF;
        self.working_codes & (1 << code) != 0
    }
}

impl RegisterBackend for Machine {
    fn read8(&mut self, addr: u32) -> u8 {
        let value = match addr.checked_sub(0x04FF_FA00) {
            Some(offset) if offset < 7 => self.signature[offset as usize],
            _ => 0xFF,
        };
        self.ops.push(Op::Read8(addr, value));
        value
    }

    fn read16(&mut self, addr: u32) -> u16 {
        let value = match addr {
            0x04FF_F780 if self.acknowledges && self.debug_enable == 0xC0DE => 0x1DEA,
            0x04FF_F780 => self.debug_enable,
            0x0400_0000 => self.dispcnt,
            _ => 0xFFFF,
        };
        self.ops.push(Op::Read16(addr, value));
        value
    }

    fn read32(&mut self, addr: u32) -> u32 {
        let value = match addr {
            0x0400_0800 => self.memctrl,
            0x0200_0000 => self.scratch,
            _ => 0xFFFF_FFFF,
        };
        self.ops.push(Op::Read32(addr, value));
        value
    }

    fn write16(&mut self, addr: u32, value: u16) {
        self.ops.push(Op::Write16(addr, value));
        match addr {
            0x04FF_F780 => self.debug_enable = value,
            0x0400_0000 => self.dispcnt = value,
            _ => {}
        }
    }

    fn write32(&mut self, addr: u32, value: u32) {
        self.ops.push(Op::Write32(addr, value));
        match addr {
            0x0400_0800 => {
                self.memctrl = value;
                if self.overclock_wipes_display && value == 0x0E00_0020 {
                    self.dispcnt &= !0x0100;
                }
            }
            0x0200_0000 => {
                self.scratch = if self.ram_works() { value } else { !value };
            }
            _ => {}
        }
    }

    fn firmware_checksum(&mut self) -> u32 {
        self.ops.push(Op::Checksum(self.checksum));
        self.checksum
    }

    fn debug_log(&mut self, text: &str) {
        self.ops.push(Op::Log(text.to_string()));
    }
}

#[test]
fn bus_hands_every_access_to_the_backend_in_order() {
    let mut machine = Machine::new();
    machine.checksum = 0x1234_5678;
    machine.signature = *b"no$gba ";
    machine.memctrl = 0x0D00_0020;
    machine.dispcnt = 0x0403;
    let mut bus = Bus::new(machine);
    assert_eq!(bus.read8(0x04FF_FA02), b'$');
    assert_eq!(bus.read16(0x0400_0000), 0x0403);
    assert_eq!(bus.read32(0x0400_0800), 0x0D00_0020);
    bus.write16(0x0400_0000, 0x0100);
    bus.write32(0x0400_0800, 0x0E00_0020);
    assert_eq!(bus.firmware_checksum(), 0x1234_5678);
    bus.debug_log("VBA");
    assert_eq!(bus.read16(0x0400_0000), 0x0100);
    assert_eq!(bus.read32(0x0400_0800), 0x0E00_0020);
    assert_eq!(
        bus.into_backend().ops,
        vec![
            Op::Read8(0x04FF_FA02, b'$'),
            Op::Read16(0x0400_0000, 0x0403),
            Op::Read32(0x0400_0800, 0x0D00_0020),
            Op::Write16(0x0400_0000, 0x0100),
            Op::Write32(0x0400_0800, 0x0E00_0020),
            Op::Checksum(0x1234_5678),
            Op::Log("VBA".to_string()),
            Op::Read16(0x0400_0000, 0x0100),
            Op::Read32(0x0400_0800, 0x0E00_0020),
        ]
    );
}

#[test]
fn bus_gives_the_backend_back_untouched() {
    let machine = Machine::new();
    let before = machine.registers();
    let machine = Bus::new(machine).into_backend();
    assert_eq!(machine.registers(), before);
    assert!(machine.ops.is_empty());
    assert!(machine.ram_works());
}
