//! The machine as the probes see it: typed register accesses, the firmware
//! checksum call and the debugger's log channel.

use vstd::prelude::*;

verus! {

/// The width of a register access.
#[derive(Debug, Clone, Copy, PartialEq, Eq, Structural)]
pub enum Width {
    /// 8 bits.
    Byte,
    /// 16 bits.
    Half,
    /// 32 bits.
    Word,
}

/// One interaction with the machine, with the value that was written or
/// that the machine handed back.
pub enum Access {
    /// A volatile read of `width` bits at `addr` that returned `value`.
    Read { addr: u32, width: Width, value: u32 },
    /// A volatile write of `value`, `width` bits wide, at `addr`.
    Write { addr: u32, width: Width, value: u32 },
    /// The firmware checksum call, which returned `value`.
    FirmwareChecksum { value: u32 },
    /// A message handed to the debugger's log channel.
    DebugLog { text: Seq<char> },
}

/// What the probes need from the machine underneath.
///
/// Every access must be performed exactly as requested and in program order,
/// none left out and none repeated: the side effect of an access is often the
/// point of it. Nothing is promised about the values that come back; the
/// probes are verified for every answer a machine may give.
///
/// The probes need the registers to themselves. If anything else touches
/// them while a probe runs, an interrupt handler included, what the probe
/// reports means nothing.
pub trait RegisterBackend {
    /// Reads the byte at `addr`.
    fn read8(&mut self, addr: u32) -> u8;

    /// Reads the 16-bit register at `addr`.
    fn read16(&mut self, addr: u32) -> u16;

    /// Reads the 32-bit register at `addr`.
    fn read32(&mut self, addr: u32) -> u32;

    /// Writes the 16-bit register at `addr`.
    fn write16(&mut self, addr: u32, value: u16);

    /// Writes the 32-bit register at `addr`.
    fn write32(&mut self, addr: u32, value: u32);

    /// Invokes the firmware's checksum call and returns its result.
    fn firmware_checksum(&mut self) -> u32;

    /// Hands `text` to the debugger's log channel.
    fn debug_log(&mut self, text: &str);
}

/// A backend together with the ghost record of what was done to it.
pub struct Bus<B: RegisterBackend> {
    backend: B,
    trace: Ghost<Seq<Access>>,
}

impl<B: RegisterBackend> Bus<B> {
    /// Every access made through this bus so far, oldest first.
    pub closed spec fn trace(&self) -> Seq<Access> {
        self.trace@
    }

    /// The backend in its current state.
    pub closed spec fn backend(&self) -> B {
        self.backend
    }

    /// Wraps `backend` with an empty record.
    pub fn new(backend: B) -> (bus: Self)
        ensures
            bus.trace() == Seq::<Access>::empty(),
            bus.backend() == backend,
    {
        Bus { backend, trace: Ghost(Seq::empty()) }
    }

    /// Gives the backend back.
    pub fn into_backend(self) -> (backend: B)
        ensures
            backend == self.backend(),
    {
        self.backend
    }

    /// Reads the byte at `addr`.
    pub fn read8(&mut self, addr: u32) -> (value: u8)
        ensures
            final(self).trace() == old(self).trace().push(
                Access::Read { addr, width: Width::Byte, value: value as u32 },
            ),
    {
        let value = self.backend.read8(addr);
        proof {
            self.trace@ = self.trace@.push(
                Access::Read { addr, width: Width::Byte, value: value as u32 },
            );
        }
        value
    }

    /// Reads the 16-bit register at `addr`.
    pub fn read16(&mut self, addr: u32) -> (value: u16)
        ensures
            final(self).trace() == old(self).trace().push(
                Access::Read { addr, width: Width::Half, value: value as u32 },
            ),
    {
        let value = self.backend.read16(addr);
        proof {
            self.trace@ = self.trace@.push(
                Access::Read { addr, width: Width::Half, value: value as u32 },
            );
        }
        value
    }

    /// Reads the 32-bit register at `addr`.
    pub fn read32(&mut self, addr: u32) -> (value: u32)
        ensures
            final(self).trace() == old(self).trace().push(
                Access::Read { addr, width: Width::Word, value },
            ),
    {
        let value = self.backend.read32(addr);
        proof {
            self.trace@ = self.trace@.push(Access::Read { addr, width: Width::Word, value });
        }
        value
    }

    /// Writes the 16-bit register at `addr`.
    pub fn write16(&mut self, addr: u32, value: u16)
        ensures
            final(self).trace() == old(self).trace().push(
                Access::Write { addr, width: Width::Half, value: value as u32 },
            ),
    {
        self.backend.write16(addr, value);
        proof {
            self.trace@ = self.trace@.push(
                Access::Write { addr, width: Width::Half, value: value as u32 },
            );
        }
    }

    /// Writes the 32-bit register at `addr`.
    pub fn write32(&mut self, addr: u32, value: u32)
        ensures
            final(self).trace() == old(self).trace().push(
                Access::Write { addr, width: Width::Word, value },
            ),
    {
        self.backend.write32(addr, value);
        proof {
            self.trace@ = self.trace@.push(Access::Write { addr, width: Width::Word, value });
        }
    }

    /// Invokes the firmware's checksum call.
    pub fn firmware_checksum(&mut self) -> (value: u32)
        ensures
            final(self).trace() == old(self).trace().push(Access::FirmwareChecksum { value }),
    {
        let value = self.backend.firmware_checksum();
        proof {
            self.trace@ = self.trace@.push(Access::FirmwareChecksum { value });
        }
        value
    }

    /// Hands `text` to the debugger's log channel.
    pub fn debug_log(&mut self, text: &str)
        ensures
            final(self).trace() == old(self).trace().push(Access::DebugLog { text: text@ }),
    {
        self.backend.debug_log(text);
        proof {
            self.trace@ = self.trace@.push(Access::DebugLog { text: text@ });
        }
    }
}

} // verus!
