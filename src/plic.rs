//! The platform interrupt controller: source numbers, and the words to
//! write to its priority, enable, threshold and claim/complete registers.
use vstd::prelude::*;

use crate::layout::{plic_pri, plic_pri_spec, plic_sclaim, plic_sen, plic_spri, PLIC_SCLAIM_BASE,
    PLIC_SENABLE_BASE, PLIC_SPRIORITY_BASE};

verus! {

/// Highest hart number the controller's register map has room for.
pub const MAX_HART: usize = 15871;

/// An interrupt source as the controller numbers it.
#[derive(Clone, Copy, Debug, PartialEq, Eq, Structural)]
pub enum ExternalInterrupt {
    /// Source 0: nothing is pending.
    NoInterrupt,
    /// Virtio device `n` (source `n + 1`).
    VirtIO(u32),
    UART,
    RTC,
    /// A source of no known kind, by its number.
    Unknown(u32),
}

/// The source that a claimed number names.
pub open spec fn from_code_spec(value: u32) -> ExternalInterrupt {
    if 1 <= value <= 8 {
        ExternalInterrupt::VirtIO((value - 1) as u32)
    } else if value == 10 {
        ExternalInterrupt::UART
    } else if value == 11 {
        ExternalInterrupt::RTC
    } else if value == 0 {
        ExternalInterrupt::NoInterrupt
    } else {
        ExternalInterrupt::Unknown(value)
    }
}

/// The number of a source.
pub open spec fn as_u32_spec(e: ExternalInterrupt) -> int {
    match e {
        ExternalInterrupt::NoInterrupt => 0,
        ExternalInterrupt::VirtIO(v) => v + 1,
        ExternalInterrupt::UART => 10,
        ExternalInterrupt::RTC => 11,
        ExternalInterrupt::Unknown(v) => v as int,
    }
}

/// One write to a memory-mapped 32-bit register.
#[derive(Clone, Copy, Debug, PartialEq, Eq, Structural)]
pub struct MmioWrite {
    pub addr: usize,
    pub value: u32,
}

impl ExternalInterrupt {
    /// A source as the controller can name it: virtio devices 0 to 7, and
    /// unknown sources by a number that no known source has.
    pub open spec fn wf(&self) -> bool {
        match self {
            ExternalInterrupt::VirtIO(v) => *v < 8,
            ExternalInterrupt::Unknown(v) => *v == 9 || *v >= 12,
            _ => true,
        }
    }

    /// The source that a number claimed from the controller names; 0 means
    /// nothing is pending, and a number of no known source is kept as
    /// `Unknown`.
    pub fn from_code(value: u32) -> (r: Self)
        ensures
            r == from_code_spec(value),
            r.wf(),
            as_u32_spec(r) == value,
    {
        if 1 <= value && value <= 8 {
            ExternalInterrupt::VirtIO(value - 1)
        } else if value == 10 {
            ExternalInterrupt::UART
        } else if value == 11 {
            ExternalInterrupt::RTC
        } else if value == 0 {
            ExternalInterrupt::NoInterrupt
        } else {
            ExternalInterrupt::Unknown(value)
        }
    }

    /// The source's number.
    pub fn as_u32(&self) -> (r: u32)
        requires
            self.wf(),
        ensures
            r == as_u32_spec(*self),
            from_code_spec(r) == *self,
    {
        match self {
            ExternalInterrupt::NoInterrupt => 0,
            ExternalInterrupt::VirtIO(v) => *v + 1,
            ExternalInterrupt::UART => 10,
            ExternalInterrupt::RTC => 11,
            ExternalInterrupt::Unknown(v) => *v,
        }
    }

    /// The write that sets the source's priority (0 to 7; higher bits are
    /// dropped).
    pub fn set_priority(&self, priority: u8) -> (w: MmioWrite)
        requires
            self.wf(),
            as_u32_spec(*self) <= 1024,
        ensures
            w.addr == plic_pri_spec(as_u32_spec(*self) as nat),
            w.value == priority as u32 % 8,
    {
        let n = self.as_u32();
        let p = priority as u32;
        assert(p & 7 == p % 8) by (bit_vector);
        MmioWrite { addr: plic_pri(n as usize), value: p & 7 }
    }

    /// The write that enables the source for a hart whose enable word
    /// holds `enables`.
    pub fn enable(&self, hartid: usize, enables: u32) -> (w: MmioWrite)
        requires
            self.wf(),
            as_u32_spec(*self) < 32,
            hartid <= MAX_HART,
        ensures
            w.addr == PLIC_SENABLE_BASE + hartid * 0x100,
            w.value == enables | (1u32 << as_u32_spec(*self) as u32),
    {
        let n = self.as_u32();
        MmioWrite { addr: plic_sen(hartid), value: enables | (1u32 << n) }
    }

    /// The write that tells the controller the source has been served.
    pub fn complete(&self, hartid: usize) -> (w: MmioWrite)
        requires
            self.wf(),
            hartid <= MAX_HART,
        ensures
            w.addr == PLIC_SCLAIM_BASE + hartid * 0x2000,
            w.value == as_u32_spec(*self),
    {
        MmioWrite { addr: plic_sclaim(hartid), value: self.as_u32() }
    }
}

/// The write that sets a hart's priority threshold (0 to 7; higher bits are
/// dropped): sources at or below it are masked.
pub fn set_threshold(hartid: usize, thrs: u8) -> (w: MmioWrite)
    requires
        hartid <= MAX_HART,
    ensures
        w.addr == PLIC_SPRIORITY_BASE + hartid * 0x2000,
        w.value == thrs as u32 % 8,
{
    let t = thrs as u32;
    assert(t & 7 == t % 8) by (bit_vector);
    MmioWrite { addr: plic_spri(hartid), value: t & 7 }
}

/// The writes that bring up the controller for a hart whose enable word
/// holds `enables`: the UART and the first virtio device enabled at
/// priority 7, and a threshold of 0.
pub fn init(hartid: usize, enables: u32) -> (ws: Vec<MmioWrite>)
    requires
        hartid <= MAX_HART,
    ensures
        ws@ == seq![
            MmioWrite { addr: (PLIC_SENABLE_BASE + hartid * 0x100) as usize, value: enables | (1u32 << 10u32) },
            MmioWrite { addr: plic_pri_spec(10) as usize, value: 7 },
            MmioWrite { addr: (PLIC_SENABLE_BASE + hartid * 0x100) as usize, value: enables | (1u32 << 10u32) | (1u32 << 1u32) },
            MmioWrite { addr: plic_pri_spec(1) as usize, value: 7 },
            MmioWrite { addr: (PLIC_SPRIORITY_BASE + hartid * 0x2000) as usize, value: 0 },
        ],
{
    let mut ws: Vec<MmioWrite> = Vec::new();
    let uart = ExternalInterrupt::UART;
    let virtio = ExternalInterrupt::VirtIO(0);
    let w1 = uart.enable(hartid, enables);
    ws.push(w1);
    ws.push(uart.set_priority(7));
    ws.push(virtio.enable(hartid, w1.value));
    ws.push(virtio.set_priority(7));
    ws.push(set_threshold(hartid, 0));
    proof {
        assert(7u8 as u32 % 8 == 7);
        assert(0u8 as u32 % 8 == 0);
    }
    ws
}

} // verus!
