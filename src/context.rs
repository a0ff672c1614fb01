//! Register snapshots: the full trap frame saved on every trap entry, and the
//! callee-saved switch frame used by the cooperative context switch.
use vstd::prelude::*;

verus! {

/// A machine register.
pub type Reg = usize;

/// All 32 general-purpose registers plus the supervisor status, exception
/// program counter and cause registers, as saved by the trap vector.
#[derive(Clone, Copy)]
pub struct TrapFrame {
    pub regs: [Reg; 32],
    pub sstatus: Reg,
    pub sepc: Reg,
    pub scause: Reg,
}

impl TrapFrame {
    /// Every register of the frame is zero.
    pub open spec fn is_zero(&self) -> bool {
        &&& forall|i: int| 0 <= i < 32 ==> self.regs[i] == 0
        &&& self.sstatus == 0
        &&& self.sepc == 0
        &&& self.scause == 0
    }

    /// A frame with every register zero.
    pub fn new() -> (r: Self)
        ensures
            r.is_zero(),
    {
        TrapFrame { regs: [0; 32], sstatus: 0, sepc: 0, scause: 0 }
    }
}

/// What a cooperative switch must keep: the return address, the stack
/// pointer and the twelve callee-saved registers.
#[derive(Clone, Copy)]
pub struct Context {
    pub ra: Reg,
    pub sp: Reg,
    pub s0: Reg,
    pub s1: Reg,
    pub s2: Reg,
    pub s3: Reg,
    pub s4: Reg,
    pub s5: Reg,
    pub s6: Reg,
    pub s7: Reg,
    pub s8: Reg,
    pub s9: Reg,
    pub s10: Reg,
    pub s11: Reg,
}

impl Context {
    /// Every register of the context is zero.
    pub open spec fn is_zero(&self) -> bool {
        &&& self.ra == 0
        &&& self.sp == 0
        &&& self.callee_saved_zero()
    }

    /// The twelve callee-saved registers are zero.
    pub open spec fn callee_saved_zero(&self) -> bool {
        &&& self.s0 == 0
        &&& self.s1 == 0
        &&& self.s2 == 0
        &&& self.s3 == 0
        &&& self.s4 == 0
        &&& self.s5 == 0
        &&& self.s6 == 0
        &&& self.s7 == 0
        &&& self.s8 == 0
        &&& self.s9 == 0
        &&& self.s10 == 0
        &&& self.s11 == 0
    }

    /// A context with every register zero.
    pub fn new() -> (r: Self)
        ensures
            r.is_zero(),
    {
        Context {
            ra: 0,
            sp: 0,
            s0: 0,
            s1: 0,
            s2: 0,
            s3: 0,
            s4: 0,
            s5: 0,
            s6: 0,
            s7: 0,
            s8: 0,
            s9: 0,
            s10: 0,
            s11: 0,
        }
    }
}

} // verus!
