//! Trap dispatch decisions: classify the cause register, check the saved
//! frame against it, say which handler runs, and step the saved program
//! counter past an exception on the way out.
use vstd::prelude::*;

use crate::context::TrapFrame;
use crate::plic::ExternalInterrupt;
use crate::stdio::{push_spec, InputMode, Stdin, BS, CR, DEL, LF};

verus! {

/// Timer ticks per second of the platform clock.
pub const CLOCK_FREQ: usize = 12500000;
/// Timer interrupts per second.
pub const TICKS_PER_SEC: usize = 100;
/// Ticks between two timer interrupts.
pub const TICK_INTERVAL: usize = 125000;
/// Divisor that turns a timer reading into milliseconds.
pub const TICKS_PER_MSEC: usize = 12500;
/// Width of an instruction that traps on purpose.
pub const INSTRUCTION_WIDTH: usize = 4;

/// Exception code of an illegal instruction.
pub const EXC_ILLEGAL_INSTRUCTION: usize = 2;
/// Exception code of an environment call from user mode.
pub const EXC_USER_ENV_CALL: usize = 8;
/// Interrupt code of the supervisor timer.
pub const IRQ_SUPERVISOR_TIMER: usize = 5;
/// Interrupt code of a supervisor external interrupt.
pub const IRQ_SUPERVISOR_EXTERNAL: usize = 9;

/// The interrupt bit: the top bit of the cause register.
pub open spec fn interrupt_bit() -> int {
    usize::MAX / 2 + 1
}

/// The cause names an interrupt rather than an exception.
pub open spec fn is_interrupt_spec(cause: usize) -> bool {
    cause >= interrupt_bit()
}

/// The cause register without its interrupt bit.
pub open spec fn code_spec(cause: usize) -> int {
    if is_interrupt_spec(cause) {
        cause - interrupt_bit()
    } else {
        cause as int
    }
}

/// What caused a trap, as far as the dispatcher tells causes apart.
#[derive(Clone, Copy, Debug, PartialEq, Eq, Structural)]
pub enum TrapCause {
    SupervisorTimer,
    SupervisorExternal,
    UserEnvCall,
    IllegalInstruction,
    /// Any other cause, with the raw register value.
    Other(usize),
}

/// The class of a cause register value.
pub open spec fn classify_spec(cause: usize) -> TrapCause {
    if is_interrupt_spec(cause) {
        if code_spec(cause) == IRQ_SUPERVISOR_TIMER {
            TrapCause::SupervisorTimer
        } else if code_spec(cause) == IRQ_SUPERVISOR_EXTERNAL {
            TrapCause::SupervisorExternal
        } else {
            TrapCause::Other(cause)
        }
    } else {
        if code_spec(cause) == EXC_USER_ENV_CALL {
            TrapCause::UserEnvCall
        } else if code_spec(cause) == EXC_ILLEGAL_INSTRUCTION {
            TrapCause::IllegalInstruction
        } else {
            TrapCause::Other(cause)
        }
    }
}

/// Whether a cause register value names an interrupt.
pub fn is_interrupt(cause: usize) -> (r: bool)
    ensures
        r == is_interrupt_spec(cause),
{
    cause > usize::MAX / 2
}

/// Whether a cause register value names an exception.
pub fn is_exception(cause: usize) -> (r: bool)
    ensures
        r == !is_interrupt_spec(cause),
{
    !is_interrupt(cause)
}

/// The code field of a cause register value.
pub fn code(cause: usize) -> (r: usize)
    ensures
        r == code_spec(cause),
{
    if is_interrupt(cause) {
        cause - (usize::MAX / 2 + 1)
    } else {
        cause
    }
}

/// Classify a cause register value.
pub fn classify(cause: usize) -> (r: TrapCause)
    ensures
        r == classify_spec(cause),
{
    let c = code(cause);
    if is_interrupt(cause) {
        if c == IRQ_SUPERVISOR_TIMER {
            TrapCause::SupervisorTimer
        } else if c == IRQ_SUPERVISOR_EXTERNAL {
            TrapCause::SupervisorExternal
        } else {
            TrapCause::Other(cause)
        }
    } else {
        if c == EXC_USER_ENV_CALL {
            TrapCause::UserEnvCall
        } else if c == EXC_ILLEGAL_INSTRUCTION {
            TrapCause::IllegalInstruction
        } else {
            TrapCause::Other(cause)
        }
    }
}

/// A trap the kernel cannot recover from.
#[derive(Clone, Copy, Debug, PartialEq, Eq, Structural)]
pub enum TrapFault {
    /// The cause register and the cause saved in the frame differ.
    CauseMismatch { hardware: usize, saved: usize },
    IllegalInstruction,
    /// A cause the dispatcher has no handler for.
    Unhandled(usize),
    /// The interrupt controller handed out source 0: nothing was pending.
    NoPendingInterrupt,
}

/// The handler a trap is routed to.
#[derive(Clone, Copy, Debug, PartialEq, Eq, Structural)]
pub enum TrapAction {
    /// Re-arm the timer.
    Timer,
    /// Claim the pending source from the interrupt controller and serve it.
    External,
    /// Re-enable interrupts, then run the system call in the frame.
    Syscall,
}

/// Which handler a trap with cause register `hw_cause` and saved frame
/// `frame` runs, or why it is fatal.
pub open spec fn trap_entry_spec(frame: TrapFrame, hw_cause: usize) -> Result<TrapAction, TrapFault> {
    if hw_cause != frame.scause {
        Err(TrapFault::CauseMismatch { hardware: hw_cause, saved: frame.scause })
    } else {
        match classify_spec(hw_cause) {
            TrapCause::SupervisorTimer => Ok(TrapAction::Timer),
            TrapCause::SupervisorExternal => Ok(TrapAction::External),
            TrapCause::UserEnvCall => Ok(TrapAction::Syscall),
            TrapCause::IllegalInstruction => Err(TrapFault::IllegalInstruction),
            TrapCause::Other(c) => Err(TrapFault::Unhandled(c)),
        }
    }
}

/// Entry of the dispatcher: the cause register must match the cause saved
/// in the frame; then the cause picks exactly one handler.
pub fn trap_entry(frame: &TrapFrame, hw_cause: usize) -> (r: Result<TrapAction, TrapFault>)
    ensures
        r == trap_entry_spec(*frame, hw_cause),
{
    if hw_cause != frame.scause {
        return Err(TrapFault::CauseMismatch { hardware: hw_cause, saved: frame.scause });
    }
    match classify(hw_cause) {
        TrapCause::SupervisorTimer => Ok(TrapAction::Timer),
        TrapCause::SupervisorExternal => Ok(TrapAction::External),
        TrapCause::UserEnvCall => Ok(TrapAction::Syscall),
        TrapCause::IllegalInstruction => Err(TrapFault::IllegalInstruction),
        TrapCause::Other(c) => Err(TrapFault::Unhandled(c)),
    }
}

/// Exit of the dispatcher: after an exception the saved program counter
/// steps over the trapping instruction; after an interrupt it stays, as
/// the interrupted instruction has not run. Nothing else in the frame
/// changes.
pub fn trap_exit(frame: &mut TrapFrame)
    ensures
        final(frame).sepc == if is_interrupt_spec(old(frame).scause) {
            old(frame).sepc as int
        } else {
            (old(frame).sepc + INSTRUCTION_WIDTH) % (usize::MAX + 1)
        },
        final(frame).regs == old(frame).regs,
        final(frame).sstatus == old(frame).sstatus,
        final(frame).scause == old(frame).scause,
{
    if is_exception(frame.scause) {
        frame.sepc = frame.sepc.wrapping_add(INSTRUCTION_WIDTH);
    }
}

/// The timer deadline one tick after `now`.
pub fn next_trigger(now: usize) -> (r: usize)
    requires
        now <= usize::MAX - TICK_INTERVAL,
    ensures
        r == now + CLOCK_FREQ / TICKS_PER_SEC,
{
    now + CLOCK_FREQ / TICKS_PER_SEC
}

/// A timer reading in milliseconds.
pub fn get_time_ms(time: usize) -> (r: usize)
    ensures
        r == time / TICKS_PER_MSEC,
{
    time / TICKS_PER_MSEC
}

/// How a claimed external interrupt is served.
#[derive(Clone, Copy, Debug, PartialEq, Eq, Structural)]
pub enum ExternalAction {
    /// Read one character from the console and hand it to `console_input`.
    ReadConsole,
    /// A source with no handler yet: log it and complete it.
    Ignore,
}

/// What to do for a claimed source. A claim of source 0 (nothing pending)
/// is fatal; every other source, known or not, is completed afterwards.
pub fn external_action(intr: &ExternalInterrupt) -> (r: Result<ExternalAction, TrapFault>)
    ensures
        *intr == ExternalInterrupt::NoInterrupt ==> r == Err::<ExternalAction, TrapFault>(
            TrapFault::NoPendingInterrupt,
        ),
        *intr == ExternalInterrupt::UART ==> r == Ok::<ExternalAction, TrapFault>(
            ExternalAction::ReadConsole,
        ),
        (*intr != ExternalInterrupt::NoInterrupt && *intr != ExternalInterrupt::UART) ==> r
            == Ok::<ExternalAction, TrapFault>(ExternalAction::Ignore),
{
    match intr {
        ExternalInterrupt::NoInterrupt => Err(TrapFault::NoPendingInterrupt),
        ExternalInterrupt::UART => Ok(ExternalAction::ReadConsole),
        _ => Ok(ExternalAction::Ignore),
    }
}

/// The character a console byte stands for: carriage return is read as a
/// line feed.
pub open spec fn input_char(byte: u8) -> char {
    if byte == 13 {
        LF
    } else {
        byte as char
    }
}

/// A byte read from the console: normalise it and feed it to the line
/// discipline. Returns the character to echo, and whether the line
/// discipline erased one (echoed as backspace, space, backspace).
pub fn console_input(stdin: &mut Stdin, byte: u8) -> (r: (char, bool))
    ensures
        r.0 == input_char(byte),
        (final(stdin).chars@, final(stdin).buffer@, final(stdin).state) == push_spec(
            old(stdin).chars@,
            old(stdin).buffer@,
            old(stdin).state,
            input_char(byte),
        ),
        r.1 == ((old(stdin).state == InputMode::Insert || old(stdin).state == InputMode::Replace)
            && (input_char(byte) == BS || input_char(byte) == DEL) && old(stdin).buffer@.len() > 0),
{
    let mut c = byte as char;
    if c == CR {
        c = LF;
    }
    proof {
        assert((13u8 as char) == CR);
    }
    let erased = stdin.push(c);
    (c, erased)
}

} // verus!
