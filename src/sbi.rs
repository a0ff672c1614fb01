//! Requests to the supervisor binary interface (the firmware below the
//! kernel): which extension and function to call, with which arguments.
use vstd::prelude::*;

verus! {

/// Legacy extension: program the timer.
pub const SBI_SET_TIMER: usize = 0;
/// Legacy extension: write a console character.
pub const SBI_CONSOLE_PUTCHAR: usize = 1;
/// Legacy extension: read a console character.
pub const SBI_CONSOLE_GETCHAR: usize = 2;
/// System reset extension.
pub const SRST_EXTENSION: usize = 0x53525354;
/// System reset function: shut down.
pub const SBI_SHUTDOWN: usize = 0;

/// One firmware call: extension id, function id, and three arguments.
#[derive(Clone, Copy, Debug, PartialEq, Eq, Structural)]
pub struct SbiCall {
    pub eid: usize,
    pub fid: usize,
    pub arg0: usize,
    pub arg1: usize,
    pub arg2: usize,
}

/// The character the console is sent for `c`: carriage return becomes line
/// feed, and only the low byte is kept.
pub open spec fn console_char(c: usize) -> usize {
    if c % 256 == 13 {
        10
    } else {
        c % 256
    }
}

/// Write one character to the console.
pub fn console_putchar(c: usize) -> (r: SbiCall)
    ensures
        r == (SbiCall { eid: SBI_CONSOLE_PUTCHAR, fid: 0, arg0: console_char(c) as usize, arg1: 0, arg2: 0 }),
{
    let b = c % 256;
    let ch = if b == 13 {
        10
    } else {
        b
    };
    SbiCall { eid: SBI_CONSOLE_PUTCHAR, fid: 0, arg0: ch, arg1: 0, arg2: 0 }
}

/// Read one character from the console.
pub fn console_getchar() -> (r: SbiCall)
    ensures
        r == (SbiCall { eid: SBI_CONSOLE_GETCHAR, fid: 0, arg0: 0, arg1: 0, arg2: 0 }),
{
    SbiCall { eid: SBI_CONSOLE_GETCHAR, fid: 0, arg0: 0, arg1: 0, arg2: 0 }
}

/// Shut the machine down.
pub fn shutdown() -> (r: SbiCall)
    ensures
        r == (SbiCall { eid: SRST_EXTENSION, fid: SBI_SHUTDOWN, arg0: 0, arg1: 0, arg2: 0 }),
{
    SbiCall { eid: SRST_EXTENSION, fid: SBI_SHUTDOWN, arg0: 0, arg1: 0, arg2: 0 }
}

/// Raise a timer interrupt once the timer reaches `time`.
pub fn set_timer(time: usize) -> (r: SbiCall)
    ensures
        r == (SbiCall { eid: SBI_SET_TIMER, fid: 0, arg0: time, arg1: 0, arg2: 0 }),
{
    SbiCall { eid: SBI_SET_TIMER, fid: 0, arg0: time, arg1: 0, arg2: 0 }
}

/// The console calls that print `bytes`, one character per byte, in order.
pub fn console_write(bytes: &[u8]) -> (calls: Vec<SbiCall>)
    ensures
        calls@.len() == bytes@.len(),
        forall|i: int|
            0 <= i < bytes@.len() ==> #[trigger] calls@[i] == (SbiCall {
                eid: SBI_CONSOLE_PUTCHAR,
                fid: 0,
                arg0: console_char(bytes@[i] as usize) as usize,
                arg1: 0,
                arg2: 0,
            }),
{
    let mut calls: Vec<SbiCall> = Vec::new();
    let mut i: usize = 0;
    while i < bytes.len()
        invariant
            i <= bytes@.len(),
            calls@.len() == i,
            forall|j: int|
                0 <= j < i ==> #[trigger] calls@[j] == (SbiCall {
                    eid: SBI_CONSOLE_PUTCHAR,
                    fid: 0,
                    arg0: console_char(bytes@[j] as usize) as usize,
                    arg1: 0,
                    arg2: 0,
                }),
        decreases bytes@.len() - i,
    {
        calls.push(console_putchar(bytes[i] as usize));
        i = i + 1;
    }
    calls
}

} // verus!
