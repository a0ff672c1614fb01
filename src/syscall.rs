//! The system-call gateway: decode the call in a trap frame, perform the
//! kernel's part of it, and write the return value back into the frame.
use vstd::prelude::*;

use crate::context::TrapFrame;
use crate::stdio::{Stdin, CR, LF};
use crate::task::{switch_states, TaskManager};

verus! {

pub const SYSCALL_EXIT: usize = 93;
pub const SYSCALL_WRITE: usize = 64;
pub const SYSCALL_READ: usize = 63;
pub const SYSCALL_OPEN: usize = 56;
pub const SYSCALL_CLOSE: usize = 57;
pub const SYSCALL_YIELD: usize = 124;
pub const SYSCALL_FORK: usize = 220;
pub const SYSCALL_EXEC: usize = 221;
pub const SYSCALL_WAITPID: usize = 260;
pub const SYSCALL_GETPID: usize = 172;
pub const SYSCALL_SLEEP: usize = 101;
pub const SYSCALL_SBRK: usize = 400;
pub const SYSCALL_GETTIME: usize = 169;
pub const SYSCALL_GETCWD: usize = 17;

/// Register that holds the call number (a7).
pub const SYSCALL_REG_NUM: usize = 17;
/// Register of the first argument (a0).
pub const SYSCALL_REG_ARG0: usize = 10;
pub const SYSCALL_REG_ARG1: usize = 11;
pub const SYSCALL_REG_ARG2: usize = 12;
/// Register that receives the return value (a0).
pub const SYSCALL_REG_RET: usize = 10;

pub const STDIN: usize = 0;
pub const STDOUT: usize = 1;
pub const STDERR: usize = 2;

/// A decoded system call.
#[derive(Clone, Copy, Debug, PartialEq, Eq, Structural)]
pub enum Syscall {
    Exit { code: usize },
    GetPid,
    Write { fd: usize, buf: usize, len: usize },
    Read { fd: usize, buf: usize, len: usize },
    Sleep { ticks: usize },
    GetTime,
}

/// A system call the kernel refuses; each is fatal to the kernel.
#[derive(Clone, Copy, Debug, PartialEq, Eq, Structural)]
pub enum SyscallError {
    /// No such call number.
    Unknown(usize),
    /// Reads go to stdin only, writes to stdout or stderr only.
    UnsupportedFd(usize),
    /// A known call with no implementation yet.
    Unimplemented(usize),
    /// `exit` with no task to switch to.
    NoTask,
}

/// The call in a frame, by its number and argument registers.
pub open spec fn decode_spec(frame: TrapFrame) -> Result<Syscall, SyscallError> {
    let num = frame.regs[SYSCALL_REG_NUM as int];
    let a0 = frame.regs[SYSCALL_REG_ARG0 as int];
    let a1 = frame.regs[SYSCALL_REG_ARG1 as int];
    let a2 = frame.regs[SYSCALL_REG_ARG2 as int];
    if num == SYSCALL_EXIT {
        Ok(Syscall::Exit { code: a0 })
    } else if num == SYSCALL_GETPID {
        Ok(Syscall::GetPid)
    } else if num == SYSCALL_WRITE {
        if a0 == STDOUT || a0 == STDERR {
            Ok(Syscall::Write { fd: a0, buf: a1, len: a2 })
        } else {
            Err(SyscallError::UnsupportedFd(a0))
        }
    } else if num == SYSCALL_READ {
        if a0 == STDIN {
            Ok(Syscall::Read { fd: a0, buf: a1, len: a2 })
        } else {
            Err(SyscallError::UnsupportedFd(a0))
        }
    } else if num == SYSCALL_SLEEP {
        Ok(Syscall::Sleep { ticks: a0 })
    } else if num == SYSCALL_GETTIME {
        Ok(Syscall::GetTime)
    } else {
        Err(SyscallError::Unknown(num))
    }
}

/// Decode the system call in a frame.
pub fn decode_syscall(frame: &TrapFrame) -> (r: Result<Syscall, SyscallError>)
    ensures
        r == decode_spec(*frame),
{
    let num = frame.regs[SYSCALL_REG_NUM];
    let a0 = frame.regs[SYSCALL_REG_ARG0];
    let a1 = frame.regs[SYSCALL_REG_ARG1];
    let a2 = frame.regs[SYSCALL_REG_ARG2];
    if num == SYSCALL_EXIT {
        Ok(Syscall::Exit { code: a0 })
    } else if num == SYSCALL_GETPID {
        Ok(Syscall::GetPid)
    } else if num == SYSCALL_WRITE {
        if a0 == STDOUT || a0 == STDERR {
            Ok(Syscall::Write { fd: a0, buf: a1, len: a2 })
        } else {
            Err(SyscallError::UnsupportedFd(a0))
        }
    } else if num == SYSCALL_READ {
        if a0 == STDIN {
            Ok(Syscall::Read { fd: a0, buf: a1, len: a2 })
        } else {
            Err(SyscallError::UnsupportedFd(a0))
        }
    } else if num == SYSCALL_SLEEP {
        Ok(Syscall::Sleep { ticks: a0 })
    } else if num == SYSCALL_GETTIME {
        Ok(Syscall::GetTime)
    } else {
        Err(SyscallError::Unknown(num))
    }
}

/// The byte that a console character is copied to a user buffer as.
pub open spec fn char_byte(c: char) -> u8 {
    #[verifier::truncate] ((c as u32) as u8)
}

/// Reading from `input` into a buffer of `len` bytes that holds `copied`
/// already: line ends before the first copied byte are skipped, the first
/// line end after it stops the read, and so does a full buffer. Returns the
/// bytes copied, how many characters were taken from `input`, and whether
/// the read is over (otherwise `input` ran dry first).
pub open spec fn read_spec(input: Seq<char>, len: nat, copied: Seq<u8>) -> (Seq<u8>, nat, bool)
    decreases input.len(),
{
    if copied.len() >= len {
        (copied, 0, true)
    } else if input.len() == 0 {
        (copied, 0, false)
    } else if input[0] == CR || input[0] == LF {
        if copied.len() > 0 {
            (copied, 1, true)
        } else {
            let r = read_spec(input.drop_first(), len, copied);
            (r.0, r.1 + 1, r.2)
        }
    } else {
        let r = read_spec(input.drop_first(), len, copied.push(char_byte(input[0])));
        (r.0, r.1 + 1, r.2)
    }
}

/// A read from stdin in progress.
pub struct ReadRequest {
    /// User address the bytes go to.
    pub buf: usize,
    /// Bytes asked for.
    pub len: usize,
    /// Bytes copied so far.
    pub copied: Vec<u8>,
}

impl ReadRequest {
    /// A read of `len` bytes into `buf`, with nothing copied yet.
    pub fn new(buf: usize, len: usize) -> (r: Self)
        ensures
            r.buf == buf,
            r.len == len,
            r.copied@.len() == 0,
    {
        ReadRequest { buf, len, copied: Vec::new() }
    }

    /// Take what stdin has ready; return whether the read is over. When it
    /// is not, stdin ran dry: call again once more input has arrived.
    pub fn step(&mut self, stdin: &mut Stdin) -> (done: bool)
        ensures
            ({
                let r = read_spec(old(stdin).chars@, old(self).len as nat, old(self).copied@);
                &&& final(self).copied@ == r.0
                &&& final(stdin).chars@ == old(stdin).chars@.skip(r.1 as int)
                &&& done == r.2
            }),
            final(self).buf == old(self).buf,
            final(self).len == old(self).len,
            final(stdin).buffer@ == old(stdin).buffer@,
            final(stdin).state == old(stdin).state,
    {
        let ghost goal = read_spec(stdin.chars@, self.len as nat, self.copied@);
        let ghost taken: nat = 0;
        while self.copied.len() < self.len
            invariant
                self.buf == old(self).buf,
                self.len == old(self).len,
                stdin.buffer@ == old(stdin).buffer@,
                stdin.state == old(stdin).state,
                goal == read_spec(old(stdin).chars@, old(self).len as nat, old(self).copied@),
                taken <= old(stdin).chars@.len(),
                stdin.chars@ == old(stdin).chars@.skip(taken as int),
                ({
                    let r = read_spec(stdin.chars@, self.len as nat, self.copied@);
                    &&& goal.0 == r.0
                    &&& goal.1 == r.1 + taken
                    &&& goal.2 == r.2
                }),
            decreases stdin.chars@.len(),
        {
            let ghost before = stdin.chars@;
            let ghost before_copied = self.copied@;
            match stdin.pop() {
                None => {
                    proof {
                        assert(read_spec(before, self.len as nat, before_copied) == (
                            before_copied,
                            0nat,
                            false,
                        ));
                    }
                    return false;
                },
                Some(c) => {
                    proof {
                        taken = taken + 1;
                        assert(stdin.chars@ =~= old(stdin).chars@.skip(taken as int));
                    }
                    if c == CR || c == LF {
                        if self.copied.len() > 0 {
                            proof {
                                assert(read_spec(before, self.len as nat, before_copied) == (
                                    before_copied,
                                    1nat,
                                    true,
                                ));
                            }
                            return true;
                        }
                        proof {
                            assert(read_spec(before, self.len as nat, before_copied) == ({
                                let r = read_spec(before.drop_first(), self.len as nat, before_copied);
                                (r.0, r.1 + 1, r.2)
                            }));
                        }
                    } else {
                        let b = #[verifier::truncate] ((c as u32) as u8);
                        self.copied.push(b);
                        proof {
                            assert(read_spec(before, self.len as nat, before_copied) == ({
                                let r = read_spec(
                                    before.drop_first(),
                                    self.len as nat,
                                    before_copied.push(b),
                                );
                                (r.0, r.1 + 1, r.2)
                            }));
                        }
                    }
                },
            }
        }
        true
    }
}

/// What the caller does to finish a system call.
pub enum SyscallEffect {
    /// Nothing: the return value is in the frame.
    Done,
    /// Send the `len` bytes at user address `buf` to the console.
    Output { buf: usize, len: usize },
    /// Drive the read with `ReadRequest::step` until it is over, copy its
    /// bytes to the user buffer, then call `finish_read`.
    Read(ReadRequest),
    /// The task exited: switch from task `from` to task `to`.
    Switch { from: usize, to: usize },
}

/// Perform the kernel's part of the system call in `frame`, at timer
/// reading `now`.
///
/// `exit` switches to the next task in round-robin order; the exiting task
/// stays in rotation. `getpid` returns the current task's index, `gettime`
/// the timer reading, and `write` the number of bytes asked for.
pub fn do_syscall(tasks: &mut TaskManager, frame: &mut TrapFrame, now: usize) -> (r: Result<
    SyscallEffect,
    SyscallError,
>)
    requires
        old(tasks).wf(),
    ensures
        final(tasks).wf(),
        final(frame).sepc == old(frame).sepc,
        final(frame).scause == old(frame).scause,
        final(frame).sstatus == old(frame).sstatus,
        forall|i: int|
            0 <= i < 32 && i != SYSCALL_REG_RET ==> #[trigger] final(frame).regs[i] == old(
            frame).regs[i],
        match decode_spec(*old(frame)) {
            Err(e) => r == Err::<SyscallEffect, SyscallError>(e) && *final(tasks) == *old(tasks)
                && final(frame).regs == old(frame).regs,
            Ok(Syscall::Exit { code }) => if old(tasks).tasks@.len() == 0 {
                r == Err::<SyscallEffect, SyscallError>(SyscallError::NoTask)
            } else {
                &&& r matches Ok(SyscallEffect::Switch { from, to })
                &&& r->Ok_0->from == old(tasks).current_pid
                &&& r->Ok_0->to == final(tasks).current_pid
                &&& final(tasks).current_pid == (old(tasks).current_pid + 1) % (old(
                    tasks,
                ).tasks@.len() as int)
                &&& final(tasks).states() == switch_states(
                    old(tasks).states(),
                    old(tasks).current_pid as nat,
                )
                &&& final(frame).regs == old(frame).regs
            },
            Ok(Syscall::GetPid) => r matches Ok(SyscallEffect::Done) && final(frame).regs[
                SYSCALL_REG_RET as int] == old(tasks).current_pid && *final(tasks) == *old(tasks),
            Ok(Syscall::Write { fd, buf, len }) => r == Ok::<SyscallEffect, SyscallError>(
                SyscallEffect::Output { buf, len },
            ) && final(frame).regs[SYSCALL_REG_RET as int] == len && *final(tasks) == *old(tasks),
            Ok(Syscall::Read { fd, buf, len }) => {
                &&& r matches Ok(SyscallEffect::Read(req))
                &&& r->Ok_0->Read_0.buf == buf
                &&& r->Ok_0->Read_0.len == len
                &&& r->Ok_0->Read_0.copied@.len() == 0
                &&& final(frame).regs == old(frame).regs
                &&& *final(tasks) == *old(tasks)
            },
            Ok(Syscall::Sleep { ticks }) => r == Err::<SyscallEffect, SyscallError>(
                SyscallError::Unimplemented(SYSCALL_SLEEP),
            ) && final(frame).regs == old(frame).regs && *final(tasks) == *old(tasks),
            Ok(Syscall::GetTime) => r matches Ok(SyscallEffect::Done) && final(frame).regs[
                SYSCALL_REG_RET as int] == now && *final(tasks) == *old(tasks),
        },
{
    match decode_syscall(frame) {
        Err(e) => Err(e),
        Ok(Syscall::Exit { code }) => {
            if tasks.tasks.len() == 0 {
                Err(SyscallError::NoTask)
            } else {
                let (from, to) = tasks.switch_task();
                Ok(SyscallEffect::Switch { from, to })
            }
        },
        Ok(Syscall::GetPid) => {
            frame.regs[SYSCALL_REG_RET] = tasks.current_pid;
            Ok(SyscallEffect::Done)
        },
        Ok(Syscall::Write { fd, buf, len }) => {
            frame.regs[SYSCALL_REG_RET] = len;
            Ok(SyscallEffect::Output { buf, len })
        },
        Ok(Syscall::Read { fd, buf, len }) => Ok(SyscallEffect::Read(ReadRequest::new(buf, len))),
        Ok(Syscall::Sleep { ticks }) => Err(SyscallError::Unimplemented(SYSCALL_SLEEP)),
        Ok(Syscall::GetTime) => {
            frame.regs[SYSCALL_REG_RET] = now;
            Ok(SyscallEffect::Done)
        },
    }
}

/// Write the number of bytes a finished read copied into the frame's
/// return register.
pub fn finish_read(frame: &mut TrapFrame, req: &ReadRequest)
    ensures
        final(frame).regs@ == old(frame).regs@.update(SYSCALL_REG_RET as int, req.copied@.len() as usize),
        final(frame).sepc == old(frame).sepc,
        final(frame).scause == old(frame).scause,
        final(frame).sstatus == old(frame).sstatus,
{
    frame.regs[SYSCALL_REG_RET] = req.copied.len();
}

} // verus!
