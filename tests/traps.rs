use kernel::context::TrapFrame;
use kernel::plic::{self, ExternalInterrupt};
use kernel::sbi;
use kernel::stdio::{InputMode, Stdin};
use kernel::syscall::{
    decode_syscall, do_syscall, finish_read, ReadRequest, Syscall, SyscallEffect, SyscallError,
    SYSCALL_GETPID, SYSCALL_GETTIME, SYSCALL_READ, SYSCALL_REG_NUM, SYSCALL_SLEEP, SYSCALL_WRITE,
};
use kernel::task::TaskManager;
use kernel::trap::{
    classify, console_input, external_action, get_time_ms, next_trigger, trap_entry, trap_exit,
    ExternalAction, TrapAction, TrapCause, TrapFault,
};

const INTERRUPT: usize = 1 << (usize::BITS - 1);

fn frame_with_cause(cause: usize) -> TrapFrame {
    let mut f = TrapFrame::new();
    f.scause = cause;
    f.sepc = 0x1000;
    f
}

#[test]
fn classify_distinguishes_the_four_handled_causes() {
    assert_eq!(classify(INTERRUPT | 5), TrapCause::SupervisorTimer);
    assert_eq!(classify(INTERRUPT | 9), TrapCause::SupervisorExternal);
    assert_eq!(classify(8), TrapCause::UserEnvCall);
    assert_eq!(classify(2), TrapCause::IllegalInstruction);
    assert_eq!(classify(13), TrapCause::Other(13));
    assert_eq!(classify(INTERRUPT | 1), TrapCause::Other(INTERRUPT | 1));
}

#[test]
fn trap_entry_routes_and_exit_advances_only_exceptions() {
    let cases = [
        (INTERRUPT | 5, Ok(TrapAction::Timer), 0x1000),
        (INTERRUPT | 9, Ok(TrapAction::External), 0x1000),
        (8, Ok(TrapAction::Syscall), 0x1004),
    ];
    for (cause, action, pc) in cases {
        let mut f = frame_with_cause(cause);
        assert_eq!(trap_entry(&f, cause), action);
        trap_exit(&mut f);
        assert_eq!(f.sepc, pc);
    }
    let f = frame_with_cause(2);
    assert_eq!(trap_entry(&f, 2), Err(TrapFault::IllegalInstruction));
    let f = frame_with_cause(15);
    assert_eq!(trap_entry(&f, 15), Err(TrapFault::Unhandled(15)));
}

#[test]
fn cause_mismatch_is_fatal() {
    let f = frame_with_cause(8);
    assert_eq!(
        trap_entry(&f, INTERRUPT | 5),
        Err(TrapFault::CauseMismatch { hardware: INTERRUPT | 5, saved: 8 })
    );
}

#[test]
fn timer_arithmetic() {
    assert_eq!(next_trigger(1000), 126_000);
    assert_eq!(get_time_ms(25_000), 2);
}

#[test]
fn syscall_write_reports_the_buffer_and_returns_its_length() {
    let mut tm = TaskManager::new(0);
    tm.init();
    let mut f = TrapFrame::new();
    f.regs[SYSCALL_REG_NUM] = SYSCALL_WRITE;
    f.regs[10] = 1;
    f.regs[11] = 0x4000;
    f.regs[12] = 5;
    match do_syscall(&mut tm, &mut f, 0) {
        Ok(SyscallEffect::Output { buf, len }) => assert_eq!((buf, len), (0x4000, 5)),
        _ => panic!("write should succeed"),
    }
    assert_eq!(f.regs[10], 5);
    let sink: Vec<usize> = sbi::console_write(b"hello").iter().map(|c| c.arg0).collect();
    assert_eq!(sink, b"hello".iter().map(|b| *b as usize).collect::<Vec<_>>());
    assert!(sbi::console_write(b"hello").iter().all(|c| c.eid == 1));
    let crlf: Vec<usize> = sbi::console_write(b"a\r").iter().map(|c| c.arg0).collect();
    assert_eq!(crlf, vec![0x61, 0x0a]);
}

#[test]
fn syscall_errors() {
    let mut tm = TaskManager::new(0);
    tm.init();
    let mut f = TrapFrame::new();
    f.regs[SYSCALL_REG_NUM] = SYSCALL_WRITE;
    f.regs[10] = 0;
    assert_eq!(decode_syscall(&f), Err(SyscallError::UnsupportedFd(0)));
    f.regs[SYSCALL_REG_NUM] = SYSCALL_READ;
    f.regs[10] = 1;
    assert!(matches!(do_syscall(&mut tm, &mut f, 0), Err(SyscallError::UnsupportedFd(1))));
    f.regs[SYSCALL_REG_NUM] = 9999;
    assert!(matches!(do_syscall(&mut tm, &mut f, 0), Err(SyscallError::Unknown(9999))));
    f.regs[SYSCALL_REG_NUM] = SYSCALL_SLEEP;
    assert!(matches!(do_syscall(&mut tm, &mut f, 0), Err(SyscallError::Unimplemented(SYSCALL_SLEEP))));
    let mut empty = TaskManager::new(0);
    f.regs[SYSCALL_REG_NUM] = 93;
    assert!(matches!(do_syscall(&mut empty, &mut f, 0), Err(SyscallError::NoTask)));
}

#[test]
fn syscall_getpid_gettime_and_exit() {
    let mut tm = TaskManager::new(0);
    tm.init();
    tm.current_pid = 2;
    let mut f = TrapFrame::new();
    f.regs[SYSCALL_REG_NUM] = SYSCALL_GETPID;
    assert!(matches!(do_syscall(&mut tm, &mut f, 0), Ok(SyscallEffect::Done)));
    assert_eq!(f.regs[10], 2);
    f.regs[SYSCALL_REG_NUM] = SYSCALL_GETTIME;
    assert!(matches!(do_syscall(&mut tm, &mut f, 777), Ok(SyscallEffect::Done)));
    assert_eq!(f.regs[10], 777);
    f.regs[SYSCALL_REG_NUM] = 93;
    f.regs[10] = 0;
    assert_eq!(decode_syscall(&f), Ok(Syscall::Exit { code: 0 }));
    assert!(matches!(do_syscall(&mut tm, &mut f, 0), Ok(SyscallEffect::Switch { from: 2, to: 3 })));
    assert_eq!(tm.current_pid, 3);
}

#[test]
fn read_stops_at_line_end() {
    let mut stdin = Stdin::new();
    for c in ['h', 'i', '\n'] {
        stdin.push(c);
    }
    let mut tm = TaskManager::new(0);
    tm.init();
    let mut f = TrapFrame::new();
    f.regs[SYSCALL_REG_NUM] = SYSCALL_READ;
    f.regs[10] = 0;
    f.regs[11] = 0x9000;
    f.regs[12] = 10;
    let mut req = match do_syscall(&mut tm, &mut f, 0) {
        Ok(SyscallEffect::Read(req)) => req,
        _ => panic!("read should start"),
    };
    assert!(req.step(&mut stdin));
    assert_eq!(req.copied, b"hi".to_vec());
    finish_read(&mut f, &req);
    assert_eq!(f.regs[10], 2);
}

#[test]
fn read_waits_for_a_line_and_honours_the_length() {
    let mut stdin = Stdin::new();
    let mut req = ReadRequest::new(0, 3);
    assert!(!req.step(&mut stdin));
    for c in "abcdef\r".chars() {
        stdin.push(c);
    }
    assert!(req.step(&mut stdin));
    assert_eq!(req.copied, b"abc".to_vec());
    assert_eq!(stdin.pop(), Some('d'));
}

#[test]
fn line_discipline_edits_the_line() {
    let mut s = Stdin::new();
    s.push('a');
    s.push('b');
    assert!(s.push('\x08'));
    s.push('\t');
    s.push('\r');
    let got: Vec<char> = s.chars.iter().copied().collect();
    assert_eq!(got, vec!['a', ' ', ' ', '\n']);
    assert!(!s.push('\x7f'));
    s.push('\n');
    assert_eq!(s.chars.len(), 4);
}

#[test]
fn escape_sequences_are_consumed() {
    let mut s = Stdin::new();
    s.push('\x1b');
    assert_eq!(s.state, InputMode::EscapeState1);
    s.push('[');
    assert_eq!(s.state, InputMode::EscapeState2);
    s.push('A');
    assert_eq!(s.state, InputMode::Insert);
    s.push('x');
    s.flush();
    assert_eq!(s.pop(), Some('x'));
    assert_eq!(s.pop(), None);
    assert_eq!(InputMode::default(), InputMode::Insert);
}

#[test]
fn console_input_turns_carriage_return_into_line_feed() {
    let mut s = Stdin::new();
    assert_eq!(console_input(&mut s, b'o'), ('o', false));
    assert_eq!(console_input(&mut s, b'k'), ('k', false));
    assert_eq!(console_input(&mut s, b'\r'), ('\n', false));
    assert_eq!(s.pop(), Some('o'));
    assert_eq!(console_input(&mut s, b'z'), ('z', false));
    assert_eq!(console_input(&mut s, 0x7f), ('\x7f', true));
    assert_eq!(console_input(&mut s, 0x08), ('\x08', false));
}

#[test]
fn interrupt_sources_round_trip() {
    assert_eq!(ExternalInterrupt::from_code(10), ExternalInterrupt::UART);
    assert_eq!(ExternalInterrupt::from_code(11), ExternalInterrupt::RTC);
    assert_eq!(ExternalInterrupt::from_code(3), ExternalInterrupt::VirtIO(2));
    assert_eq!(ExternalInterrupt::from_code(0), ExternalInterrupt::NoInterrupt);
    assert_eq!(ExternalInterrupt::from_code(9), ExternalInterrupt::Unknown(9));
    assert_eq!(ExternalInterrupt::from_code(12), ExternalInterrupt::Unknown(12));
    for code in 0..40u32 {
        assert_eq!(ExternalInterrupt::from_code(code).as_u32(), code);
    }
    assert_eq!(external_action(&ExternalInterrupt::UART), Ok(ExternalAction::ReadConsole));
    assert_eq!(external_action(&ExternalInterrupt::RTC), Ok(ExternalAction::Ignore));
    assert_eq!(
        external_action(&ExternalInterrupt::NoInterrupt),
        Err(TrapFault::NoPendingInterrupt)
    );
}

#[test]
fn unknown_sources_are_completed() {
    for code in [1u32, 8, 9, 11, 12, 31, 1000] {
        let intr = ExternalInterrupt::from_code(code);
        assert_eq!(external_action(&intr), Ok(ExternalAction::Ignore));
        let w = intr.complete(0);
        assert_eq!((w.addr, w.value), (0xc20_1004, code));
    }
}

#[test]
fn plic_register_words() {
    let ws = plic::init(0, 0);
    assert_eq!(ws.len(), 5);
    assert_eq!((ws[0].addr, ws[0].value), (0xc00_2080, 1 << 10));
    assert_eq!((ws[1].addr, ws[1].value), (0xc00_0000 + 40, 7));
    assert_eq!((ws[2].addr, ws[2].value), (0xc00_2080, (1 << 10) | (1 << 1)));
    assert_eq!((ws[3].addr, ws[3].value), (0xc00_0004, 7));
    assert_eq!((ws[4].addr, ws[4].value), (0xc20_1000, 0));
    let c = ExternalInterrupt::UART.complete(1);
    assert_eq!((c.addr, c.value), (0xc20_1004 + 0x2000, 10));
    assert_eq!(ExternalInterrupt::RTC.set_priority(9).value, 1);
    assert_eq!(kernel::layout::plic_pri(10), 0xc00_0028);
    assert_eq!(kernel::layout::plic_sen(2), 0xc00_2280);
    assert_eq!(kernel::layout::plic_spri(1), 0xc20_3000);
}

#[test]
fn sbi_requests() {
    assert_eq!(sbi::console_putchar('\r' as usize).arg0, '\n' as usize);
    assert_eq!(sbi::console_putchar(0x141).arg0, 0x41);
    assert_eq!(sbi::console_getchar().eid, 2);
    let s = sbi::shutdown();
    assert_eq!((s.eid, s.fid), (0x53525354, 0));
    let t = sbi::set_timer(42);
    assert_eq!((t.eid, t.arg0), (0, 42));
}
