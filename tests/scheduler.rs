use kernel::context::{Context, TrapFrame};
use kernel::layout::{kstack, KSTACKTOP, STACKSIZE};
use kernel::task::{Task, TaskManager, TaskState, INIT_TASKS};

const TRAMPOLINE: usize = 0x8020_1000;

#[test]
fn round_robin_returns_to_origin_after_n_switches() {
    let mut tm = TaskManager::new(TRAMPOLINE);
    tm.init();
    let n = tm.tasks.len();
    assert_eq!(n, INIT_TASKS);
    let origin = tm.current_pid;
    let mut running = vec![0usize; n];
    let mut ready = vec![0usize; n];
    for _ in 0..n {
        tm.switch_task();
        for (i, t) in tm.tasks.iter().enumerate() {
            match t.state {
                TaskState::Running => running[i] += 1,
                TaskState::Ready => ready[i] += 1,
                _ => panic!("unexpected state"),
            }
        }
    }
    assert_eq!(tm.current_pid, origin);
    for i in 0..n {
        assert_eq!(running[i], 1);
        assert_eq!(ready[i], n - 1);
    }
}

#[test]
fn switch_task_returns_outgoing_and_incoming_indices() {
    let mut tm = TaskManager::new(TRAMPOLINE);
    tm.init();
    assert_eq!(tm.switch_task(), (0, 1));
    assert_eq!(tm.tasks[0].state, TaskState::Ready);
    assert_eq!(tm.tasks[1].state, TaskState::Running);
    tm.current_pid = 4;
    assert_eq!(tm.switch_task(), (4, 0));
    assert_eq!(tm.current_pid, 0);
}

#[test]
fn single_task_switches_to_itself() {
    let mut tm = TaskManager::new(TRAMPOLINE);
    let pid = tm.create_task();
    assert_eq!(pid, 0);
    assert_eq!(tm.switch_task(), (0, 0));
    assert_eq!(tm.current_pid, 0);
    assert_eq!(tm.tasks[0].state, TaskState::Running);
}

#[test]
fn new_task_owns_its_stack_slot_and_enters_trampoline() {
    let t = Task::new(3, TRAMPOLINE);
    assert_eq!(t.pid, 3);
    assert_eq!(t.state, TaskState::Ready);
    assert_eq!(t.kstack, KSTACKTOP - 3 * STACKSIZE);
    assert_eq!(t.kstack, kstack(3));
    assert_eq!(t.context.sp, t.kstack);
    assert_eq!(t.context.ra, TRAMPOLINE);
    assert_eq!(kstack(0), 0x8800_0000);
    let c = t.context;
    assert_eq!([c.s0, c.s1, c.s2, c.s3, c.s4, c.s5, c.s6, c.s7, c.s8, c.s9, c.s10, c.s11], [0; 12]);
    assert!(t.trapframe.regs.iter().all(|r| *r == 0));
    assert_eq!((t.trapframe.sstatus, t.trapframe.sepc, t.trapframe.scause), (0, 0, 0));
}

#[test]
fn create_task_assigns_sequential_indices() {
    let mut tm = TaskManager::new(TRAMPOLINE);
    for expected in 0..3 {
        assert_eq!(tm.create_task(), expected);
    }
    assert_eq!(tm.tasks[2].pid, 2);
    assert_eq!(tm.tasks[2].context.sp, kstack(2));
}

#[test]
fn context_and_trap_frame_have_fixed_sizes() {
    assert_eq!(core::mem::size_of::<Context>(), 14 * core::mem::size_of::<usize>());
    assert_eq!(core::mem::size_of::<TrapFrame>(), 35 * core::mem::size_of::<usize>());
}

#[test]
fn switch_leaves_saved_registers_alone() {
    let mut tm = TaskManager::new(TRAMPOLINE);
    tm.init();
    for (i, t) in tm.tasks.iter_mut().enumerate() {
        t.context.s0 = 0xdead_0000 + i;
        t.context.s11 = 0xbeef_0000 + i;
        t.trapframe.regs[5] = 0x5000 + i;
        t.trapframe.sepc = 0x7000 + i;
    }
    let before: Vec<(usize, usize, usize, usize, usize, usize)> = tm
        .tasks
        .iter()
        .map(|t| (t.context.ra, t.context.sp, t.context.s0, t.context.s11, t.trapframe.regs[5], t.trapframe.sepc))
        .collect();
    tm.switch_task();
    tm.switch_task();
    let after: Vec<(usize, usize, usize, usize, usize, usize)> = tm
        .tasks
        .iter()
        .map(|t| (t.context.ra, t.context.sp, t.context.s0, t.context.s11, t.trapframe.regs[5], t.trapframe.sepc))
        .collect();
    assert_eq!(before, after);
}

#[test]
fn fresh_frames_are_zero() {
    let f = TrapFrame::new();
    assert!(f.regs.iter().all(|r| *r == 0));
    assert_eq!((f.sstatus, f.sepc, f.scause), (0, 0, 0));
    let c = Context::new();
    assert_eq!((c.ra, c.sp, c.s0, c.s11), (0, 0, 0, 0));
}
