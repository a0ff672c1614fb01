//! The task manager: an insertion-ordered list of tasks, each with its own
//! kernel stack slot, switched in strict round-robin order.
use vstd::prelude::*;

use crate::context::{Context, TrapFrame};
use crate::layout::{kstack, kstack_spec, MAX_TASKS};

verus! {

/// Number of tasks that `TaskManager::init` spawns.
pub const INIT_TASKS: usize = 5;

/// Scheduling state of a task.
#[derive(Clone, Copy, Debug, PartialEq, Eq, Structural)]
pub enum TaskState {
    Running,
    Ready,
    Blocked,
    Exited,
}

/// A task control block.
pub struct Task {
    /// Index of the task in its manager; also selects its stack slot.
    pub pid: usize,
    pub state: TaskState,
    /// Top of the task's kernel stack.
    pub kstack: usize,
    /// Saved callee registers, stack pointer and return address.
    pub context: Context,
    /// Registers saved when the task traps.
    pub trapframe: TrapFrame,
}

impl Task {
    /// A fresh task of index `pid` is Ready, owns stack slot `pid`, and on its
    /// first resume returns into `trampoline` on top of that stack, with
    /// zero callee-saved registers and an all-zero trap frame.
    pub open spec fn fresh(&self, pid: nat, trampoline: usize) -> bool {
        &&& self.pid == pid
        &&& self.state == TaskState::Ready
        &&& self.kstack == kstack_spec(pid)
        &&& self.context.sp == self.kstack
        &&& self.context.ra == trampoline
        &&& self.context.callee_saved_zero()
        &&& self.trapframe.is_zero()
    }

    /// Create task `pid`, whose first resume enters `trampoline`.
    pub fn new(pid: usize, trampoline: usize) -> (r: Self)
        requires
            pid < MAX_TASKS,
        ensures
            r.fresh(pid as nat, trampoline),
    {
        let stack = kstack(pid);
        let mut context = Context::new();
        context.sp = stack;
        context.ra = trampoline;
        Task { pid, state: TaskState::Ready, kstack: stack, context, trapframe: TrapFrame::new() }
    }

    /// Change the scheduling state.
    pub fn set_state(&mut self, state: TaskState)
        ensures
            final(self).state == state,
            final(self).pid == old(self).pid,
            final(self).kstack == old(self).kstack,
            final(self).context == old(self).context,
            final(self).trapframe == old(self).trapframe,
    {
        self.state = state;
    }
}

/// The states after one round-robin switch away from index `cur`: the
/// outgoing task is marked Ready, then the incoming one Running.
pub open spec fn switch_states(states: Seq<TaskState>, cur: nat) -> Seq<TaskState> {
    states.update(cur as int, TaskState::Ready).update(
        ((cur + 1) % states.len()) as int,
        TaskState::Running,
    )
}

/// The current index and the states after `k` successive switches.
pub open spec fn run_switches(states: Seq<TaskState>, cur: nat, k: nat) -> (Seq<TaskState>, nat)
    decreases k,
{
    if k == 0 {
        (states, cur)
    } else {
        let (s, c) = run_switches(states, cur, (k - 1) as nat);
        (switch_states(s, c), ((c + 1) % states.len()) as nat)
    }
}

/// `post` is `pre` after one `switch_task`: the cursor moved on by one,
/// wrapping, and the states changed as `switch_states` says.
pub open spec fn switch_post(pre: TaskManager, post: TaskManager) -> bool {
    &&& post.wf()
    &&& post.tasks@.len() == pre.tasks@.len()
    &&& post.current_pid == (pre.current_pid + 1) % (pre.tasks@.len() as int)
    &&& post.states() == switch_states(pre.states(), pre.current_pid as nat)
}

/// Owner of every task and of the round-robin cursor.
pub struct TaskManager {
    pub tasks: Vec<Task>,
    pub current_pid: usize,
    /// Entry point of every new task's first resume.
    pub trampoline: usize,
}

impl TaskManager {
    /// Tasks sit at their own index, there is room for their stacks, and
    /// the cursor names a task whenever there is one.
    pub open spec fn wf(&self) -> bool {
        &&& self.tasks.len() <= MAX_TASKS
        &&& (self.tasks.len() == 0 ==> self.current_pid == 0)
        &&& (self.tasks.len() > 0 ==> self.current_pid < self.tasks.len())
        &&& forall|i: int| 0 <= i < self.tasks.len() ==> (#[trigger] self.tasks[i]).pid == i
    }

    /// The scheduling state of every task, in order.
    pub open spec fn states(&self) -> Seq<TaskState> {
        self.tasks@.map_values(|t: Task| t.state)
    }

    /// An empty manager whose tasks will start at `trampoline`.
    pub fn new(trampoline: usize) -> (r: Self)
        ensures
            r.wf(),
            r.tasks@.len() == 0,
            r.current_pid == 0,
            r.trampoline == trampoline,
    {
        TaskManager { tasks: Vec::new(), current_pid: 0, trampoline }
    }

    /// Spawn the initial batch of tasks.
    pub fn init(&mut self)
        requires
            old(self).wf(),
            old(self).tasks.len() + INIT_TASKS <= MAX_TASKS,
        ensures
            final(self).wf(),
            final(self).tasks@.len() == old(self).tasks@.len() + INIT_TASKS,
            final(self).tasks@.subrange(0, old(self).tasks@.len() as int) == old(self).tasks@,
            forall|i: int|
                #![trigger final(self).tasks@[i]]
                old(self).tasks@.len() <= i < final(self).tasks@.len() ==> final(self).tasks@[i].fresh(i as nat, old(self).trampoline),
            final(self).current_pid == old(self).current_pid,
            final(self).trampoline == old(self).trampoline,
    {
        let ghost start = self.tasks@;
        let mut k: usize = 0;
        while k < INIT_TASKS
            invariant
                self.wf(),
                k <= INIT_TASKS,
                self.tasks@.len() == start.len() + k,
                start.len() + INIT_TASKS <= MAX_TASKS,
                self.tasks@.subrange(0, start.len() as int) == start,
                forall|i: int|
                    start.len() <= i < self.tasks@.len() ==> (#[trigger] self.tasks[i]).fresh(
                        i as nat,
                        self.trampoline,
                    ),
                self.current_pid == old(self).current_pid,
                self.trampoline == old(self).trampoline,
                start == old(self).tasks@,
            decreases INIT_TASKS - k,
        {
            let ghost before = self.tasks@;
            self.create_task();
            assert(self.tasks@.subrange(0, start.len() as int) =~= before.subrange(
                0,
                start.len() as int,
            ));
            k = k + 1;
        }
    }

    /// Append a new task at the next index and return that index.
    pub fn create_task(&mut self) -> (pid: usize)
        requires
            old(self).wf(),
            old(self).tasks.len() < MAX_TASKS,
        ensures
            final(self).wf(),
            pid == old(self).tasks@.len(),
            final(self).tasks@ == old(self).tasks@.push(final(self).tasks@[pid as int]),
            final(self).tasks@[pid as int].fresh(pid as nat, old(self).trampoline),
            final(self).current_pid == old(self).current_pid,
            final(self).trampoline == old(self).trampoline,
    {
        let pid = self.tasks.len();
        let task = Task::new(pid, self.trampoline);
        self.tasks.push(task);
        pid
    }

    /// Round-robin switch: the cursor moves to the next index (wrapping),
    /// the outgoing task becomes Ready and the incoming one Running. Returns
    /// the outgoing and incoming indices, whose contexts the caller hands to
    /// the register-level switch.
    pub fn switch_task(&mut self) -> (r: (usize, usize))
        requires
            old(self).wf(),
            old(self).tasks.len() > 0,
        ensures
            final(self).wf(),
            switch_post(*old(self), *final(self)),
            r.0 == old(self).current_pid,
            r.1 == (old(self).current_pid + 1) % (old(self).tasks.len() as int),
            final(self).current_pid == r.1,
            final(self).trampoline == old(self).trampoline,
            final(self).tasks@.len() == old(self).tasks@.len(),
            final(self).states() == switch_states(old(self).states(), old(self).current_pid as nat),
            forall|i: int|
                0 <= i < old(self).tasks.len() ==> {
                    &&& (#[trigger] final(self).tasks[i]).pid == old(self).tasks[i].pid
                    &&& final(self).tasks[i].kstack == old(self).tasks[i].kstack
                    &&& final(self).tasks[i].context == old(self).tasks[i].context
                    &&& final(self).tasks[i].trapframe == old(self).tasks[i].trapframe
                },
    {
        let cur = self.current_pid;
        let next = (cur + 1) % self.tasks.len();
        let mut out = self.tasks[cur].clone_task();
        out.set_state(TaskState::Ready);
        self.tasks.set(cur, out);
        let mut inc = self.tasks[next].clone_task();
        inc.set_state(TaskState::Running);
        self.tasks.set(next, inc);
        self.current_pid = next;
        assert(self.states() =~= switch_states(old(self).states(), cur as nat));
        (cur, next)
    }
}

impl Task {
    /// A field-by-field copy.
    fn clone_task(&self) -> (r: Self)
        ensures
            r == *self,
    {
        Task {
            pid: self.pid,
            state: self.state,
            kstack: self.kstack,
            context: self.context,
            trapframe: self.trapframe,
        }
    }
}

/// The index that the `k`-th switch from `cur` lands on, among `n` tasks.
pub open spec fn rr_slot(cur: nat, k: nat, n: nat) -> nat {
    (cur + k) % n
}

/// The switch, counted from 1, on which the task at index `i` is switched
/// to when starting from `cur` among `n` tasks.
pub open spec fn rr_turn(cur: nat, i: nat, n: nat) -> nat {
    if i > cur {
        (i - cur) as nat
    } else {
        (i + n - cur) as nat
    }
}

/// Round-robin fairness. Starting from `n` tasks where every task but the
/// current one is Ready, each of `n` successive switches leaves exactly the
/// task it switched to Running and every other task Ready; every task is
/// switched to exactly once, and after the `n`-th switch the cursor is back
/// where it started.
pub proof fn lemma_round_robin(states: Seq<TaskState>, cur: nat)
    requires
        states.len() > 0,
        cur < states.len(),
        forall|j: int| 0 <= j < states.len() && j != cur ==> states[j] == TaskState::Ready,
        states[cur as int] == TaskState::Ready || states[cur as int] == TaskState::Running,
    ensures
        run_switches(states, cur, states.len()).1 == cur,
        forall|k: nat, i: int|
            #![trigger run_switches(states, cur, k).0[i]]
            1 <= k <= states.len() && 0 <= i < states.len() ==> run_switches(states, cur, k).0[i]
                == if i == rr_slot(cur, k, states.len()) {
                TaskState::Running
            } else {
                TaskState::Ready
            },
        forall|i: nat|
            i < states.len() ==> {
                &&& 1 <= #[trigger] rr_turn(cur, i, states.len()) <= states.len()
                &&& rr_slot(cur, rr_turn(cur, i, states.len()), states.len()) == i
            },
        forall|k1: nat, k2: nat|
            1 <= k1 <= states.len() && 1 <= k2 <= states.len() && #[trigger] rr_slot(
                cur,
                k1,
                states.len(),
            ) == #[trigger] rr_slot(cur, k2, states.len()) ==> k1 == k2,
{
    let n = states.len();
    lemma_run_switches(states, cur, n);
    vstd::arithmetic::div_mod::lemma_mod_self_0(n as int);
    vstd::arithmetic::div_mod::lemma_mod_add_multiples_vanish(cur as int, n as int);
    vstd::arithmetic::div_mod::lemma_small_mod(cur, n);
    assert forall|k: nat, i: int|
        #![trigger run_switches(states, cur, k).0[i]]
        1 <= k <= n && 0 <= i < n implies run_switches(states, cur, k).0[i] == if i == rr_slot(
            cur,
            k,
            n,
        ) {
            TaskState::Running
        } else {
            TaskState::Ready
        } by {
        lemma_run_switches(states, cur, k);
    }
    assert forall|i: nat| i < n implies {
        &&& 1 <= #[trigger] rr_turn(cur, i, n) <= n
        &&& rr_slot(cur, rr_turn(cur, i, n), n) == i
    } by {
        lemma_mod_window(cur, rr_turn(cur, i, n), n);
    }
    assert forall|k1: nat, k2: nat|
        1 <= k1 <= n && 1 <= k2 <= n && #[trigger] rr_slot(cur, k1, n) == #[trigger] rr_slot(
            cur,
            k2,
            n,
        ) implies k1 == k2 by {
        lemma_mod_window(cur, k1, n);
        lemma_mod_window(cur, k2, n);
    }
}

/// `(cur + k) % n` for `cur < n` and `1 <= k <= n` is `cur + k` or
/// `cur + k - n`.
proof fn lemma_mod_window(cur: nat, k: nat, n: nat)
    requires
        cur < n,
        1 <= k <= n,
    ensures
        (cur + k) % n == if cur + k < n {
            (cur + k) as int
        } else {
            cur + k - n
        },
{
    if cur + k < n {
        vstd::arithmetic::div_mod::lemma_small_mod((cur + k) as nat, n);
    } else {
        vstd::arithmetic::div_mod::lemma_mod_sub_multiples_vanish((cur + k) as int, n as int);
        vstd::arithmetic::div_mod::lemma_small_mod((cur + k - n) as nat, n);
    }
}

/// After `k <= n` switches from a state where only the current task may be
/// other than Ready, the cursor is at `(cur + k) % n` and, for `k >= 1`,
/// exactly that task is Running and every other one Ready.
proof fn lemma_run_switches(states: Seq<TaskState>, cur: nat, k: nat)
    requires
        states.len() > 0,
        cur < states.len(),
        k <= states.len(),
        forall|j: int| 0 <= j < states.len() && j != cur ==> states[j] == TaskState::Ready,
    ensures
        run_switches(states, cur, k).1 == (cur + k) % states.len(),
        run_switches(states, cur, k).0.len() == states.len(),
        k >= 1 ==> forall|i: int|
            0 <= i < states.len() ==> (run_switches(states, cur, k).0[i] == if i == (cur + k) % states.len() {
                TaskState::Running
            } else {
                TaskState::Ready
            }),
    decreases k,
{
    let n = states.len();
    if k == 0 {
        vstd::arithmetic::div_mod::lemma_small_mod(cur, n);
    } else {
        lemma_run_switches(states, cur, (k - 1) as nat);
        let (s, c) = run_switches(states, cur, (k - 1) as nat);
        vstd::arithmetic::div_mod::lemma_mod_add_multiples_vanish(0, n as int);
        assert(c < n) by {
            vstd::arithmetic::div_mod::lemma_mod_bound((cur + k - 1) as int, n as int);
        }
        assert((c + 1) % n == (cur + k) % n) by {
            vstd::arithmetic::div_mod::lemma_add_mod_noop_right(1, (cur + k - 1) as int, n as int);
        }
    }
}

/// Successive `switch_task` calls follow `run_switches`: the manager after
/// `k` calls has the states and cursor of `k` switches from the first one.
pub proof fn lemma_switch_calls(ms: Seq<TaskManager>, k: nat)
    requires
        k < ms.len(),
        ms[0].wf(),
        ms[0].tasks@.len() > 0,
        forall|j: int| 0 <= j < ms.len() - 1 ==> #[trigger] switch_post(ms[j], ms[j + 1]),
    ensures
        ms[k as int].tasks@.len() == ms[0].tasks@.len(),
        ms[k as int].states() == run_switches(ms[0].states(), ms[0].current_pid as nat, k).0,
        ms[k as int].current_pid == run_switches(ms[0].states(), ms[0].current_pid as nat, k).1,
    decreases k,
{
    if k > 0 {
        lemma_switch_calls(ms, (k - 1) as nat);
        let j = k - 1;
        assert(switch_post(ms[j], ms[j + 1]));
        assert(j + 1 == k);
        assert(ms[0].states().len() == ms[0].tasks@.len());
    }
}

/// Round-robin fairness over calls. For `n` tasks of which only the
/// current one may be other than Ready, `n` successive `switch_task` calls
/// leave, after the `k`-th, exactly the task at the cursor Running and all
/// others Ready; the cursor after the `k`-th call is `(cur + k) % n`, so
/// every task is switched to exactly once, and after the `n`-th call the
/// cursor is back where it started.
pub proof fn lemma_round_robin_calls(ms: Seq<TaskManager>)
    requires
        ms.len() == ms[0].tasks@.len() + 1,
        ms[0].wf(),
        ms[0].tasks@.len() > 0,
        forall|j: int| 0 <= j < ms.len() - 1 ==> #[trigger] switch_post(ms[j], ms[j + 1]),
        forall|j: int|
            0 <= j < ms[0].tasks@.len() && j != ms[0].current_pid ==> ms[0].tasks@[j].state
                == TaskState::Ready,
        ms[0].tasks@[ms[0].current_pid as int].state == TaskState::Ready
            || ms[0].tasks@[ms[0].current_pid as int].state == TaskState::Running,
    ensures
        ms[ms.len() - 1].current_pid == ms[0].current_pid,
        forall|k: int|
            1 <= k < ms.len() ==> #[trigger] ms[k].current_pid == rr_slot(
                ms[0].current_pid as nat,
                k as nat,
                ms[0].tasks@.len(),
            ),
        forall|k: int, i: int|
            #![trigger ms[k].states()[i]]
            1 <= k < ms.len() && 0 <= i < ms[0].tasks@.len() ==> ms[k].states()[i] == if i
                == ms[k].current_pid {
                TaskState::Running
            } else {
                TaskState::Ready
            },
{
    let n = ms[0].tasks@.len();
    let cur = ms[0].current_pid as nat;
    let st = ms[0].states();
    assert(st.len() == n);
    assert forall|j: int| 0 <= j < st.len() && j != cur implies st[j] == TaskState::Ready by {
        assert(st[j] == ms[0].tasks@[j].state);
    }
    assert(st[cur as int] == ms[0].tasks@[cur as int].state);
    lemma_round_robin(st, cur);
    assert forall|k: int| 1 <= k < ms.len() implies #[trigger] ms[k].current_pid == rr_slot(
        cur,
        k as nat,
        n,
    ) by {
        lemma_switch_calls(ms, k as nat);
        lemma_run_switches(st, cur, k as nat);
    }
    assert forall|k: int, i: int|
        #![trigger ms[k].states()[i]]
        1 <= k < ms.len() && 0 <= i < n implies ms[k].states()[i] == if i == ms[k].current_pid {
            TaskState::Running
        } else {
            TaskState::Ready
        } by {
        lemma_switch_calls(ms, k as nat);
        lemma_run_switches(st, cur, k as nat);
    }
    lemma_switch_calls(ms, n);
    lemma_run_switches(st, cur, n);
    vstd::arithmetic::div_mod::lemma_mod_self_0(n as int);
    vstd::arithmetic::div_mod::lemma_mod_add_multiples_vanish(cur as int, n as int);
    vstd::arithmetic::div_mod::lemma_small_mod(cur, n);
}

} // verus!
