use azpos_kernel::memory::stacks::KThreadStack;
use azpos_kernel::scheduling::threads::state::CpuState;
use azpos_kernel::scheduling::threads::sync::queue::Buffer;
use azpos_kernel::scheduling::threads::table::ThreadTable;
use azpos_kernel::scheduling::threads::thread::Thread;
use azpos_kernel::scheduling::Scheduler;

const KCODE: u16 = 0x08;
const KDATA: u16 = 0x10;

fn kthread(entry: u64) -> Thread {
    let stack = KThreadStack::new(0xFFFF_FFFF_FFFF_0000, 0);
    Thread::new_thread(CpuState::new(stack.top(), entry, 0, KCODE, KDATA), entry, stack, None)
}

fn uthread(entry: u64, pid: u32) -> Thread {
    let stack = KThreadStack::new(0xFFFF_FFFF_FFFE_0000, 1);
    Thread::new_thread(CpuState::new(0x7FFF_0000_0000, entry, 0, 0x1b, 0x23), entry, stack, Some(pid))
}

#[test]
fn cpu_state_starts_at_the_entry_point() {
    let s = CpuState::new(0x8000, 0x1234, 7, KCODE, KDATA);
    assert_eq!(s.rdi, 7);
    assert_eq!(s.int_stack.instruction_pointer, 0x1234);
    assert_eq!(s.int_stack.stack_pointer, 0x8000);
    assert_eq!(s.int_stack.cpu_flags, 0x200);
    assert!(s.is_user());
    let k = CpuState::new(0x8000, 0xFFFF_8000_0000_1000, 0, KCODE, KDATA);
    assert!(!k.is_user());
}

#[test]
fn threads_count_their_runs() {
    let mut t = kthread(0xFFFF_8000_0000_1000);
    assert!(!t.started());
    t.add_run();
    assert!(t.started());
    assert_eq!(t.runs(), 1);
    assert_eq!(t.proccess(), None);
    assert_eq!(uthread(0x1000, 3).proccess(), Some(3));
}

#[test]
fn scheduler_runs_the_least_run_thread_first() {
    let mut s = Scheduler::new(kthread(0xFFFF_8000_0000_0100));
    assert_eq!(s.currently_running(), None);
    let a = s.add_thread(kthread(0xFFFF_8000_0000_1000));
    let b = s.add_thread(kthread(0xFFFF_8000_0000_2000));
    assert_eq!((a, b), (0, 1));
    let mut cpu = CpuState::new(0, 0, 0, KCODE, KDATA);
    let acts = s.schedule(&mut cpu);
    assert_eq!(s.currently_running(), Some(a));
    assert_eq!(cpu.int_stack.instruction_pointer, 0xFFFF_8000_0000_1000);
    assert!(acts.dead.is_empty());
    assert!(!acts.swap_gs);
    s.schedule(&mut cpu);
    assert_eq!(s.currently_running(), Some(b));
    s.schedule(&mut cpu);
    assert_eq!(s.currently_running(), Some(a));
    assert_eq!(s.get_thread(a).unwrap().runs(), 2);
}

#[test]
fn blocked_threads_are_skipped_until_unblocked() {
    let mut s = Scheduler::new(kthread(0xFFFF_8000_0000_0100));
    let a = s.add_thread(kthread(0xFFFF_8000_0000_1000));
    let mut cpu = CpuState::new(0, 0, 0, KCODE, KDATA);
    let blocked = s.block_thread(a);
    assert_eq!(blocked.thread(), a);
    s.schedule(&mut cpu);
    // Nothing runnable: the idle thread runs.
    assert_eq!(s.currently_running(), None);
    assert_eq!(cpu.int_stack.instruction_pointer, 0xFFFF_8000_0000_0100);
    s.unblock_thread(blocked.thread());
    s.schedule(&mut cpu);
    assert_eq!(s.currently_running(), Some(a));
}

#[test]
fn killed_threads_are_handed_back() {
    let mut s = Scheduler::new(kthread(0xFFFF_8000_0000_0100));
    let a = s.add_thread(kthread(0xFFFF_8000_0000_1000));
    let b = s.add_thread(uthread(0x40_1000, 9));
    let mut cpu = CpuState::new(0, 0, 0, KCODE, KDATA);
    s.schedule(&mut cpu);
    assert_eq!(s.kill_thread(a), Some(()));
    let acts = s.schedule(&mut cpu);
    assert_eq!(acts.dead.len(), 1);
    assert_eq!(s.currently_running(), Some(b));
    assert!(s.get_thread(a).is_none());
    assert_eq!(s.current_proc(), Some(9));
    assert_eq!(acts.load_process, Some(9));
    assert_eq!(acts.syscall_stack, Some(0xFFFF_FFFF_FFFE_0000));
    assert!(acts.swap_gs);
    assert_eq!(s.kill_thread(77), None);
}

#[test]
fn thread_table_hands_out_fresh_ids() {
    let mut t = ThreadTable::new();
    let a = t.add_thread(kthread(0xFFFF_8000_0000_1000));
    let b = t.add_thread(kthread(0xFFFF_8000_0000_2000));
    assert_eq!((a, b), (0, 1));
    assert!(t.remove_thread(a).is_some());
    assert!(t.get_thread(a).is_none());
    let c = t.add_thread(kthread(0xFFFF_8000_0000_3000));
    assert_eq!(c, 2);
    t.add_run(c);
    assert_eq!(t.get_thread(c).unwrap().runs(), 1);
}

#[test]
fn buffer_is_first_in_first_out() {
    let mut b: Buffer<u8, 3> = Buffer::new();
    assert_eq!(b.try_pop(), None);
    b.push(1);
    b.push(2);
    assert_eq!(b.len(), 2);
    assert_eq!(b.try_pop(), Some(1));
    b.push(3);
    b.push(4);
    assert_eq!(b.try_pop(), Some(2));
    assert_eq!(b.try_pop(), Some(3));
    assert_eq!(b.try_pop(), Some(4));
    assert_eq!(b.try_pop(), None);
}

#[test]
fn full_buffer_overwrites_the_oldest() {
    let mut b: Buffer<u8, 2> = Buffer::new();
    b.push(1);
    b.push(2);
    b.push(3);
    assert_eq!(b.len(), 2);
    assert_eq!(b.try_pop(), Some(2));
    assert_eq!(b.try_pop(), Some(3));
}
