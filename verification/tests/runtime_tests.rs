use ps1_audio::runtime::{stack_top, Executor, Pool, POOL_CAPACITY};

fn pool_ends() -> Vec<u32> {
    (0..POOL_CAPACITY as u32).map(|i| 0x8010_0000 + (i + 1) * 1024).collect()
}

#[test]
fn stack_top_rounds_down_to_eight() {
    assert_eq!(stack_top(0x8000_1007), 0x8000_1000);
    assert_eq!(stack_top(0x8000_1000), 0x8000_1000);
    assert_eq!(stack_top(0x8000_100F), 0x8000_1008);
}

#[test]
fn pool_hands_out_lowest_free_slot() {
    let mut pool = Pool::new();
    assert_eq!(pool.allocate(), Some(0));
    assert_eq!(pool.allocate(), Some(1));
    pool.dealloc(0);
    assert_eq!(pool.allocate(), Some(0));
    assert_eq!(pool.allocate(), Some(2));
}

#[test]
fn pool_exhausts_after_capacity() {
    let mut pool = Pool::new();
    for i in 0..POOL_CAPACITY {
        assert_eq!(pool.allocate(), Some(i as u8));
    }
    assert_eq!(pool.allocate(), None);
}

#[test]
fn init_makes_main_current() {
    let mut exec = Executor::new();
    exec.init();
    assert_eq!(exec.current_task(), 0);
}

#[test]
fn spawn_sets_up_context() {
    let mut exec = Executor::new();
    exec.init();
    let h = exec.spawn(0x8001_0000, 0x801F_FFFF, 0x8000_8000, 0x8002_0000).unwrap();
    assert!(!h.is_finished(&exec));
    let ctx = exec.context(1);
    assert_eq!(ctx.s[0], 0x8001_0000);
    assert_eq!(ctx.s[1], 0);
    assert_eq!(ctx.sp, 0x801F_FFF8);
    assert_eq!(ctx.fp, 0x801F_FFF8);
    assert_eq!(ctx.gp, 0x8000_8000);
    assert_eq!(ctx.ra, 0x8002_0000);
}

#[test]
fn spawn_dynamic_with_arg_passes_argument_and_pool_stack() {
    let mut exec = Executor::new();
    exec.init();
    let mut pool = Pool::new();
    let ends = pool_ends();
    let h = exec.spawn_dynamic_with_arg(&mut pool, 0x1234, 42, 0x99, 0x5678, &ends).unwrap();
    assert!(!h.is_finished(&exec));
    let ctx = exec.context(1);
    assert_eq!(ctx.s[0], 0x1234);
    assert_eq!(ctx.s[1], 42);
    assert_eq!(ctx.sp, ends[0] & !7);
    // the first pool stack is now taken
    assert_eq!(pool.allocate(), Some(1));
}

#[test]
fn spawn_fails_when_all_slots_taken() {
    let mut exec = Executor::new();
    exec.init();
    for _ in 1..ps1_audio::runtime::MAX_TASKS {
        assert!(exec.spawn(1, 0x1000, 0, 0).is_some());
    }
    assert!(exec.spawn(1, 0x1000, 0, 0).is_none());
}

#[test]
fn spawn_dynamic_fails_when_pool_empty() {
    let mut exec = Executor::new();
    exec.init();
    let mut pool = Pool::new();
    for _ in 0..POOL_CAPACITY {
        assert!(pool.allocate().is_some());
    }
    let ends = pool_ends();
    assert!(exec.spawn_dynamic(&mut pool, 1, 0, 0, &ends).is_none());
}

#[test]
fn round_robin_switches_in_slot_order() {
    let mut exec = Executor::new();
    exec.init();
    let mut pool = Pool::new();
    exec.spawn(1, 0x1000, 0, 0).unwrap();
    exec.spawn(2, 0x2000, 0, 0).unwrap();
    assert_eq!(exec.prepare_switch(&mut pool), Some((0, 1)));
    assert_eq!(exec.current_task(), 1);
    assert_eq!(exec.prepare_switch(&mut pool), Some((1, 2)));
    assert_eq!(exec.prepare_switch(&mut pool), Some((2, 0)));
    assert_eq!(exec.current_task(), 0);
}

#[test]
fn yield_alone_is_no_switch() {
    let mut exec = Executor::new();
    exec.init();
    let mut pool = Pool::new();
    assert_eq!(exec.prepare_switch(&mut pool), None);
    assert_eq!(exec.current_task(), 0);
}

#[test]
fn finished_task_is_collected_and_its_stack_returned() {
    let mut exec = Executor::new();
    exec.init();
    let mut pool = Pool::new();
    let ends = pool_ends();
    let h = exec.spawn_dynamic(&mut pool, 7, 0, 0, &ends).unwrap();
    // switch to the task, let it finish, and switch back to main
    assert_eq!(exec.prepare_switch(&mut pool), Some((0, 1)));
    exec.complete_current();
    assert!(h.is_finished(&exec));
    assert_eq!(exec.prepare_switch(&mut pool), Some((1, 0)));
    // the next yield collects slot 1 and returns its pool stack
    assert_eq!(exec.prepare_switch(&mut pool), None);
    assert_eq!(pool.allocate(), Some(0));
}

#[test]
fn stale_handle_reports_finished_after_slot_reuse() {
    let mut exec = Executor::new();
    exec.init();
    let mut pool = Pool::new();
    let ends = pool_ends();
    let first = exec.spawn_dynamic(&mut pool, 7, 0, 0, &ends).unwrap();
    exec.prepare_switch(&mut pool);
    exec.complete_current();
    exec.prepare_switch(&mut pool);
    exec.collect_finished(&mut pool);
    let second = exec.spawn_dynamic(&mut pool, 8, 0, 0, &ends).unwrap();
    assert!(first.is_finished(&exec));
    assert!(!second.is_finished(&exec));
    assert_eq!(exec.context(1).s[0], 8);
}

#[test]
fn find_free_slot_skips_main() {
    let mut exec = Executor::new();
    exec.init();
    assert_eq!(exec.find_free_slot(), Some(1));
}

#[test]
fn finished_handle_stays_finished() {
    let mut exec = Executor::new();
    exec.init();
    let mut pool = Pool::new();
    let ends = pool_ends();
    let h = exec.spawn_dynamic(&mut pool, 7, 0, 0, &ends).unwrap();
    exec.prepare_switch(&mut pool);
    exec.complete_current();
    assert!(h.is_finished(&exec));
    exec.prepare_switch(&mut pool);
    assert!(h.is_finished(&exec));
    exec.collect_finished(&mut pool);
    assert!(h.is_finished(&exec));
    let other = exec.spawn(9, 0x1000, 0, 0).unwrap();
    assert!(h.is_finished(&exec));
    assert!(!other.is_finished(&exec));
    exec.prepare_switch(&mut pool);
    assert!(h.is_finished(&exec));
}
