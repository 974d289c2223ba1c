//! Reference counts, strings, tasks and threads.
use nether_typecheck::runtime::arc::{
    dealloc_header, layout_fits, layout_for, nether_rt_arc_alloc, nether_rt_arc_release,
    nether_rt_arc_retain, nether_rt_arc_weak_release, nether_rt_arc_weak_retain, nether_rt_arc_weak_upgrade,
    nether_rt_unique_alloc, nether_rt_unique_free, nether_rt_unique_promote, unique_layout_for, Header, Layout, Release,
    HEADER_SIZE, UNIQUE_HEADER_SIZE,
};
use nether_typecheck::runtime::io::{nether_rt_io_print, nether_rt_io_println};
use nether_typecheck::runtime::string::{
    nether_rt_bool_to_string, nether_rt_char_to_string, nether_rt_i64_to_string, nether_rt_string_bytes,
    nether_rt_string_concat, nether_rt_string_from_utf8, nether_rt_string_hash, nether_rt_string_len, Text,
};
use nether_typecheck::runtime::task::{
    drive, nether_rt_task_completed_poll, nether_rt_task_drop, nether_rt_task_poll, nether_rt_task_spawn,
    nether_rt_timer_sleep, timer_poll, unix_millis, Drive, Task,
};
use nether_typecheck::runtime::thread::{
    nether_rt_thread_join, nether_rt_thread_spawn, passes_panic_on, Outcome, Step, ThreadState, Work as ThreadWork,
};

/// A block with its payload, and how often its drop callback ran.
struct Block {
    header: Option<Header>,
    payload: i64,
    drops: usize,
    freed: bool,
}

fn shared(drop: bool) -> Block {
    let a = nether_rt_arc_alloc(8, drop);
    assert_eq!(a.layout, Layout { size: 40, align: 16 });
    Block { header: Some(a.header), payload: 0, drops: 0, freed: false }
}

fn retain(b: &mut Block) {
    b.header = nether_rt_arc_retain(b.header);
}

fn release(b: &mut Block) {
    let (header, what) = nether_rt_arc_release(b.header);
    b.header = header;
    if let Release::Last { run_drop } = what {
        if run_drop {
            b.drops += 1;
        }
        weak_release(b);
    }
}

fn weak_release(b: &mut Block) {
    let (header, freed) = nether_rt_arc_weak_release(b.header);
    b.header = header;
    if freed.is_some() {
        assert!(!b.freed, "freed twice");
        b.freed = true;
    }
}

fn text(s: &str) -> Text {
    nether_rt_string_from_utf8(s.as_bytes()).unwrap()
}

fn as_str(t: &Text) -> &str {
    std::str::from_utf8(nether_rt_string_bytes(t)).unwrap()
}

#[test]
fn alloc_then_release_once_runs_drop() {
    let mut p = shared(true);
    p.payload = 42;
    release(&mut p);
    assert_eq!(p.drops, 1);
    assert!(p.freed);
}

#[test]
fn unique_free_runs_drop_exactly_once() {
    let p = nether_rt_unique_alloc(8, true);
    assert_eq!(p.layout, Layout { size: 24, align: 16 });
    let end = nether_rt_unique_free(Some(p.header)).unwrap();
    assert!(end.run_drop);
    assert_eq!(end.layout, p.layout);
}

#[test]
fn unique_promotion_preserves_payload_and_defers_drop_to_arc() {
    let unique = nether_rt_unique_alloc(8, true);
    let payload = 42i64.to_ne_bytes();
    let moved = nether_rt_unique_promote(Some(unique.header)).unwrap();
    assert_eq!(moved.freed, unique.layout);
    assert_eq!(moved.moved, payload.len());
    let bytes: Vec<u8> = payload[..moved.moved].to_vec();
    let mut arc = Block {
        header: Some(moved.shared.header),
        payload: i64::from_ne_bytes(bytes.try_into().unwrap()),
        drops: 0,
        freed: false,
    };
    assert_eq!(arc.payload, 42);
    assert_eq!(arc.drops, 0);
    release(&mut arc);
    assert_eq!(arc.drops, 1);
}

#[test]
fn retain_delays_the_drop_until_the_matching_release() {
    let mut p = shared(true);
    retain(&mut p);
    release(&mut p);
    assert_eq!(p.drops, 0, "still one live reference");
    release(&mut p);
    assert_eq!(p.drops, 1);
}

#[test]
fn no_drop_callback_just_frees_silently() {
    let mut p = shared(false);
    release(&mut p);
    assert_eq!(p.drops, 0);
    assert!(p.freed);
}

#[test]
fn null_payload_is_a_no_op() {
    assert_eq!(nether_rt_arc_retain(None), None);
    assert_eq!(nether_rt_arc_release(None), (None, Release::Kept));
    assert_eq!(nether_rt_arc_weak_retain(None), None);
    assert_eq!(nether_rt_arc_weak_release(None), (None, None));
    assert_eq!(nether_rt_arc_weak_upgrade(None), (None, false));
}

#[test]
fn weak_upgrade_succeeds_while_the_referent_is_still_alive() {
    let mut p = shared(false);
    p.header = nether_rt_arc_weak_retain(p.header);
    let (header, ok) = nether_rt_arc_weak_upgrade(p.header);
    assert!(ok);
    assert_eq!(header.unwrap().strong, 2);
    p.header = header;
    release(&mut p);
    release(&mut p);
    assert!(!p.freed);
    weak_release(&mut p);
    assert!(p.freed);
}

#[test]
fn weak_upgrade_fails_once_the_referent_is_dropped_but_the_header_survives() {
    let mut p = shared(true);
    p.header = nether_rt_arc_weak_retain(p.header);
    release(&mut p);
    assert_eq!(p.drops, 1, "drop callback should have run already");
    assert!(!p.freed);
    let before = p.header;
    let (header, ok) = nether_rt_arc_weak_upgrade(p.header);
    assert!(!ok, "the referent is gone, upgrade must report failure, not read freed memory");
    assert_eq!(header, before);
    weak_release(&mut p);
    assert!(p.freed);
    assert_eq!(p.drops, 1);
}

#[test]
fn a_block_that_refers_to_itself_weakly_is_freed_once() {
    let mut p = shared(true);
    p.header = nether_rt_arc_weak_retain(p.header);
    let (header, what) = nether_rt_arc_release(p.header);
    assert_eq!(what, Release::Last { run_drop: true });
    p.header = header;
    assert!(!nether_rt_arc_weak_upgrade(p.header).1);
    weak_release(&mut p);
    assert!(!p.freed, "the release still holds the block");
    weak_release(&mut p);
    assert!(p.freed);
    assert_eq!((p.header.unwrap().strong, p.header.unwrap().weak), (0, 0));
}

#[test]
fn layouts_put_the_header_before_the_payload() {
    assert_eq!(layout_for(0), Layout { size: HEADER_SIZE, align: 16 });
    assert_eq!(layout_for(-5), Layout { size: 32, align: 16 });
    assert_eq!(layout_for(100), Layout { size: 132, align: 16 });
    assert_eq!(unique_layout_for(100), Layout { size: 116, align: 16 });
    assert!(layout_fits(HEADER_SIZE, 1 << 40));
    assert!(!layout_fits(HEADER_SIZE, i64::MAX));
    assert!(!layout_fits(UNIQUE_HEADER_SIZE, i64::MAX));
    assert_eq!(dealloc_header(Header { strong: 0, weak: 0, size: 8, drop: true }), layout_for(8));
}

#[test]
fn unique_null_is_left_alone() {
    assert_eq!(nether_rt_unique_free(None), None);
    assert!(nether_rt_unique_promote(None).is_none());
}

#[test]
fn print_and_println_do_not_panic_on_a_real_string() {
    let s = text("hello");
    assert_eq!(nether_rt_io_print(&s), b"hello");
    assert_eq!(nether_rt_io_println(&s), b"hello\n");
}

#[test]
fn from_utf8_round_trips() {
    let s = nether_rt_string_from_utf8(b"hello").unwrap();
    assert_eq!(as_str(&s), "hello");
    assert_eq!(nether_rt_string_len(&s), 5);
}

#[test]
fn from_utf8_refuses_other_bytes() {
    assert!(nether_rt_string_from_utf8(&[0xFF]).is_none());
    assert!(nether_rt_string_from_utf8(&[0xE2, 0x82]).is_none());
    assert!(nether_rt_string_from_utf8("\u{20AC}".as_bytes()).is_some());
}

#[test]
fn concat_joins_bytes_and_leaves_its_inputs_untouched() {
    let a = text("foo");
    let b = text("bar");
    let joined = nether_rt_string_concat(&a, &b);
    assert_eq!(as_str(&joined), "foobar");
    assert_eq!(as_str(&a), "foo", "concat must not consume/release its inputs");
}

#[test]
fn numeric_and_bool_and_char_conversions() {
    assert_eq!(as_str(&nether_rt_i64_to_string(-7)), "-7");
    assert_eq!(as_str(&nether_rt_bool_to_string(1)), "true");
    assert_eq!(as_str(&nether_rt_bool_to_string(0)), "false");
    assert_eq!(as_str(&nether_rt_char_to_string('λ' as u32)), "λ");
}

#[test]
fn conversions_at_the_edges() {
    assert_eq!(as_str(&nether_rt_i64_to_string(0)), "0");
    assert_eq!(as_str(&nether_rt_i64_to_string(i64::MAX)), "9223372036854775807");
    assert_eq!(as_str(&nether_rt_i64_to_string(i64::MIN)), "-9223372036854775808");
    assert_eq!(as_str(&nether_rt_bool_to_string(2)), "true");
    assert_eq!(as_str(&nether_rt_char_to_string('a' as u32)), "a");
    assert_eq!(as_str(&nether_rt_char_to_string(0x20AC)), "\u{20AC}");
    assert_eq!(as_str(&nether_rt_char_to_string(0x1F600)), "\u{1F600}");
    assert_eq!(as_str(&nether_rt_char_to_string(0x10FFFF)), "\u{10FFFF}");
    assert_eq!(as_str(&nether_rt_char_to_string(0xD800)), "\u{FFFD}");
    assert_eq!(as_str(&nether_rt_char_to_string(0x110000)), "\u{FFFD}");
}

#[test]
fn string_hash_is_deterministic_and_content_based() {
    let a = text("same");
    let b = text("same");
    let c = text("different");
    assert_eq!(nether_rt_string_hash(&a), nether_rt_string_hash(&b));
    assert_ne!(nether_rt_string_hash(&a), nether_rt_string_hash(&c));
}

#[test]
fn string_hash_mixes_each_byte() {
    assert_eq!(nether_rt_string_hash(&text("")), 1_469_598_103_934_665_603);
    let one = (1_469_598_103_934_665_603u64 ^ 97).wrapping_mul(1_099_511_628_211);
    assert_eq!(nether_rt_string_hash(&text("a")), one);
    assert_eq!(nether_rt_string_hash(&text("ab")), (one ^ 98).wrapping_mul(1_099_511_628_211));
}

#[test]
fn completed_and_timer_tasks_are_driven_through_the_common_poll_abi() {
    assert!(nether_rt_task_completed_poll());
    assert!(nether_rt_task_poll(Some(Task::Completed), 0));
    let mut now = 5_000;
    let timer = Some(Task::Timer { deadline_millis: nether_rt_timer_sleep(now, 1).deadline_millis });
    let mut polls = 0;
    while drive(nether_rt_task_poll(timer, now)) == Drive::Again {
        polls += 1;
        now += 1;
    }
    assert_eq!(polls, 1);
    assert!(nether_rt_task_poll(timer, now));
}

#[test]
fn timers_saturate_and_null_tasks_are_ready() {
    let t = nether_rt_timer_sleep(u64::MAX - 1, 5);
    assert_eq!(t.deadline_millis, u64::MAX);
    assert_eq!(t.block.header, Header { strong: 1, weak: 0, size: 24, drop: true });
    assert!(!t.output_drop);
    assert!(!timer_poll(9, 10));
    assert!(timer_poll(10, 10));
    assert!(nether_rt_task_poll(None, 0));
    assert!(!nether_rt_task_poll(Some(Task::Polled { ready: false }), 0));
    assert_eq!(nether_rt_task_drop(true), Some(16));
    assert_eq!(nether_rt_task_drop(false), None);
}

#[test]
fn milliseconds_since_the_epoch() {
    assert_eq!(unix_millis(None), 0);
    assert_eq!(unix_millis(Some((3, 999_999_999))), 3_999);
    assert_eq!(unix_millis(Some((u64::MAX, 0))), u64::MAX.wrapping_mul(1000));
}

#[test]
fn a_spawned_task_keeps_its_own_reference() {
    let mut task = shared(true);
    task.header = nether_rt_task_spawn(task.header);
    assert_eq!(task.header.unwrap().strong, 3);
    release(&mut task);
    release(&mut task);
    assert_eq!(task.drops, 0);
    release(&mut task);
    assert_eq!(task.drops, 1);
    assert_eq!(nether_rt_task_spawn(None), None);
}

/// The work of a thread, done when it is waited for.
struct Work {
    amount: i64,
}

fn join(state: &mut ThreadState<Work>, counter: &mut i64) {
    if let Some(work) = nether_rt_thread_join(state) {
        *counter += work.amount;
    }
}

#[test]
fn spawn_then_join_runs_the_closure_exactly_once() {
    let mut counter = 0;
    let mut env = shared(false);
    let spawned = nether_rt_thread_spawn(env.header, Work { amount: 1 });
    env.header = spawned.env;
    assert_eq!(env.header.unwrap().strong, 2);
    let mut state = spawned.state;
    join(&mut state, &mut counter);
    release(&mut env);
    assert_eq!(counter, 1);
    assert!(!env.freed);
    release(&mut env);
    assert!(env.freed);
}

#[test]
fn joining_twice_is_a_no_op_not_a_panic() {
    let mut counter = 0;
    let env = shared(false);
    let mut state = nether_rt_thread_spawn(env.header, Work { amount: 1 }).state;
    join(&mut state, &mut counter);
    join(&mut state, &mut counter);
    assert_eq!(counter, 1);
}

#[test]
fn a_thread_runs_its_closure_once_and_gives_its_reference_back() {
    let mut work = ThreadWork::new();
    let steps: Vec<Step> = (0..5).map(|_| work.take()).collect();
    assert_eq!(steps, vec![Step::RunCode, Step::ReleaseEnv, Step::End, Step::End, Step::End]);
}

#[test]
fn the_panic_of_a_thread_comes_through_at_its_join() {
    assert!(passes_panic_on(Some(Outcome::Panicked)));
    assert!(!passes_panic_on(Some(Outcome::Finished)));
    assert!(!passes_panic_on(None));
}
