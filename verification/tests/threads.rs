use embed_bench::pool::{StdThread, StdThreadManager, ThreadStats};

#[test]
fn a_new_manager_has_no_threads() {
    assert_eq!(StdThreadManager::default().active_threads(), 0);
    assert_eq!(ThreadStats::default().active_threads(), 0);
}

#[test]
fn threads_are_counted_until_they_are_joined() {
    let mut manager = StdThreadManager::default();
    let first = manager.create();
    let second = manager.create();
    assert_eq!(manager.active_threads(), 2);
    manager.join(second);
    assert_eq!(manager.active_threads(), 1);
    let third = manager.create();
    manager.join(first);
    manager.join(third);
    assert_eq!(manager.active_threads(), 0);
}

#[test]
fn joining_undoes_spawning() {
    let mut stats = ThreadStats::default();
    let thread = StdThread::spawn(&mut stats);
    assert_eq!(stats.active_threads(), 1);
    thread.join(&mut stats);
    assert_eq!(stats.active_threads(), 0);
}

#[test]
fn managers_count_their_own_threads() {
    let mut first = StdThreadManager::default();
    let mut second = StdThreadManager::default();
    let thread = first.create();
    assert_eq!((first.active_threads(), second.active_threads()), (1, 0));
    let other = second.create();
    first.join(thread);
    assert_eq!((first.active_threads(), second.active_threads()), (0, 1));
    second.join(other);
    assert_eq!((first.active_threads(), second.active_threads()), (0, 0));
}
