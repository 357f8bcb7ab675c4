//! The bookkeeping of the runtime's worker threads.
use vstd::prelude::*;

verus! {

/// The number after one more thread was started. The counter wraps around.
pub open spec fn counted_up(active: usize) -> usize {
    if active == usize::MAX {
        0
    } else {
        (active + 1) as usize
    }
}

/// The number after a thread was joined. The counter wraps around.
pub open spec fn counted_down(active: usize) -> usize {
    if active == 0 {
        usize::MAX
    } else {
        (active - 1) as usize
    }
}

/// A thread that is started is one more and one that is joined is one less, around the ends of the
/// range of the counter.
pub proof fn law_counting(active: usize)
    ensures
        active < usize::MAX ==> counted_up(active) == active + 1,
        counted_up(usize::MAX) == 0,
        active > 0 ==> counted_down(active) == active - 1,
        counted_down(0) == usize::MAX,
{
}

/// How many threads are running, by one counter.
pub struct ThreadStats {
    active_threads: usize,
    /// Which counter this is.
    counter: Ghost<int>,
}

impl Default for ThreadStats {
    fn default() -> (stats: Self)
        ensures
            stats.active() == 0,
    {
        ThreadStats { active_threads: 0, counter: Ghost(arbitrary()) }
    }
}

impl ThreadStats {
    /// The number of threads that were started and not joined.
    pub closed spec fn active(self) -> usize {
        self.active_threads
    }

    /// Which counter this is. Nothing is known of it but that it stays.
    pub closed spec fn counter(self) -> int {
        self.counter@
    }

    /// The number of threads that were started and not joined.
    pub fn active_threads(&self) -> (active: usize)
        ensures
            active == self.active(),
    {
        self.active_threads
    }
}

/// A thread that was started and counted. It is joined on the counter it was counted in, and at
/// most once, since it cannot be copied.
pub struct StdThread {
    counter: Ghost<int>,
}

impl StdThread {
    /// The counter that the thread was counted in.
    pub closed spec fn counter(self) -> int {
        self.counter@
    }

    /// Counts a thread that was started.
    pub fn spawn(stats: &mut ThreadStats) -> (thread: StdThread)
        ensures
            final(stats).active() == counted_up(old(stats).active()),
            final(stats).counter() == old(stats).counter(),
            thread.counter() == old(stats).counter(),
    {
        stats.active_threads = stats.active_threads.wrapping_add(1);
        StdThread { counter: Ghost(stats.counter@) }
    }

    /// Counts a thread that has ended.
    pub fn join(self, stats: &mut ThreadStats)
        requires
            self.counter() == old(stats).counter(),
        ensures
            final(stats).active() == counted_down(old(stats).active()),
            final(stats).counter() == old(stats).counter(),
    {
        stats.active_threads = stats.active_threads.wrapping_sub(1);
    }
}

/// The manager of the runtime's worker threads.
pub struct StdThreadManager {
    stats: ThreadStats,
}

impl Default for StdThreadManager {
    fn default() -> (manager: Self)
        ensures
            manager.active() == 0,
    {
        StdThreadManager { stats: ThreadStats::default() }
    }
}

impl StdThreadManager {
    /// The number of threads that were created and not joined.
    pub closed spec fn active(self) -> usize {
        self.stats.active()
    }

    /// The counter that the manager's threads are counted in.
    pub closed spec fn counter(self) -> int {
        self.stats.counter()
    }

    /// The number of threads that were created and not joined.
    pub fn active_threads(&self) -> (active: usize)
        ensures
            active == self.active(),
    {
        self.stats.active_threads()
    }

    /// Counts a thread that was created for the runtime.
    pub fn create(&mut self) -> (thread: StdThread)
        ensures
            final(self).active() == counted_up(old(self).active()),
            final(self).counter() == old(self).counter(),
            thread.counter() == old(self).counter(),
    {
        StdThread::spawn(&mut self.stats)
    }

    /// Counts a thread of the manager that has ended.
    pub fn join(&mut self, thread: StdThread)
        requires
            thread.counter() == old(self).counter(),
        ensures
            final(self).active() == counted_down(old(self).active()),
            final(self).counter() == old(self).counter(),
    {
        thread.join(&mut self.stats);
    }
}

/// What can happen to the threads of a manager.
pub enum ThreadEvent {
    Created,
    Joined,
}

/// The counter after a series of events.
pub open spec fn replayed(active: usize, events: Seq<ThreadEvent>) -> usize
    decreases events.len(),
{
    if events.len() == 0 {
        active
    } else {
        let before = replayed(active, events.drop_last());
        match events.last() {
            ThreadEvent::Created => counted_up(before),
            ThreadEvent::Joined => counted_down(before),
        }
    }
}

/// How many more threads were created than joined in a series of events.
pub open spec fn balance(events: Seq<ThreadEvent>) -> int
    decreases events.len(),
{
    if events.len() == 0 {
        0
    } else {
        balance(events.drop_last()) + match events.last() {
            ThreadEvent::Created => 1int,
            ThreadEvent::Joined => -1int,
        }
    }
}

/// Events count one by one: each creation is one more, each joining one less, and two series count
/// what they count one after the other.
pub proof fn law_events_add_up(active: usize, a: Seq<ThreadEvent>, b: Seq<ThreadEvent>)
    ensures
        balance(Seq::empty()) == 0,
        balance(seq![ThreadEvent::Created]) == 1,
        balance(seq![ThreadEvent::Joined]) == -1,
        balance(a + b) == balance(a) + balance(b),
        replayed(active, a + b) == replayed(replayed(active, a), b),
    decreases b.len(),
{
    assert(balance(Seq::empty()) == 0);
    assert(seq![ThreadEvent::Created].drop_last() =~= Seq::empty());
    assert(seq![ThreadEvent::Joined].drop_last() =~= Seq::empty());
    if b.len() == 0 {
        assert(a + b =~= a);
    } else {
        law_events_add_up(active, a, b.drop_last());
        assert((a + b).drop_last() =~= a + b.drop_last());
        assert((a + b).last() == b.last());
    }
}

/// A new manager's counter is the number of threads created less the number joined, modulo the
/// range of the counter, and exactly that number where it is in the range.
pub proof fn law_active_is_balance(events: Seq<ThreadEvent>)
    ensures
        replayed(0, events) == balance(events) % (usize::MAX + 1),
        0 <= balance(events) <= usize::MAX ==> replayed(0, events) == balance(events),
    decreases events.len(),
{
    let range = usize::MAX + 1;
    if events.len() > 0 {
        law_active_is_balance(events.drop_last());
        let before = balance(events.drop_last());
        let after = balance(events);
        let q = before / range;
        vstd::arithmetic::div_mod::lemma_fundamental_div_mod(before, range);
        let r = replayed(0, events);
        match events.last() {
            ThreadEvent::Created => {
                if r == 0 {
                    vstd::arithmetic::div_mod::lemma_fundamental_div_mod_converse(
                        after,
                        range,
                        q + 1,
                        0,
                    );
                } else {
                    vstd::arithmetic::div_mod::lemma_fundamental_div_mod_converse(
                        after,
                        range,
                        q,
                        r as int,
                    );
                }
            },
            ThreadEvent::Joined => {
                if r == usize::MAX {
                    vstd::arithmetic::div_mod::lemma_fundamental_div_mod_converse(
                        after,
                        range,
                        q - 1,
                        r as int,
                    );
                } else {
                    vstd::arithmetic::div_mod::lemma_fundamental_div_mod_converse(
                        after,
                        range,
                        q,
                        r as int,
                    );
                }
            },
        }
    }
    if 0 <= balance(events) <= usize::MAX {
        vstd::arithmetic::div_mod::lemma_small_mod(balance(events) as nat, range as nat);
    }
}

/// Joining a thread undoes the counting of its creation.
pub proof fn law_join_undoes_create(active: usize)
    ensures
        counted_down(counted_up(active)) == active,
{
}

/// Something that happened to a thread of one out of several managers, which are numbered here.
/// Each manager owns its counter, `create` and `join` change the one they are called on, and a
/// thread is joined on the counter it was counted in: so every event belongs to one manager.
pub struct ManagedEvent {
    pub manager: int,
    pub event: ThreadEvent,
}

/// The events of one manager out of a series of events of several.
pub open spec fn events_of(manager: int, events: Seq<ManagedEvent>) -> Seq<ThreadEvent>
    decreases events.len(),
{
    if events.len() == 0 {
        Seq::empty()
    } else {
        let before = events_of(manager, events.drop_last());
        if events.last().manager == manager {
            before.push(events.last().event)
        } else {
            before
        }
    }
}

/// Managers are separate: what happens to the threads of the others, whenever it happens, leaves
/// the count of a manager as it is.
pub proof fn law_managers_are_separate(
    manager: int,
    active: usize,
    before: Seq<ManagedEvent>,
    others: Seq<ManagedEvent>,
    after: Seq<ManagedEvent>,
)
    requires
        forall|i: int| 0 <= i < others.len() ==> (#[trigger] others[i]).manager != manager,
    ensures
        events_of(manager, before + others + after) == events_of(manager, before + after),
        replayed(active, events_of(manager, before + others + after)) == replayed(
            active,
            events_of(manager, before + after),
        ),
    decreases others.len() + after.len(),
{
    let all = before + others + after;
    if after.len() > 0 {
        assert(all.drop_last() =~= before + others + after.drop_last());
        assert((before + after).drop_last() =~= before + after.drop_last());
        law_managers_are_separate(manager, active, before, others, after.drop_last());
    } else if others.len() > 0 {
        let fewer = others.drop_last();
        assert(all.drop_last() =~= before + fewer + after);
        assert(all.last() == others.last());
        assert(others[others.len() - 1].manager != manager);
        assert forall|i: int| 0 <= i < fewer.len() implies (#[trigger] fewer[i]).manager
            != manager by {
            assert(fewer[i] == others[i]);
        }
        law_managers_are_separate(manager, active, before, fewer, after);
    } else {
        assert(all =~= before + after);
    }
}

} // verus!
