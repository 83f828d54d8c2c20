//! Partition of the instrument list into batches, and the scheduler that runs them
//! one after another with pacing between them.
use vstd::prelude::*;

verus! {

/// Length of one rate-limit window, in milliseconds.
pub const WINDOW_MS: u64 = 60_000;

/// Time a batch is given, start to start, when it finishes within one window.
pub const PACED_BATCH_MS: u64 = 62_000;

/// End of the batch that starts at `start`: `size` items on, or the end of the list.
pub open spec fn batch_end(start: int, size: int, total: int) -> int {
    if total - start > size {
        start + size
    } else {
        total
    }
}

/// `bounds` lists the consecutive batches of `size` items that cover `total` items.
pub open spec fn bounds_partition(bounds: Seq<(usize, usize)>, total: int, size: int) -> bool {
    &&& forall|k: int|
        0 <= k < bounds.len() ==> (#[trigger] bounds[k]).0 == k * size && bounds[k].1 == batch_end(k * size, size, total)
    &&& bounds.len() * size >= total
    &&& bounds.len() == 0 || (bounds.len() - 1) * size < total
}

/// The items of each batch, in order.
pub open spec fn batch_items<T>(s: Seq<T>, bounds: Seq<(usize, usize)>) -> Seq<Seq<T>> {
    bounds.map_values(|b: (usize, usize)| s.subrange(b.0 as int, b.1 as int))
}

/// The bounds `[start, end)` of each batch of at most `size` items over `total` items;
/// every batch is full but the last.
pub fn batch_bounds(total: usize, size: usize) -> (r: Vec<(usize, usize)>)
    requires
        size >= 1,
    ensures
        bounds_partition(r@, total as int, size as int),
{
    let mut r: Vec<(usize, usize)> = Vec::new();
    let mut start: usize = 0;
    assert(r@.len() * size == 0);
    while start < total
        invariant
            size >= 1,
            start <= total,
            start as int == batch_end(0, r@.len() * size, total as int),
            r@.len() == 0 || (r@.len() - 1) * size < total,
            forall|k: int|
                0 <= k < r@.len() ==> (#[trigger] r@[k]).0 == k * size && r@[k].1 == batch_end(k * size, size as int, total as int),
        decreases total - start,
    {
        let end = if total - start > size {
            start + size
        } else {
            total
        };
        let ghost k = r@.len();
        r.push((start, end));
        assert(r@.len() * size == k * size + size) by (nonlinear_arith)
            requires
                r@.len() == k + 1,
        ;
        start = end;
    }
    r
}

proof fn lemma_prefix_batches<T>(s: Seq<T>, bounds: Seq<(usize, usize)>, size: int, m: int)
    requires
        size >= 1,
        s.len() <= usize::MAX,
        bounds_partition(bounds, s.len() as int, size),
        0 <= m <= bounds.len(),
    ensures
        batch_items(s, bounds.subrange(0, m)).flatten_alt() == s.subrange(0, batch_end(0, m * size, s.len() as int)),
    decreases m,
{
    let n = s.len() as int;
    if m == 0 {
        assert(batch_items(s, bounds.subrange(0, 0)) =~= Seq::<Seq<T>>::empty());
        assert(s.subrange(0, 0) =~= Seq::<T>::empty());
    } else {
        lemma_prefix_batches(s, bounds, size, m - 1);
        let items = batch_items(s, bounds.subrange(0, m));
        let lo = (m - 1) * size;
        assert(items.drop_last() =~= batch_items(s, bounds.subrange(0, m - 1)));
        let b = bounds[m - 1];
        assert(b == bounds.subrange(0, m)[m - 1]);
        assert(items.last() == s.subrange(b.0 as int, b.1 as int));
        assert((m - 1) * size < n) by (nonlinear_arith)
            requires
                m <= bounds.len(),
                (bounds.len() - 1) * size < n,
                size >= 1,
        ;
        assert(m * size == (m - 1) * size + size) by (nonlinear_arith);
        assert(0 <= (m - 1) * size) by (nonlinear_arith)
            requires
                m >= 1,
                size >= 1,
        ;
        assert(batch_end(0, lo, n) == lo);
        assert(b.0 == lo);
        assert(b.1 == batch_end(lo, size, n));
        assert(batch_end(lo, size, n) == batch_end(0, m * size, n));
        assert(items.flatten_alt() == items.drop_last().flatten_alt() + items.last());
        assert(s.subrange(0, lo) + s.subrange(lo, batch_end(lo, size, n))
            =~= s.subrange(0, batch_end(0, m * size, n)));
    }
}

/// Concatenating the batches in order gives back the whole list: nothing is lost,
/// repeated or moved.
pub proof fn lemma_batches_concatenate<T>(s: Seq<T>, bounds: Seq<(usize, usize)>, size: int)
    requires
        size >= 1,
        s.len() <= usize::MAX,
        bounds_partition(bounds, s.len() as int, size),
    ensures
        batch_items(s, bounds).flatten() == s,
{
    lemma_prefix_batches(s, bounds, size, bounds.len() as int);
    assert(bounds.subrange(0, bounds.len() as int) =~= bounds);
    batch_items(s, bounds).lemma_flatten_and_flatten_alt_are_equivalent();
    assert(s.subrange(0, s.len() as int) =~= s);
}

/// Where the scheduler stands.
#[derive(Clone, Copy, Debug, PartialEq, Eq, Structural)]
pub enum SchedulerState {
    /// Nothing dispatched yet.
    Idle,
    /// A batch is in flight.
    Dispatching,
    /// Pacing before the next batch.
    Waiting,
    /// Every batch has been dispatched and has finished.
    Done,
}

/// What happened since the scheduler's last action.
#[derive(Clone, Copy, Debug, PartialEq, Eq, Structural)]
pub enum SchedulerEvent {
    /// The run begins.
    Start,
    /// Every fetch of the batch in flight has resolved, `elapsed_ms` after its dispatch.
    BatchDone { elapsed_ms: u64 },
    /// The pause asked for is over.
    PauseDone,
}

/// What the caller is to do next.
#[derive(Clone, Copy, Debug, PartialEq, Eq, Structural)]
pub enum SchedulerAction {
    /// Fetch the instruments `[start, end)` concurrently, and report when all have resolved.
    Dispatch { start: usize, end: usize },
    /// Sleep this many milliseconds, then report.
    Pause { ms: u64 },
    /// The run is over.
    Finish,
}

/// Runs the batches strictly one after another: a batch that finished within one window
/// is followed by a pause that fills its slot up to the paced length.
#[derive(Clone, Copy, Debug)]
pub struct BatchScheduler {
    pub total: usize,
    pub batch_size: usize,
    /// Start of the batch that comes next.
    pub next_start: usize,
    pub state: SchedulerState,
}

/// The batch that a scheduler dispatches after `k` full batches is the `k`-th batch of
/// the partition: the scheduler walks the partition in order, one batch at a time.
pub proof fn lemma_dispatch_follows_partition(
    s: BatchScheduler,
    next: BatchScheduler,
    a: SchedulerAction,
    bounds: Seq<(usize, usize)>,
    k: int,
)
    requires
        s.wf(),
        bounds_partition(bounds, s.total as int, s.batch_size as int),
        0 <= k,
        s.next_start == k * s.batch_size,
        s.next_start < s.total,
        s.dispatched(next, a),
    ensures
        k < bounds.len(),
        a == (SchedulerAction::Dispatch { start: bounds[k].0, end: bounds[k].1 }),
        next.next_start == bounds[k].1,
        next.wf(),
{
    let size = s.batch_size as int;
    assert(k < bounds.len()) by (nonlinear_arith)
        requires
            k * size < s.total,
            bounds.len() * size >= s.total,
            size >= 1,
    ;
    assert(bounds[k].0 == k * size && bounds[k].1 == batch_end(k * size, size, s.total as int));
}

/// Pause owed after a batch that took `elapsed_ms`, when more batches follow.
pub open spec fn pause_after(elapsed_ms: int) -> int {
    if elapsed_ms < WINDOW_MS {
        PACED_BATCH_MS - elapsed_ms
    } else {
        0
    }
}

/// The pause owed after a batch that took `elapsed_ms`, when more batches follow.
pub fn pacing_delay_ms(elapsed_ms: u64) -> (ms: u64)
    ensures
        ms as int == pause_after(elapsed_ms as int),
{
    if elapsed_ms < WINDOW_MS {
        PACED_BATCH_MS - elapsed_ms
    } else {
        0
    }
}

impl BatchScheduler {
    /// The scheduler's fields agree with one another.
    pub open spec fn wf(&self) -> bool {
        &&& self.batch_size >= 1
        &&& self.next_start <= self.total
        &&& self.state == SchedulerState::Idle ==> self.next_start == 0
        &&& self.state == SchedulerState::Done ==> self.next_start == self.total
        &&& self.state == SchedulerState::Waiting ==> self.next_start < self.total
    }

    /// The action that dispatches the batch starting at `next_start`, and the state after it.
    pub open spec fn dispatched(self, next: Self, a: SchedulerAction) -> bool {
        let end = batch_end(self.next_start as int, self.batch_size as int, self.total as int);
        &&& a == SchedulerAction::Dispatch { start: self.next_start, end: end as usize }
        &&& next == Self { next_start: end as usize, state: SchedulerState::Dispatching, ..self }
    }

    /// The scheduler's response to `event` in the state `self`: `None`, and no change,
    /// when the event does not belong to the state.
    pub open spec fn step_spec(self, event: SchedulerEvent, next: Self, a: Option<SchedulerAction>) -> bool {
        match (self.state, event) {
            (SchedulerState::Idle, SchedulerEvent::Start) => if self.total == 0 {
                next == Self { state: SchedulerState::Done, ..self } && a == Some(SchedulerAction::Finish)
            } else {
                a is Some && self.dispatched(next, a->Some_0)
            },
            (SchedulerState::Dispatching, SchedulerEvent::BatchDone { elapsed_ms }) => if self.next_start == self.total {
                next == Self { state: SchedulerState::Done, ..self } && a == Some(SchedulerAction::Finish)
            } else if elapsed_ms < WINDOW_MS {
                next == Self { state: SchedulerState::Waiting, ..self }
                    && a == Some(SchedulerAction::Pause { ms: pause_after(elapsed_ms as int) as u64 })
            } else {
                a is Some && self.dispatched(next, a->Some_0)
            },
            (SchedulerState::Waiting, SchedulerEvent::PauseDone) => a is Some && self.dispatched(next, a->Some_0),
            _ => next == self && a is None,
        }
    }

    /// A scheduler over `total` instruments in batches of `batch_size`.
    pub fn new(total: usize, batch_size: usize) -> (s: Self)
        requires
            batch_size >= 1,
        ensures
            s.wf(),
            s == (BatchScheduler { total, batch_size, next_start: 0, state: SchedulerState::Idle }),
    {
        BatchScheduler { total, batch_size, next_start: 0, state: SchedulerState::Idle }
    }

    fn dispatch_next(&mut self) -> (a: SchedulerAction)
        requires
            old(self).wf(),
            old(self).next_start < old(self).total,
        ensures
            old(self).dispatched(*final(self), a),
            final(self).wf(),
    {
        let start = self.next_start;
        let end = if self.total - start > self.batch_size {
            start + self.batch_size
        } else {
            self.total
        };
        self.next_start = end;
        self.state = SchedulerState::Dispatching;
        SchedulerAction::Dispatch { start, end }
    }

    /// Advances the scheduler on `event` and returns what the caller is to do.
    pub fn step(&mut self, event: SchedulerEvent) -> (a: Option<SchedulerAction>)
        requires
            old(self).wf(),
        ensures
            final(self).wf(),
            old(self).step_spec(event, *final(self), a),
    {
        match (self.state, event) {
            (SchedulerState::Idle, SchedulerEvent::Start) => {
                if self.total == 0 {
                    self.state = SchedulerState::Done;
                    Some(SchedulerAction::Finish)
                } else {
                    Some(self.dispatch_next())
                }
            },
            (SchedulerState::Dispatching, SchedulerEvent::BatchDone { elapsed_ms }) => {
                if self.next_start == self.total {
                    self.state = SchedulerState::Done;
                    Some(SchedulerAction::Finish)
                } else if elapsed_ms < WINDOW_MS {
                    self.state = SchedulerState::Waiting;
                    Some(SchedulerAction::Pause { ms: pacing_delay_ms(elapsed_ms) })
                } else {
                    Some(self.dispatch_next())
                }
            },
            (SchedulerState::Waiting, SchedulerEvent::PauseDone) => Some(self.dispatch_next()),
            _ => None,
        }
    }
}

} // verus!
