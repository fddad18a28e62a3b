//! The decision core of the debounced search scheduler: at most one search
//! is pending; submitting replaces it outright with one due a full delay
//! after the submission; polling yields a pending search once, and only once
//! it has come due. The caller supplies the clock and performs the search
//! itself — every decision about which search runs is made here.

use vstd::prelude::*;

verus! {

/// The single pending search: the query it will run, and when it comes due.
pub struct PendingSearch {
    pub query: String,
    pub due: u64,
}

/// The scheduler's state: the configured delay and the pending slot.
pub struct DebounceState {
    pub delay: u64,
    pub pending: Option<PendingSearch>,
}

/// The mathematical value of the pending slot.
pub struct PendingView {
    pub query: Seq<char>,
    pub due: int,
}

/// The mathematical value of the scheduler.
pub struct DebounceView {
    pub delay: int,
    pub pending: Option<PendingView>,
}

impl View for PendingSearch {
    type V = PendingView;

    open spec fn view(&self) -> PendingView {
        PendingView { query: self.query@, due: self.due as int }
    }
}

impl View for DebounceState {
    type V = DebounceView;

    open spec fn view(&self) -> DebounceView {
        DebounceView {
            delay: self.delay as int,
            pending: match self.pending {
                Some(p) => Some(p@),
                None => None,
            },
        }
    }
}

/// What submitting does to the scheduler's value: the slot is replaced
/// outright, whatever it held.
pub open spec fn spec_submit(s: DebounceView, q: Seq<char>, now: int) -> DebounceView {
    DebounceView { delay: s.delay, pending: Some(PendingView { query: q, due: now + s.delay }) }
}

/// Whether a poll at time `t` would yield the pending search.
pub open spec fn poll_fires(s: DebounceView, t: int) -> bool {
    match s.pending {
        Some(p) => p.due <= t,
        None => false,
    }
}

/// The scheduler's value after a sequence of `(time, query)` submissions.
pub open spec fn spec_run(s: DebounceView, subs: Seq<(int, Seq<char>)>) -> DebounceView
    decreases subs.len(),
{
    if subs.len() == 0 {
        s
    } else {
        spec_submit(spec_run(s, subs.drop_last()), subs.last().1, subs.last().0)
    }
}

impl DebounceState {
    /// A scheduler with nothing pending.
    pub fn start(delay: u64) -> (r: DebounceState)
        ensures
            r@.delay == delay,
            r@.pending is None,
    {
        DebounceState { delay, pending: None }
    }

    /// Replace whatever is pending with a search for `query`, due one full
    /// delay from `now`. The superseded search's outcome can never be
    /// yielded: its slot is gone.
    pub fn submit(&mut self, query: String, now: u64)
        requires
            now + old(self)@.delay <= u64::MAX,
        ensures
            final (self)@ == spec_submit(old(self)@, query@, now as int),
    {
        let due = now + self.delay;
        self.pending = Some(PendingSearch { query, due });
    }

    /// Yield the pending search if it has come due, clearing the slot;
    /// otherwise change nothing and yield nothing.
    pub fn poll(&mut self, now: u64) -> (r: Option<String>)
        ensures
            final (self)@.delay == old(self)@.delay,
            poll_fires(old(self)@, now as int) ==> ({
                &&& final (self)@.pending is None
                &&& r matches Some(q) && Some(q@) == ({
                    match old(self)@.pending {
                        Some(p) => Some(p.query),
                        None => None::<Seq<char>>,
                    }
                })
            }),
            !poll_fires(old(self)@, now as int) ==> final (self)@ == old(self)@ && r is None,
    {
        let ready = match &self.pending {
            Some(p) => p.due <= now,
            None => false,
        };
        if ready {
            match self.pending.take() {
                Some(p) => Some(p.query),
                None => None,
            }
        } else {
            None
        }
    }
}

/// Law: submissions arriving in a burst — each strictly sooner than one full
/// delay after the one before — coalesce into a single eventual search for
/// the last query: after the burst exactly the last query is pending, and at
/// no moment from one submission up to the next could a poll have yielded
/// anything, so no earlier query of the burst is ever searched.
pub proof fn lemma_debounce_coalesces(s: DebounceView, subs: Seq<(int, Seq<char>)>)
    requires
        subs.len() > 0,
        s.delay > 0,
        forall|i: int|
            0 <= i < subs.len() - 1 ==> #[trigger] subs[i].0 <= subs[i + 1].0 && subs[i + 1].0
                - subs[i].0 < s.delay,
    ensures
        spec_run(s, subs).pending == Some(
            PendingView { query: subs.last().1, due: subs.last().0 + s.delay },
        ),
        forall|i: int, t: int|
            0 <= i < subs.len() - 1 && subs[i].0 <= t <= subs[i + 1].0 ==> !(#[trigger] poll_fires(
                spec_run(s, subs.take(i + 1)),
                t,
            )),
{
    lemma_run_keeps_delay(s, subs);
    assert forall|i: int, t: int|
        0 <= i < subs.len() - 1 && subs[i].0 <= t <= subs[i + 1].0 implies !(#[trigger] poll_fires(
        spec_run(s, subs.take(i + 1)),
        t,
    )) by {
        let pre = subs.take(i + 1);
        lemma_run_keeps_delay(s, pre);
        assert(pre.last() == subs[i]);
        assert(pre.drop_last() =~= subs.take(i));
        assert(spec_run(s, pre).pending == Some(
            PendingView { query: subs[i].1, due: subs[i].0 + s.delay },
        ));
    }
}

/// The configured delay never changes under submissions.
proof fn lemma_run_keeps_delay(s: DebounceView, subs: Seq<(int, Seq<char>)>)
    ensures
        spec_run(s, subs).delay == s.delay,
    decreases subs.len(),
{
    if subs.len() > 0 {
        lemma_run_keeps_delay(s, subs.drop_last());
    }
}

} // verus!
