//! The QuickDraw debouncer: a per-key state machine that reports an edge as soon as
//! the sampled value leaves its stable state, and cancels that edge if the key
//! settles back to where it was.

use vstd::prelude::*;
use crate::log::DebState;

verus! {

/// The debouncer of one key; `true` stands for pressed (down).
#[derive(Debug, Clone, Copy, PartialEq, Eq, Structural)]
pub enum QuickDraw {
    /// The key is stable at the contained state.
    Stable(bool),
    /// The key is bouncing.
    Bouncing {
        /// The stable state from before the bouncing began.
        prior: bool,
        /// The most recent state that was sampled.
        current: bool,
        /// The tick at which `current` was first sampled.
        since: u32,
    },
}

impl QuickDraw {
    /// One transition of the state machine on a sample taken at tick `now`: the new
    /// state and the edge emitted, if any.
    pub open spec fn next(self, sample: bool, now: u32, stable_time: u32) -> (QuickDraw, Option<bool>) {
        match self {
            QuickDraw::Stable(p) => {
                if sample != p {
                    (QuickDraw::Bouncing { prior: p, current: sample, since: now }, Some(sample))
                } else {
                    (self, None)
                }
            },
            QuickDraw::Bouncing { prior, current, since } => {
                if sample != current {
                    (QuickDraw::Bouncing { prior, current: sample, since: now }, None)
                } else if now.wrapping_sub(since) < stable_time {
                    (self, None)
                } else if prior == current {
                    (QuickDraw::Stable(current), Some(current))
                } else {
                    (QuickDraw::Stable(current), None)
                }
            },
        }
    }

    /// The value that was sampled last.
    pub open spec fn observed(self) -> bool {
        match self {
            QuickDraw::Stable(p) => p,
            QuickDraw::Bouncing { current, .. } => current,
        }
    }

    /// Whether the key counts as pressed: the last edge emitted was a press.
    pub open spec fn spec_is_pressed(self) -> bool {
        match self {
            QuickDraw::Stable(p) => p,
            QuickDraw::Bouncing { prior, .. } => !prior,
        }
    }

    /// The initial state: stable and released.
    pub fn new() -> (r: Self)
        ensures
            r == QuickDraw::Stable(false),
    {
        QuickDraw::Stable(false)
    }

    /// Steps the state machine on a sample taken at tick `now`, and returns the edge
    /// emitted, if any (`Some(true)` a press, `Some(false)` a release).
    pub fn step(&mut self, state: bool, now: u32, stable_time: u32) -> (r: Option<bool>)
        ensures
            (*final(self), r) == old(self).next(state, now, stable_time),
    {
        let (next_state, event) = match *self {
            QuickDraw::Stable(prior) => {
                if state != prior {
                    (QuickDraw::Bouncing { prior, current: state, since: now }, Some(state))
                } else {
                    (*self, None)
                }
            },
            QuickDraw::Bouncing { prior, current, since } => {
                if state != current {
                    // A bounce: restart the settling window from now.
                    (QuickDraw::Bouncing { prior, current: state, since: now }, None)
                } else if now.wrapping_sub(since) < stable_time {
                    (*self, None)
                } else {
                    // Settled. Settling back to the prior value cancels the edge
                    // that was emitted when the bouncing began.
                    let event = if prior == current {
                        Some(current)
                    } else {
                        None
                    };
                    (QuickDraw::Stable(current), event)
                }
            },
        };
        *self = next_state;
        event
    }

    /// Whether the key counts as pressed: stable down, or bouncing away from stable up.
    pub fn is_pressed(&self) -> (r: bool)
        ensures
            r == self.spec_is_pressed(),
    {
        match self {
            QuickDraw::Stable(pressed) => *pressed,
            QuickDraw::Bouncing { prior, .. } => !*prior,
        }
    }

    /// The name of the state, for the log.
    pub open spec fn spec_state_name(self) -> DebState {
        match self {
            QuickDraw::Stable(true) => DebState::StableD,
            QuickDraw::Stable(false) => DebState::StableU,
            QuickDraw::Bouncing { prior: true, current: true, .. } => DebState::BouncingDD,
            QuickDraw::Bouncing { prior: true, current: false, .. } => DebState::BouncingDU,
            QuickDraw::Bouncing { prior: false, current: false, .. } => DebState::BouncingUU,
            QuickDraw::Bouncing { prior: false, current: true, .. } => DebState::BouncingUD,
        }
    }

    /// The name of the state, for the log.
    pub fn state_name(&self) -> (r: DebState)
        ensures
            r == self.spec_state_name(),
    {
        match self {
            QuickDraw::Stable(true) => DebState::StableD,
            QuickDraw::Stable(false) => DebState::StableU,
            QuickDraw::Bouncing { prior: true, current: true, .. } => DebState::BouncingDD,
            QuickDraw::Bouncing { prior: true, current: false, .. } => DebState::BouncingDU,
            QuickDraw::Bouncing { prior: false, current: false, .. } => DebState::BouncingUU,
            QuickDraw::Bouncing { prior: false, current: true, .. } => DebState::BouncingUD,
        }
    }

    /// The debouncers of a 6-column, 8-row matrix half, all released, column by column.
    pub fn build_array() -> (r: Vec<QuickDraw>)
        ensures
            r@.len() == 48,
            forall|i: int| 0 <= i < 48 ==> r@[i] == QuickDraw::Stable(false),
    {
        let mut v: Vec<QuickDraw> = Vec::new();
        let mut i: usize = 0;
        while i < 48
            invariant
                i <= 48,
                v@.len() == i,
                forall|j: int| 0 <= j < i ==> v@[j] == QuickDraw::Stable(false),
            decreases 48 - i,
        {
            v.push(QuickDraw::new());
            i += 1;
        }
        v
    }
}

/// The state after a sequence of (sample, tick) pairs.
pub open spec fn run(q: QuickDraw, s: Seq<(bool, u32)>, stable_time: u32) -> QuickDraw
    decreases s.len(),
{
    if s.len() == 0 {
        q
    } else {
        run(q, s.drop_last(), stable_time).next(s.last().0, s.last().1, stable_time).0
    }
}

/// The edges emitted over a sequence of (sample, tick) pairs, in order.
pub open spec fn outputs(q: QuickDraw, s: Seq<(bool, u32)>, stable_time: u32) -> Seq<bool>
    decreases s.len(),
{
    if s.len() == 0 {
        Seq::empty()
    } else {
        let before = outputs(q, s.drop_last(), stable_time);
        match run(q, s.drop_last(), stable_time).next(s.last().0, s.last().1, stable_time).1 {
            Some(e) => before.push(e),
            None => before,
        }
    }
}

/// The value sampled last, `first` when nothing was sampled.
pub open spec fn last_sample(first: bool, s: Seq<(bool, u32)>) -> bool {
    if s.len() == 0 {
        first
    } else {
        s.last().0
    }
}

/// The number of times the sampled value changes, counting from `first`.
pub open spec fn transitions(first: bool, s: Seq<(bool, u32)>) -> nat
    decreases s.len(),
{
    if s.len() == 0 {
        0
    } else {
        transitions(first, s.drop_last()) + if s.last().0 != last_sample(first, s.drop_last()) {
            1nat
        } else {
            0nat
        }
    }
}

/// A bouncing state that has come back to its prior value: it can emit an edge on
/// settling without a further change of the samples.
pub open spec fn pending_cancel(q: QuickDraw) -> bool {
    q matches QuickDraw::Bouncing { prior, current, .. } && prior == current
}

proof fn lemma_edges_bounded(q: QuickDraw, s: Seq<(bool, u32)>, stable_time: u32)
    ensures
        run(q, s, stable_time).observed() == last_sample(q.observed(), s),
        outputs(q, s, stable_time).len() + (if pending_cancel(run(q, s, stable_time)) { 1int } else { 0 })
            <= transitions(q.observed(), s) + (if pending_cancel(q) { 1int } else { 0 }),
    decreases s.len(),
{
    if s.len() > 0 {
        lemma_edges_bounded(q, s.drop_last(), stable_time);
    }
}

/// A debouncer emits no more edges than there are changes in what it samples, when
/// it does not start out bouncing back towards its prior value.
pub proof fn lemma_edges_at_most_transitions(q: QuickDraw, s: Seq<(bool, u32)>, stable_time: u32)
    requires
        !pending_cancel(q),
    ensures
        outputs(q, s, stable_time).len() <= transitions(q.observed(), s),
{
    lemma_edges_bounded(q, s, stable_time);
}

/// The tick `i` ticks after `t0`, on a clock that wraps at 2^32 (for `0 <= i < 2^32`).
pub open spec fn tick_after(t0: u32, i: int) -> u32 {
    if t0 + i < 0x1_0000_0000 {
        (t0 + i) as u32
    } else {
        (t0 + i - 0x1_0000_0000) as u32
    }
}

/// The samples `xs`, the `i`-th taken `ds[i]` ticks after `t0`.
pub open spec fn at_times(xs: Seq<bool>, t0: u32, ds: Seq<int>) -> Seq<(bool, u32)> {
    Seq::new(xs.len(), |i: int| (xs[i], tick_after(t0, ds[i])))
}

/// Index of the sample that started the current bouncing episode: the last sample
/// that differed from the one before it (-1 when there is none).
pub open spec fn bounce_start(q: QuickDraw, s: Seq<(bool, u32)>, stable_time: u32) -> int
    decreases s.len(),
{
    if s.len() == 0 {
        -1
    } else if s.last().0 != run(q, s.drop_last(), stable_time).observed() {
        s.len() - 1
    } else {
        bounce_start(q, s.drop_last(), stable_time)
    }
}

proof fn lemma_bouncing_shape(q: QuickDraw, s: Seq<(bool, u32)>, stable_time: u32)
    requires
        q is Stable,
    ensures
        run(q, s, stable_time).observed() == last_sample(q.observed(), s),
        run(q, s, stable_time) matches QuickDraw::Bouncing { current, since, .. } ==> {
            let b = bounce_start(q, s, stable_time);
            &&& 0 <= b < s.len()
            &&& since == s[b].1
            &&& forall|i: int| b <= i < s.len() ==> s[i].0 == current
            &&& s[b].0 != last_sample(q.observed(), s.take(b))
            &&& b < s.len() - 1 ==> s.last().1.wrapping_sub(since) < stable_time
        },
    decreases s.len(),
{
    if s.len() > 0 {
        let p = s.drop_last();
        lemma_bouncing_shape(q, p, stable_time);
        if run(q, s, stable_time) is Bouncing {
            let b = bounce_start(q, s, stable_time);
            if b == s.len() - 1 {
                assert(s.take(b) =~= p);
            } else {
                assert(run(q, p, stable_time) is Bouncing);
                assert(s.take(b) =~= p.take(b));
                assert(s[b] == p[b]);
                let cur = run(q, s, stable_time)->current;
                assert forall|i: int| b <= i < s.len() implies s[i].0 == cur by {
                    if i < s.len() - 1 {
                        assert(s[i] == p[i]);
                    }
                }
            }
        }
    }
}

proof fn lemma_alternating(n: bool, s: Seq<(bool, u32)>, stable_time: u32)
    ensures
        forall|j: int|
            0 <= j < outputs(QuickDraw::Stable(n), s, stable_time).len() ==> #[trigger] outputs(
                QuickDraw::Stable(n),
                s,
                stable_time,
            )[j] == (if j % 2 == 0 { !n } else { n }),
        run(QuickDraw::Stable(n), s, stable_time).spec_is_pressed() == (if outputs(
            QuickDraw::Stable(n),
            s,
            stable_time,
        ).len() % 2 == 1 {
            !n
        } else {
            n
        }),
    decreases s.len(),
{
    if s.len() > 0 {
        lemma_alternating(n, s.drop_last(), stable_time);
    }
}

proof fn lemma_tick_distance(t0: u32, a: int, b: int)
    requires
        0 <= b <= a < 0x1_0000_0000,
    ensures
        tick_after(t0, a).wrapping_sub(tick_after(t0, b)) == a - b,
{
}

/// Starting from a stable state, with samples taken at non-decreasing ticks within
/// one turn of the clock: once the last run of equal samples `m` spans at least
/// `stable_time` ticks (at least one), the debouncer is stable at `m`, and the edges
/// it emitted alternate starting with a change away from the start: an even number
/// when `m` is where it started, an odd one otherwise.
pub proof fn lemma_settles(
    n: bool,
    m: bool,
    xs: Seq<bool>,
    ds: Seq<int>,
    k: int,
    t0: u32,
    stable_time: u32,
)
    requires
        ds.len() == xs.len(),
        forall|i: int, j: int| 0 <= i <= j < ds.len() ==> ds[i] <= ds[j],
        forall|i: int| 0 <= i < ds.len() ==> 0 <= #[trigger] ds[i] < 0x1_0000_0000,
        0 <= k < xs.len(),
        stable_time >= 1,
        ds[xs.len() - 1] - ds[k] >= stable_time,
        forall|i: int| k <= i < xs.len() ==> xs[i] == m,
    ensures
        run(QuickDraw::Stable(n), at_times(xs, t0, ds), stable_time) == QuickDraw::Stable(m),
        outputs(QuickDraw::Stable(n), at_times(xs, t0, ds), stable_time).len() % 2 == (if m == n {
            0int
        } else {
            1int
        }),
        forall|j: int|
            0 <= j < outputs(QuickDraw::Stable(n), at_times(xs, t0, ds), stable_time).len()
                ==> #[trigger] outputs(QuickDraw::Stable(n), at_times(xs, t0, ds), stable_time)[j] == (
            if j % 2 == 0 {
                !n
            } else {
                n
            }),
{
    let q = QuickDraw::Stable(n);
    let s = at_times(xs, t0, ds);
    lemma_bouncing_shape(q, s, stable_time);
    lemma_alternating(n, s, stable_time);
    let fin = run(q, s, stable_time);
    if let QuickDraw::Bouncing { current, since, .. } = fin {
        let b = bounce_start(q, s, stable_time);
        let len = s.len() as int;
        assert(current == m);
        if b > k {
            assert(s.take(b).last() == s[b - 1]);
            assert(s[b - 1].0 == m);
        }
        assert(b <= k);
        assert(k < len - 1);
        assert(ds[b] <= ds[k]);
        assert(0 <= ds[b] && ds[len - 1] < 0x1_0000_0000);
        lemma_tick_distance(t0, ds[len - 1], ds[b]);
        assert(s.last().1 == tick_after(t0, ds[len - 1]));
        assert(false);
    }
}

} // verus!
