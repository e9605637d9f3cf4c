//! A set of tick streams with one read position each: the cursors that the
//! batcher advances.
use vstd::prelude::*;

use crate::data::calendar::Timestamp;
use crate::data::Tick;

verus! {

/// Whether stream `s` has its next tick at exactly `clock`.
pub open spec fn has_tick_at<V>(
    ticks: Seq<Seq<Tick<V>>>,
    pos: Seq<usize>,
    s: int,
    clock: Timestamp,
) -> bool {
    &&& pos[s] < ticks[s].len()
    &&& ticks[s][pos[s] as int].t == clock
}

/// The earliest timestamp among the next ticks of the first `k` streams, or
/// `None` where all of them are exhausted.
pub open spec fn next_time<V>(ticks: Seq<Seq<Tick<V>>>, pos: Seq<usize>, k: int) -> Option<
    Timestamp,
>
    decreases k,
{
    if k <= 0 {
        None
    } else {
        let rest = next_time(ticks, pos, k - 1);
        if pos[k - 1] < ticks[k - 1].len() {
            let t = ticks[k - 1][pos[k - 1] as int].t;
            match rest {
                Some(m) => if m.secs <= t.secs {
                    Some(m)
                } else {
                    Some(t)
                },
                None => Some(t),
            }
        } else {
            rest
        }
    }
}

/// The positions after every stream whose next tick is at `clock` has moved
/// past it.
pub open spec fn advance_at<V>(ticks: Seq<Seq<Tick<V>>>, pos: Seq<usize>, clock: Timestamp) -> Seq<
    usize,
> {
    Seq::new(
        pos.len(),
        |s: int|
            if has_tick_at(ticks, pos, s, clock) {
                (pos[s] + 1) as usize
            } else {
                pos[s]
            },
    )
}

/// Ticks held in streams, each with the position of its next tick.
pub struct TickStreams<V> {
    ticks: Vec<Vec<Tick<V>>>,
    positions: Vec<usize>,
}

impl<V: Copy> TickStreams<V> {
    /// The ticks of each stream.
    pub closed spec fn ticks(&self) -> Seq<Seq<Tick<V>>> {
        self.ticks@.map_values(|v: Vec<Tick<V>>| v@)
    }

    /// The position of the next tick of each stream.
    pub closed spec fn positions(&self) -> Seq<usize> {
        self.positions@
    }

    /// One position per stream, none past its stream's end; every stream's
    /// length fits in a `usize`.
    pub open spec fn wf(&self) -> bool {
        &&& self.positions().len() == self.ticks().len()
        &&& forall|s: int|
            0 <= s < self.ticks().len() ==> #[trigger] self.positions()[s]
                <= self.ticks()[s].len()
        &&& forall|s: int| 0 <= s < self.ticks().len() ==> #[trigger] self.ticks()[s].len() <= usize::MAX
    }

    /// Streams over the given ticks, each read from its start.
    pub fn new(ticks: Vec<Vec<Tick<V>>>) -> (r: TickStreams<V>)
        ensures
            r.wf(),
            r.ticks() == ticks@.map_values(|v: Vec<Tick<V>>| v@),
            r.positions() == Seq::new(ticks@.len(), |s: int| 0usize),
    {
        let mut positions: Vec<usize> = Vec::new();
        let mut s: usize = 0;
        while s < ticks.len()
            invariant
                s <= ticks@.len(),
                positions@ == Seq::new(s as nat, |j: int| 0usize),
                forall|j: int| 0 <= j < s ==> #[trigger] ticks@[j]@.len() <= usize::MAX,
            decreases ticks@.len() - s,
        {
            let n = ticks[s].len();
            assert(ticks@[s as int]@.len() == n);
            positions.push(0);
            s = s + 1;
            assert(positions@ =~= Seq::new(s as nat, |j: int| 0usize));
        }
        let r = TickStreams { ticks, positions };
        assert(r.positions() =~= Seq::new(r.ticks@.len(), |s: int| 0usize));
        r
    }

    /// The number of streams.
    pub fn len(&self) -> (r: usize)
        requires
            self.wf(),
        ensures
            r == self.ticks().len(),
    {
        self.positions.len()
    }

    /// The next tick of stream `s`, without moving past it.
    pub fn peek(&self, s: usize) -> (r: Option<Tick<V>>)
        requires
            self.wf(),
            s < self.ticks().len(),
        ensures
            self.positions()[s as int] < self.ticks()[s as int].len() ==> r == Some(
                self.ticks()[s as int][self.positions()[s as int] as int],
            ),
            self.positions()[s as int] >= self.ticks()[s as int].len() ==> r.is_none(),
    {
        let p = self.positions[s];
        let stream = &self.ticks[s];
        if p < stream.len() {
            Some(stream[p])
        } else {
            None
        }
    }

    /// The next tick of stream `s`, moving past it.
    pub fn next(&mut self, s: usize) -> (r: Option<Tick<V>>)
        requires
            old(self).wf(),
            s < old(self).ticks().len(),
        ensures
            final(self).wf(),
            final(self).ticks() == old(self).ticks(),
            old(self).positions()[s as int] < old(self).ticks()[s as int].len() ==> {
                &&& r == Some(old(self).ticks()[s as int][old(self).positions()[s as int] as int])
                &&& final(self).positions() == old(self).positions().update(
                    s as int,
                    (old(self).positions()[s as int] + 1) as usize,
                )
            },
            old(self).positions()[s as int] >= old(self).ticks()[s as int].len() ==> {
                &&& r.is_none()
                &&& final(self).positions() == old(self).positions()
            },
    {
        let r = self.peek(s);
        let p = self.positions[s];
        if p < self.ticks[s].len() {
            self.positions[s] = p + 1;
        }
        r
    }

    /// The earliest timestamp among the next ticks of all streams, or `None`
    /// where every stream is exhausted.
    pub fn next_time(&self) -> (r: Option<Timestamp>)
        requires
            self.wf(),
        ensures
            r == next_time(self.ticks(), self.positions(), self.ticks().len() as int),
    {
        let mut best: Option<Timestamp> = None;
        let mut s: usize = 0;
        while s < self.positions.len()
            invariant
                self.wf(),
                s <= self.ticks().len(),
                best == next_time(self.ticks(), self.positions(), s as int),
            decreases self.ticks().len() - s,
        {
            match self.peek(s) {
                Some(tick) => {
                    best = match best {
                        Some(m) => if m.secs <= tick.t.secs {
                            Some(m)
                        } else {
                            Some(tick.t)
                        },
                        None => Some(tick.t),
                    };
                },
                None => {},
            }
            s = s + 1;
        }
        best
    }
}

} // verus!
