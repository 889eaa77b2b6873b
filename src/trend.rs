//! Rolling price windows and trend classification.
use vstd::prelude::*;

verus! {

/// How many samples a price window keeps.
pub const PRICE_HISTORY_LEN: usize = 5;

/// Fewest samples that give a trend other than `Flat`.
pub const MIN_TREND_SAMPLES: usize = 4;

/// Smallest endpoint move that counts as a trend: half a cent.
pub const TREND_THRESHOLD: i64 = 5_000;

/// Direction of the most recent price movement of a market.
#[derive(Clone, Copy, Debug, PartialEq, Eq, Structural)]
pub enum Trend {
    UpRising,
    DownRising,
    Flat,
    /// The Down ask is falling.
    DownFalling,
    /// The Up ask is falling.
    UpFalling,
}

/// One observation: when it was taken and both asks.
#[derive(Clone, Copy, Debug, PartialEq, Eq, Structural)]
pub struct PriceSample {
    pub timestamp: u64,
    pub up_ask: u32,
    pub down_ask: u32,
}

/// Trend given the moves of both asks between the oldest and newest sample.
pub open spec fn trend_of_deltas(up_delta: int, down_delta: int) -> Trend {
    if up_delta >= TREND_THRESHOLD && up_delta >= down_delta {
        Trend::UpRising
    } else if down_delta >= TREND_THRESHOLD && down_delta >= up_delta {
        Trend::DownRising
    } else if down_delta <= -TREND_THRESHOLD && down_delta <= up_delta {
        Trend::DownFalling
    } else if up_delta <= -TREND_THRESHOLD && up_delta <= down_delta {
        Trend::UpFalling
    } else {
        Trend::Flat
    }
}

/// Trend of two samples, the oldest and the newest.
pub open spec fn trend_between(first: PriceSample, last: PriceSample) -> Trend {
    trend_of_deltas(last.up_ask - first.up_ask, last.down_ask - first.down_ask)
}

/// Trend of a window: `Flat` below four samples, else decided by its endpoints.
pub open spec fn trend_of_window(w: Seq<PriceSample>) -> Trend {
    if w.len() < MIN_TREND_SAMPLES {
        Trend::Flat
    } else {
        trend_between(w[0], w.last())
    }
}

/// The window after appending a sample: the newest samples, at most five.
pub open spec fn window_after(w: Seq<PriceSample>, s: PriceSample) -> Seq<PriceSample> {
    let pushed = w.push(s);
    if pushed.len() > PRICE_HISTORY_LEN {
        pushed.subrange(pushed.len() - PRICE_HISTORY_LEN, pushed.len() as int)
    } else {
        pushed
    }
}

/// Classifies the move between two samples.
pub fn classify(first: PriceSample, last: PriceSample) -> (t: Trend)
    ensures
        t == trend_between(first, last),
{
    let up_delta: i64 = last.up_ask as i64 - first.up_ask as i64;
    let down_delta: i64 = last.down_ask as i64 - first.down_ask as i64;
    if up_delta >= TREND_THRESHOLD && up_delta >= down_delta {
        Trend::UpRising
    } else if down_delta >= TREND_THRESHOLD && down_delta >= up_delta {
        Trend::DownRising
    } else if down_delta <= -TREND_THRESHOLD && down_delta <= up_delta {
        Trend::DownFalling
    } else if up_delta <= -TREND_THRESHOLD && up_delta <= down_delta {
        Trend::UpFalling
    } else {
        Trend::Flat
    }
}

/// A rolling window of the most recent samples of one market.
#[derive(Debug)]
pub struct PriceWindow {
    samples: Vec<PriceSample>,
}

impl View for PriceWindow {
    type V = Seq<PriceSample>;

    closed spec fn view(&self) -> Seq<PriceSample> {
        self.samples@
    }
}

impl PriceWindow {
    pub open spec fn wf(&self) -> bool {
        self@.len() <= PRICE_HISTORY_LEN
    }

    pub fn new() -> (w: PriceWindow)
        ensures
            w@ == Seq::<PriceSample>::empty(),
            w.wf(),
    {
        PriceWindow { samples: Vec::new() }
    }

    pub fn len(&self) -> (n: usize)
        ensures
            n == self@.len(),
    {
        self.samples.len()
    }

    /// Appends a sample, drops the oldest beyond five, and returns the
    /// window's trend.
    pub fn observe(&mut self, sample: PriceSample) -> (t: Trend)
        requires
            old(self).wf(),
        ensures
            final(self).wf(),
            final(self)@ == window_after(old(self)@, sample),
            t == trend_of_window(final(self)@),
    {
        self.samples.push(sample);
        if self.samples.len() > PRICE_HISTORY_LEN {
            self.samples.remove(0);
            assert(self@ =~= window_after(old(self)@, sample));
        }
        if self.samples.len() < MIN_TREND_SAMPLES {
            Trend::Flat
        } else {
            let n = self.samples.len();
            classify(self.samples[0], self.samples[n - 1])
        }
    }
}

} // verus!

verus! {

/// Once a window holds four or five samples, its trend is decided by its
/// oldest and newest sample alone: the samples between them do not matter.
pub proof fn lemma_trend_depends_only_on_endpoints(a: Seq<PriceSample>, b: Seq<PriceSample>)
    requires
        MIN_TREND_SAMPLES <= a.len() <= PRICE_HISTORY_LEN,
        MIN_TREND_SAMPLES <= b.len() <= PRICE_HISTORY_LEN,
        a[0] == b[0],
        a.last() == b.last(),
    ensures
        trend_of_window(a) == trend_of_window(b),
        trend_of_window(a) == trend_between(a[0], a.last()),
{
}

} // verus!
