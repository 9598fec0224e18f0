//! Building the balloon device configuration.

use vstd::prelude::*;

use crate::models::Balloon;

verus! {

/// An option that adjusts one setting of a balloon device.
#[derive(Debug, Clone, Copy, PartialEq, Eq)]
pub enum BalloonOpt {
    StatsPollingIntervals(i64),
}

impl BalloonOpt {
    /// The balloon after this option was applied to `b`.
    pub open spec fn apply_spec(&self, b: Balloon) -> Balloon {
        match self {
            BalloonOpt::StatsPollingIntervals(s) => Balloon { stats_polling_intervals: *s, ..b },
        }
    }

    /// Applies this option to a balloon.
    pub fn apply(&self, balloon: &mut Balloon)
        ensures
            *final(balloon) == self.apply_spec(*old(balloon)),
    {
        match self {
            BalloonOpt::StatsPollingIntervals(s) => balloon.stats_polling_intervals = *s,
        }
    }
}

/// The balloon after the options were applied to `b` in order.
pub open spec fn apply_balloon_opts(opts: Seq<BalloonOpt>, b: Balloon) -> Balloon
    decreases opts.len(),
{
    if opts.len() == 0 {
        b
    } else {
        opts.last().apply_spec(apply_balloon_opts(opts.drop_last(), b))
    }
}

/// Sets the interval, in seconds, at which balloon statistics are polled.
pub fn with_stats_polling_intervals(stats_polling_intervals: i64) -> (r: BalloonOpt)
    ensures
        r == BalloonOpt::StatsPollingIntervals(stats_polling_intervals),
{
    BalloonOpt::StatsPollingIntervals(stats_polling_intervals)
}

/// Builder of a balloon device configuration.
#[derive(Debug, Clone, Default)]
pub struct BalloonDevice {
    balloon: Balloon,
}

impl View for BalloonDevice {
    type V = Balloon;

    closed spec fn view(&self) -> Balloon {
        self.balloon
    }
}

impl BalloonDevice {
    /// A balloon of `amount_mib` MiB that may deflate on out-of-memory, with
    /// the options applied in order.
    pub fn new(amount_mib: i64, deflate_on_oom: bool, opts: Vec<BalloonOpt>) -> (r: Self)
        ensures
            r@ == apply_balloon_opts(
                opts@,
                Balloon {
                    amount_mib: Some(amount_mib),
                    deflate_on_oom: Some(deflate_on_oom),
                    stats_polling_intervals: 0,
                },
            ),
    {
        let mut balloon = Balloon {
            amount_mib: Some(amount_mib),
            deflate_on_oom: Some(deflate_on_oom),
            stats_polling_intervals: 0,
        };
        let ghost start = balloon;
        let mut i: usize = 0;
        while i < opts.len()
            invariant
                i <= opts.len(),
                balloon == apply_balloon_opts(opts@.take(i as int), start),
            decreases opts.len() - i,
        {
            opts[i].apply(&mut balloon);
            assert(opts@.take(i as int + 1).drop_last() =~= opts@.take(i as int));
            i = i + 1;
        }
        assert(opts@.take(opts.len() as int) =~= opts@);
        BalloonDevice { balloon }
    }

    /// The configured balloon.
    pub fn build(&self) -> (r: Balloon)
        ensures
            r == self@,
    {
        self.balloon
    }

    /// Sets the target size in MiB.
    pub fn update_amount_mib(self, amount_mib: i64) -> (r: Self)
        ensures
            r@ == (Balloon { amount_mib: Some(amount_mib), ..self@ }),
    {
        BalloonDevice { balloon: Balloon { amount_mib: Some(amount_mib), ..self.balloon } }
    }

    /// Sets the statistics polling interval in seconds.
    pub fn update_stats_polling_intervals(self, stats_polling_intervals: i64) -> (r: Self)
        ensures
            r@ == (Balloon { stats_polling_intervals, ..self@ }),
    {
        BalloonDevice { balloon: Balloon { stats_polling_intervals, ..self.balloon } }
    }
}

} // verus!
