//! The sampler's interval bookkeeping. The collection period is operator
//! configurable between one minute and one hour, in one-minute steps; a
//! change never alters the sleep already in progress, only the ticks after
//! it. The host shell owns the actual timer: it asks `begin_sleep` for the
//! duration, sleeps it out, and reports back with `end_sleep`.

use vstd::prelude::*;
use crate::digits::{dec_seq, digit_char, digit_char_x, push_dec};

verus! {

/// The sampler's timing state: the configured interval and the sleep
/// currently in progress, if any.
#[derive(Clone, Copy, Debug)]
pub struct Sampler {
    /// Seconds between ticks.
    pub interval_secs: u64,
    /// The duration of the sleep now in progress, captured when it began.
    pub sleeping: Option<u64>,
}

/// Beginning a sleep captures the interval configured at that moment.
pub open spec fn spec_begin_sleep(s: Sampler) -> (Sampler, u64) {
    (Sampler { interval_secs: s.interval_secs, sleeping: Some(s.interval_secs) }, s.interval_secs)
}

/// Ending the sleep clears it and leaves the interval alone.
pub open spec fn spec_end_sleep(s: Sampler) -> Sampler {
    Sampler { interval_secs: s.interval_secs, sleeping: None }
}

/// Reconfiguring touches the interval only, never a sleep in progress.
pub open spec fn spec_set_interval(s: Sampler, secs: u64) -> Sampler {
    Sampler { interval_secs: secs, sleeping: s.sleeping }
}

impl Sampler {
    /// The interval stays in the operator-configurable range.
    pub open spec fn wf(self) -> bool {
        60 <= self.interval_secs <= 3600 && self.interval_secs % 60 == 0
    }

    /// A fresh sampler ticks once a minute and is not sleeping.
    pub fn new() -> (s: Self)
        ensures
            s.wf(),
            s.interval_secs == 60,
            s.sleeping is None,
    {
        Sampler { interval_secs: 60, sleeping: None }
    }

    /// Begins one tick's sleep: the duration handed to the timer is the
    /// interval configured at this moment, fixed for the whole sleep.
    pub fn begin_sleep(&mut self) -> (d: u64)
        requires
            old(self).sleeping is None,
        ensures
            (*final(self), d) == spec_begin_sleep(*old(self)),
            d == old(self).interval_secs,
    {
        self.sleeping = Some(self.interval_secs);
        self.interval_secs
    }

    /// The timer reports the sleep as elapsed; the next tick may begin.
    pub fn end_sleep(&mut self)
        requires
            old(self).sleeping is Some,
        ensures
            *final(self) == spec_end_sleep(*old(self)),
    {
        self.sleeping = None;
    }

    /// Reconfigures the interval. A sleep already in progress is not
    /// altered: the new interval governs only from the next tick.
    pub fn set_interval(&mut self, secs: u64)
        requires
            60 <= secs <= 3600,
            secs % 60 == 0,
        ensures
            *final(self) == spec_set_interval(*old(self), secs),
            final(self).wf(),
            final(self).sleeping == old(self).sleeping,
    {
        self.interval_secs = secs;
    }
}

/// An interval change made during a sleep takes effect only after that
/// sleep completes: begun under interval `a` and reconfigured to `b`
/// mid-sleep, the tick in progress still sleeps `a` seconds, and the next
/// tick sleeps `b`.
pub proof fn lemma_interval_change_deferred(s0: Sampler, b: u64)
    requires
        s0.sleeping is None,
    ensures
        ({
            let (s1, d1) = spec_begin_sleep(s0);
            let s2 = spec_set_interval(s1, b);
            let s3 = spec_end_sleep(s2);
            let (s4, d2) = spec_begin_sleep(s3);
            d1 == s0.interval_secs && s2.sleeping == Some(d1) && d2 == b
        }),
{
}

/// The UI text for a configured interval: whole minutes below an hour, else
/// hours to one decimal place, rounded.
pub open spec fn spec_interval_label(secs: u64) -> Seq<char> {
    if secs < 3600 {
        dec_seq((secs / 60) as nat) + " min"@
    } else {
        let deci = (secs * 10 + 1800) as int / 3600;
        dec_seq((deci / 10) as nat) + seq!['.', digit_char(deci % 10)] + " hrs"@
    }
}

pub fn interval_label(secs: u64) -> (r: String)
    requires
        60 <= secs <= 3600,
    ensures
        r@ == spec_interval_label(secs),
{
    let mut r = String::new();
    if secs < 3600 {
        push_dec(&mut r, secs / 60);
        r.append(" min");
        proof {
            assert(r@ =~= spec_interval_label(secs));
        }
    } else {
        let deci: u64 = (secs * 10 + 1800) / 3600;
        push_dec(&mut r, deci / 10);
        r.push('.');
        r.push(digit_char_x(deci % 10));
        r.append(" hrs");
        proof {
            assert(r@ =~= spec_interval_label(secs));
        }
    }
    r
}

} // verus!
