//! The time base of a track: the length of one tick of its timestamps, in
//! seconds, as a fraction.

use vstd::prelude::*;

verus! {

/// The whole seconds that `ts` ticks of `numer / denom` seconds make. The
/// count wraps at 2^64.
pub open spec fn whole_seconds(numer: nat, denom: nat, ts: nat) -> nat {
    ((ts * numer / denom) % 0x1_0000_0000_0000_0000) as nat
}

/// Calls symphonia's `TimeBase::calc_time` for the time base `numer / denom`
/// and returns the `seconds` of the `Time` it gives. The call panics where
/// `numer` or `denom` is zero. The source divides `ts * numer` by `denom`:
/// with integers of 128 bits where the product has more than 52 bits, with
/// floats of 64 bits where it has not, in which case both operands are exact
/// and the quotient, rounded to the nearest float, still lies below the next
/// whole number. Its documentation says that the seconds wrap on overflow.
#[verifier::external_body]
fn calc_time_seconds(numer: u32, denom: u32, ts: u64) -> (seconds: u64)
    requires
        numer > 0,
        denom > 0,
    ensures
        seconds == whole_seconds(numer as nat, denom as nat, ts as nat),
{
    symphonia::core::units::TimeBase::new(numer, denom).calc_time(ts).seconds
}

/// A time base: one tick lasts `numer / denom` seconds. Neither is zero.
#[derive(Clone, Copy, Debug, PartialEq, Eq)]
pub struct TimeBase {
    numer: u32,
    denom: u32,
}

/// The mathematical value of a time base.
pub struct TimeBaseView {
    pub numer: nat,
    pub denom: nat,
}

impl TimeBaseView {
    /// The whole seconds that `ts` ticks make.
    pub open spec fn seconds(self, ts: nat) -> nat {
        whole_seconds(self.numer, self.denom, ts)
    }
}

impl View for TimeBase {
    type V = TimeBaseView;

    closed spec fn view(&self) -> TimeBaseView {
        TimeBaseView { numer: self.numer as nat, denom: self.denom as nat }
    }
}

impl TimeBase {
    #[verifier::type_invariant]
    spec fn inv(self) -> bool {
        self.numer > 0 && self.denom > 0
    }

    /// The time base `numer / denom`; `None` where either is zero.
    pub fn new(numer: u32, denom: u32) -> (time_base: Option<Self>)
        ensures
            time_base is Some <==> numer > 0 && denom > 0,
            time_base matches Some(tb) ==> tb@ == (TimeBaseView {
                numer: numer as nat,
                denom: denom as nat,
            }),
    {
        if numer == 0 || denom == 0 {
            None
        } else {
            Some(TimeBase { numer, denom })
        }
    }

    /// The numerator.
    pub fn numer(&self) -> (numer: u32)
        ensures
            numer == self@.numer,
            numer > 0,
    {
        proof {
            use_type_invariant(self);
        }
        self.numer
    }

    /// The denominator.
    pub fn denom(&self) -> (denom: u32)
        ensures
            denom == self@.denom,
            denom > 0,
    {
        proof {
            use_type_invariant(self);
        }
        self.denom
    }

    /// The whole seconds that `ts` ticks make.
    pub fn calc_seconds(&self, ts: u64) -> (seconds: u64)
        ensures
            seconds == self@.seconds(ts as nat),
    {
        proof {
            use_type_invariant(self);
        }
        calc_time_seconds(self.numer, self.denom, ts)
    }
}

} // verus!
