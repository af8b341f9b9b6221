use vstd::prelude::*;

verus! {

/// Which clock the hour row shows.
#[derive(Clone, Copy, Debug, PartialEq, Eq, Structural)]
pub enum TimeConvention {
    /// 24-hour time ("military" time)
    International,
    /// 12-hour time (conventional US/Canada time)
    Imperial,
}

impl TimeConvention {
    /// Reads a "use 12-hour time" flag: Imperial if set, else International.
    pub fn from_use_12_flag(flag: bool) -> (r: Self)
        ensures
            flag ==> r == TimeConvention::Imperial,
            !flag ==> r == TimeConvention::International,
    {
        if flag {
            TimeConvention::Imperial
        } else {
            TimeConvention::International
        }
    }
}

} // verus!
