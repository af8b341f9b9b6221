use vstd::prelude::*;
use std::path::PathBuf;
use crate::color::Color;
use crate::position::{Hour, Minute, YAxis};
use crate::time_convention::TimeConvention;

verus! {

/// `std::path::PathBuf`, carried through unread.
#[verifier::external_type_specification]
#[verifier::external_body]
pub struct ExPathBuf(PathBuf);

/// Everything a run needs: where to read and write, and how the clock looks.
pub struct Config {
    /// A config file to read instead of arguments.
    pub config: Option<PathBuf>,
    /// Output directory.
    pub output: PathBuf,
    /// Base image to put behind the clock.
    pub base: PathBuf,
    /// X-axis positions of the hour row.
    pub hour_x: Hour,
    /// Y-axis position(s) of the hour row.
    pub hour_y: YAxis<Hour>,
    /// 12-hour or 24-hour time.
    pub time: TimeConvention,
    /// X-axis positions of the minute row.
    pub minute_x: Minute,
    /// Y-axis position(s) of the minute row.
    pub minute_y: YAxis<Minute>,
    /// Colour of "off" segments.
    pub off_color: Color,
    /// Colour of "on" segments.
    pub on_color: Color,
    /// A different "on" colour for the minute row, if any.
    pub minute_color: Option<Color>,
    /// Side of a segment, in pixels.
    pub size: u32,
}

/// Merge strategy that replaces the old value with the new one.
pub fn overwrite<T>(l: &mut T, r: T)
    ensures
        *final(l) == r,
{
    *l = r;
}

/// Interprets `true` as 12-hour time and `false` as 24-hour time.
pub fn from_use_12_flag(flag: bool) -> (r: TimeConvention)
    ensures
        flag ==> r == TimeConvention::Imperial,
        !flag ==> r == TimeConvention::International,
{
    TimeConvention::from_use_12_flag(flag)
}

} // verus!
