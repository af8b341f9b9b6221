use vstd::prelude::*;

pub mod color;
pub mod config;
pub mod position;
pub mod raster;
pub mod text;
pub mod time_convention;

use crate::config::Config;
use crate::position::{Hour, Minute, Positions, YAxis};
use crate::raster::{copy_image, overlay_at, overlaid, pixel_rows, solid, solid_image, Raster};
use crate::time_convention::TimeConvention;

verus! {

/// Bit `i` of `t`, counting from the least significant.
pub open spec fn bit(t: nat, i: nat) -> bool
    decreases i,
{
    if i == 0 {
        t % 2 == 1
    } else {
        bit(t / 2, (i - 1) as nat)
    }
}

/// The `n` low bits of `t`, most significant first.
pub open spec fn unit_of(t: nat, n: nat) -> Seq<bool> {
    Seq::new(n, |j: int| bit(t, (n - 1 - j) as nat))
}

/// The number that a unit spells, read most significant bit first.
pub open spec fn unit_value(u: Seq<bool>) -> nat
    decreases u.len(),
{
    if u.len() == 0 {
        0
    } else {
        2 * unit_value(u.drop_last()) + if u.last() {
            1nat
        } else {
            0nat
        }
    }
}

/// Every (hour, minute) pair of a day, hour-major.
pub open spec fn moment_at(i: int) -> (u8, u8) {
    ((i / 60) as u8, (i % 60) as u8)
}

/// Formats a time as a unit: its `N` low bits, most significant first.
/// Bits above the `N`th are dropped; slots above the eighth bit are off.
pub fn format_time<const N: usize>(time: u8) -> (r: [bool; N])
    ensures
        r@ == unit_of(time as nat, N as nat),
{
    broadcast use vstd::array::group_array_axioms;
    let mut result: [bool; N] = [false; N];
    let mut t: u8 = time;
    let mut i: usize = 0;
    proof {
        vstd::arithmetic::power2::lemma2_to64();
    }
    while i < N
        invariant
            i <= N,
            result@.len() == N,
            t as nat == time as nat / vstd::arithmetic::power2::pow2(i as nat),
            forall|j: int| N - i <= j < N ==> result@[j] == bit(time as nat, (N - 1 - j) as nat),
        decreases N - i,
    {
        proof {
            lemma_bit_shift(time as nat, i as nat);
            vstd::arithmetic::power2::lemma_pow2_pos(i as nat);
            vstd::arithmetic::power2::lemma_pow2_unfold((i + 1) as nat);
            vstd::arithmetic::div_mod::lemma_div_denominator(
                time as int,
                vstd::arithmetic::power2::pow2(i as nat) as int,
                2,
            );
            vstd::arithmetic::mul::lemma_mul_is_commutative(
                2,
                vstd::arithmetic::power2::pow2(i as nat) as int,
            );
        }
        result[N - 1 - i] = t % 2 == 1;
        t = t / 2;
        i = i + 1;
    }
    assert(result@ =~= unit_of(time as nat, N as nat));
    result
}

/// Bit `i` of `t` is the lowest bit of `t` shifted down by `i`.
proof fn lemma_bit_shift(t: nat, i: nat)
    ensures
        bit(t, i) == ((t / vstd::arithmetic::power2::pow2(i)) % 2 == 1),
    decreases i,
{
    vstd::arithmetic::power2::lemma_pow2_pos(i);
    if i == 0 {
        vstd::arithmetic::power2::lemma2_to64();
    } else {
        lemma_bit_shift(t / 2, (i - 1) as nat);
        vstd::arithmetic::power2::lemma_pow2_unfold(i);
        vstd::arithmetic::power2::lemma_pow2_pos((i - 1) as nat);
        vstd::arithmetic::div_mod::lemma_div_denominator(
            t as int,
            2,
            vstd::arithmetic::power2::pow2((i - 1) as nat) as int,
        );
    }
}

/// Reading a formatted unit back as a binary number gives the time modulo
/// two to the width.
pub proof fn lemma_format_time_round_trip(time: u8, n: nat)
    ensures
        unit_value(unit_of(time as nat, n)) == time as nat % vstd::arithmetic::power2::pow2(n),
{
    lemma_unit_value(time as nat, n);
}

proof fn lemma_unit_value(t: nat, n: nat)
    ensures
        unit_value(unit_of(t, n)) == t % vstd::arithmetic::power2::pow2(n),
    decreases n,
{
    vstd::arithmetic::power2::lemma_pow2_pos(n);
    if n == 0 {
        vstd::arithmetic::power2::lemma2_to64();
    } else {
        let u = unit_of(t, n);
        assert(u.drop_last() =~= unit_of(t / 2, (n - 1) as nat));
        lemma_unit_value(t / 2, (n - 1) as nat);
        vstd::arithmetic::power2::lemma_pow2_unfold(n);
        vstd::arithmetic::power2::lemma_pow2_pos((n - 1) as nat);
        vstd::arithmetic::div_mod::lemma_mod_breakdown(
            t as int,
            2,
            vstd::arithmetic::power2::pow2((n - 1) as nat) as int,
        );
    }
}

/// Every (hour, minute) pair of a day: hours 0 to 23, each with minutes
/// 0 to 59, in ascending order.
pub fn moments() -> (r: Vec<(u8, u8)>)
    ensures
        r@.len() == 1440,
        forall|i: int| 0 <= i < 1440 ==> #[trigger] r@[i] == moment_at(i),
{
    let mut r: Vec<(u8, u8)> = Vec::new();
    let mut h: u8 = 0;
    while h < 24
        invariant
            h <= 24,
            r@.len() == 60 * h,
            forall|i: int| 0 <= i < r@.len() ==> #[trigger] r@[i] == moment_at(i),
        decreases 24 - h,
    {
        let mut m: u8 = 0;
        while m < 60
            invariant
                h < 24,
                m <= 60,
                r@.len() == 60 * h + m,
                forall|i: int| 0 <= i < r@.len() ==> #[trigger] r@[i] == moment_at(i),
            decreases 60 - m,
        {
            assert((60 * h + m) / 60 == h && (60 * h + m) % 60 == m) by (nonlinear_arith)
                requires
                    m < 60,
            ;
            r.push((h, m));
            m = m + 1;
        }
        h = h + 1;
    }
    r
}

/// A day's moments are 1440 distinct pairs in strictly ascending
/// (hour, minute) order, with hours below 24 and minutes below 60.
pub proof fn lemma_moments_ordered(i: int, j: int)
    requires
        0 <= i < j < 1440,
    ensures
        moment_at(i).0 < 24 && moment_at(i).1 < 60,
        moment_at(i).0 < moment_at(j).0 || (moment_at(i).0 == moment_at(j).0 && moment_at(i).1
            < moment_at(j).1),
        moment_at(i) != moment_at(j),
{
    assert(i / 60 <= j / 60) by (nonlinear_arith)
        requires
            0 <= i < j,
    ;
    assert(i / 60 == j / 60 ==> i % 60 < j % 60) by (nonlinear_arith)
        requires
            0 <= i < j,
    ;
    assert(0 <= i / 60 < 24 && 0 <= j / 60 < 24) by (nonlinear_arith)
        requires
            0 <= i < j < 1440,
    ;
}

/// The pixels of an image, as `pixel_rows` gives them.
pub type Pixels = Seq<Seq<Seq<u8>>>;

/// The y coordinate of each slot of a row.
pub open spec fn y_values<const N: usize>(y: YAxis<Positions<N>>) -> Seq<i64> {
    Seq::new(N as nat, |i: int| y.value_at(i))
}

/// Where each bit of a unit goes: whether it is on, and the x and y of its
/// slot, matched by index.
pub open spec fn placements(unit: Seq<bool>, xs: Seq<i64>, ys: Seq<i64>) -> Seq<(bool, int, int)> {
    Seq::new(unit.len(), |i: int| (unit[i], xs[i] as int, ys[i] as int))
}

/// The canvas after pasting, in order, the "on" tile or the "off" tile at
/// each placement.
pub open spec fn paint(canvas: Pixels, ps: Seq<(bool, int, int)>, on: Pixels, off: Pixels) -> Pixels
    decreases ps.len(),
{
    if ps.len() == 0 {
        canvas
    } else {
        let p = ps.last();
        overlaid(paint(canvas, ps.drop_last(), on, off), if p.0 { on } else { off }, p.1, p.2)
    }
}

/// The canvas with one moment drawn on it: the minute row first, then the
/// hour row; under 12-hour time the hour row shows `hour % 12` in its first
/// four slots and its fifth slot shows whether `hour > 12`.
pub open spec fn composite(
    canvas: Pixels,
    on_hour: Pixels,
    on_minute: Pixels,
    off: Pixels,
    hour_x: Hour,
    hour_y: YAxis<Hour>,
    minute_x: Minute,
    minute_y: YAxis<Minute>,
    time_convention: TimeConvention,
    hour: u8,
    minute: u8,
) -> Pixels {
    let with_minutes = paint(
        canvas,
        placements(unit_of(minute as nat, 6), minute_x@, y_values(minute_y)),
        on_minute,
        off,
    );
    match time_convention {
        TimeConvention::International => paint(
            with_minutes,
            placements(unit_of(hour as nat, 5), hour_x@, y_values(hour_y)),
            on_hour,
            off,
        ),
        TimeConvention::Imperial => paint(
            paint(
                with_minutes,
                placements(
                    unit_of((hour % 12) as nat, 4),
                    hour_x@.subrange(0, 4),
                    y_values(hour_y).subrange(0, 4),
                ),
                on_hour,
                off,
            ),
            placements(seq![hour > 12], seq![hour_x@[4]], seq![y_values(hour_y)[4]]),
            on_hour,
            off,
        ),
    }
}

/// A tile of this side fits in memory.
pub open spec fn tile_size_ok(size: u32) -> bool {
    4 * (size as int) * (size as int) <= isize::MAX as int
}

/// The "on" tile of the hour row for a configuration.
pub open spec fn on_hour_tile(args: Config) -> Pixels {
    solid(args.size as nat, args.on_color.0@.push(255u8))
}

/// The "on" tile of the minute row: its own colour if one is set, else the
/// hour row's.
pub open spec fn on_minute_tile(args: Config) -> Pixels {
    match args.minute_color {
        Some(c) => solid(args.size as nat, c.0@.push(255u8)),
        None => on_hour_tile(args),
    }
}

/// The "off" tile for a configuration.
pub open spec fn off_tile(args: Config) -> Pixels {
    solid(args.size as nat, args.off_color.0@.push(255u8))
}

/// The frame for one moment: the base image with the clock drawn as the
/// configuration says.
pub open spec fn moment_pixels(base: Pixels, args: Config, hour: u8, minute: u8) -> Pixels {
    composite(
        base,
        on_hour_tile(args),
        on_minute_tile(args),
        off_tile(args),
        args.hour_x,
        args.hour_y,
        args.minute_x,
        args.minute_y,
        args.time,
        hour,
        minute,
    )
}

/// Makes a square tile of one colour, `size` pixels a side.
pub fn segment(size: u32, color: [u8; 4]) -> (r: Raster)
    requires
        tile_size_ok(size),
    ensures
        pixel_rows(r) == solid(size as nat, color@),
{
    solid_image(size, color)
}

/// Draws a unit on `base`: at slot `i`, the "on" tile if bit `i` is set,
/// else the "off" tile, at (`xs[i]`, `y[i]`).
pub fn draw_unit<const N: usize>(
    base: &mut Raster,
    unit: [bool; N],
    on_segment: &Raster,
    off_segment: &Raster,
    xs: &Positions<N>,
    y: &YAxis<Positions<N>>,
)
    ensures
        pixel_rows(*final(base)) == paint(
            pixel_rows(*old(base)),
            placements(unit@, xs@, y_values(*y)),
            pixel_rows(*on_segment),
            pixel_rows(*off_segment),
        ),
{
    broadcast use vstd::array::group_array_axioms;
    let ghost start = pixel_rows(*base);
    let ghost ps = placements(unit@, xs@, y_values(*y));
    let mut i: usize = 0;
    assert(ps.subrange(0, 0) =~= Seq::<(bool, int, int)>::empty());
    while i < N
        invariant
            i <= N,
            unit@.len() == N,
            xs@.len() == N,
            ps == placements(unit@, xs@, y_values(*y)),
            pixel_rows(*base) == paint(
                start,
                ps.subrange(0, i as int),
                pixel_rows(*on_segment),
                pixel_rows(*off_segment),
            ),
        decreases N - i,
    {
        let x = xs.index(i);
        let yy = y.index(i);
        if unit[i] {
            overlay_at(base, on_segment, x, yy);
        } else {
            overlay_at(base, off_segment, x, yy);
        }
        assert(ps.subrange(0, i as int + 1).drop_last() =~= ps.subrange(0, i as int));
        i = i + 1;
    }
    assert(ps.subrange(0, N as int) =~= ps);
}

/// Draws one moment on `canvas`: the minute row, then the hour row in the
/// layout of `time_convention`.
pub fn draw_composite(
    canvas: &mut Raster,
    on_segment_hour: &Raster,
    on_segment_minute: &Raster,
    off_segment: &Raster,
    hour_x: &Hour,
    hour_y: &YAxis<Hour>,
    minute_x: &Minute,
    minute_y: &YAxis<Minute>,
    time_convention: TimeConvention,
    hour: u8,
    minute: u8,
)
    ensures
        pixel_rows(*final(canvas)) == composite(
            pixel_rows(*old(canvas)),
            pixel_rows(*on_segment_hour),
            pixel_rows(*on_segment_minute),
            pixel_rows(*off_segment),
            *hour_x,
            *hour_y,
            *minute_x,
            *minute_y,
            time_convention,
            hour,
            minute,
        ),
{
    let unit = format_time::<6>(minute);
    draw_unit(canvas, unit, on_segment_minute, off_segment, minute_x, minute_y);
    match time_convention {
        TimeConvention::International => {
            let unit = format_time::<5>(hour);
            draw_unit(canvas, unit, on_segment_hour, off_segment, hour_x, hour_y);
        },
        TimeConvention::Imperial => {
            let am_pm_x = hour_x.single(4);
            let am_pm_y = hour_y.single(4);
            let short_x = hour_x.resize::<4>();
            let short_y = hour_y.resize::<4>();
            assert(y_values(short_y) =~= y_values(*hour_y).subrange(0, 4));
            assert(y_values(am_pm_y) =~= seq![y_values(*hour_y)[4]]);
            let unit = format_time::<4>(hour % 12);
            draw_unit(canvas, unit, on_segment_hour, off_segment, &short_x, &short_y);
            let unit = [hour > 12];
            assert(unit@ =~= seq![hour > 12]);
            draw_unit(canvas, unit, on_segment_hour, off_segment, &am_pm_x, &am_pm_y);
        },
    }
}

/// The three tiles of a configuration: "on" for hours, "on" for minutes,
/// and "off".
fn make_tiles(args: &Config) -> (r: (Raster, Raster, Raster))
    requires
        tile_size_ok(args.size),
    ensures
        pixel_rows(r.0) == on_hour_tile(*args),
        pixel_rows(r.1) == on_minute_tile(*args),
        pixel_rows(r.2) == off_tile(*args),
{
    let off_segment = segment(args.size, args.off_color.rgba());
    let on_segment_hour = segment(args.size, args.on_color.rgba());
    let on_segment_minute = match args.minute_color {
        Some(color) => segment(args.size, color.rgba()),
        None => copy_image(&on_segment_hour),
    };
    (on_segment_hour, on_segment_minute, off_segment)
}

/// Draws one moment on a copy of `base`.
pub fn draw_moment(base: &Raster, args: &Config, hour: u8, minute: u8) -> (r: Raster)
    requires
        tile_size_ok(args.size),
    ensures
        pixel_rows(r) == moment_pixels(pixel_rows(*base), *args, hour, minute),
{
    let (on_segment_hour, on_segment_minute, off_segment) = make_tiles(args);
    let mut canvas = copy_image(base);
    draw_composite(
        &mut canvas,
        &on_segment_hour,
        &on_segment_minute,
        &off_segment,
        &args.hour_x,
        &args.hour_y,
        &args.minute_x,
        &args.minute_y,
        args.time,
        hour,
        minute,
    );
    canvas
}

/// A sequence of frames, one per moment, drawn on demand with tiles made
/// once.
pub struct Frames {
    base: Raster,
    on_segment_hour: Raster,
    on_segment_minute: Raster,
    off_segment: Raster,
    hour_x: Hour,
    hour_y: YAxis<Hour>,
    minute_x: Minute,
    minute_y: YAxis<Minute>,
    time: TimeConvention,
    moments: Vec<(u8, u8)>,
    next: usize,
    settings: Ghost<Config>,
}

impl Frames {
    /// The pixels of the image each frame starts from.
    pub closed spec fn base_pixels(&self) -> Pixels {
        pixel_rows(self.base)
    }

    /// The configuration the frames are drawn with.
    pub closed spec fn settings(&self) -> Config {
        self.settings@
    }

    /// The moments whose frames are still to come.
    pub closed spec fn remaining(&self) -> Seq<(u8, u8)> {
        self.moments@.subrange(self.next as int, self.moments@.len() as int)
    }

    /// The tiles and positions held are those of the configuration.
    pub closed spec fn wf(&self) -> bool {
        &&& self.next <= self.moments@.len()
        &&& pixel_rows(self.on_segment_hour) == on_hour_tile(self.settings@)
        &&& pixel_rows(self.on_segment_minute) == on_minute_tile(self.settings@)
        &&& pixel_rows(self.off_segment) == off_tile(self.settings@)
        &&& self.hour_x == self.settings@.hour_x
        &&& self.hour_y == self.settings@.hour_y
        &&& self.minute_x == self.settings@.minute_x
        &&& self.minute_y == self.settings@.minute_y
        &&& self.time == self.settings@.time
    }

    /// Draws the frame of the next moment, if one is left.
    pub fn next_frame(&mut self) -> (r: Option<Raster>)
        requires
            old(self).wf(),
        ensures
            yields(*old(self), *final(self), r),
    {
        if self.next >= self.moments.len() {
            return None;
        }
        let (hour, minute) = self.moments[self.next];
        let mut canvas = copy_image(&self.base);
        draw_composite(
            &mut canvas,
            &self.on_segment_hour,
            &self.on_segment_minute,
            &self.off_segment,
            &self.hour_x,
            &self.hour_y,
            &self.minute_x,
            &self.minute_y,
            self.time,
            hour,
            minute,
        );
        self.next = self.next + 1;
        assert(self.remaining() =~= old(self).remaining().drop_first());
        Some(canvas)
    }
}

/// What one step of a frame sequence does: with no moment left it yields
/// nothing and stays as it is; otherwise it yields the frame of the first
/// moment left and moves past it.
pub open spec fn yields(before: Frames, after: Frames, r: Option<Raster>) -> bool {
    &&& after.wf()
    &&& after.base_pixels() == before.base_pixels()
    &&& after.settings() == before.settings()
    &&& before.remaining().len() == 0 ==> r is None && after.remaining() == before.remaining()
    &&& before.remaining().len() > 0 ==> (r matches Some(img) && pixel_rows(img) == moment_pixels(
        before.base_pixels(),
        before.settings(),
        before.remaining()[0].0,
        before.remaining()[0].1,
    ) && after.remaining() == before.remaining().drop_first())
}

/// Makes the tiles once and returns the frames of `moments`, in order, over
/// `base`.
pub fn draw_moments(base: &Raster, args: &Config, moments: Vec<(u8, u8)>) -> (r: Frames)
    requires
        tile_size_ok(args.size),
    ensures
        r.wf(),
        r.base_pixels() == pixel_rows(*base),
        r.settings() == *args,
        r.remaining() == moments@,
{
    let (on_segment_hour, on_segment_minute, off_segment) = make_tiles(args);
    let r = Frames {
        base: copy_image(base),
        on_segment_hour,
        on_segment_minute,
        off_segment,
        hour_x: args.hour_x,
        hour_y: args.hour_y,
        minute_x: args.minute_x,
        minute_y: args.minute_y,
        time: args.time,
        moments,
        next: 0,
        settings: Ghost(*args),
    };
    assert(r.remaining() =~= r.moments@);
    r
}

/// A frame that a sequence yields for a moment is pixel for pixel the image
/// that `draw_moment` draws for that moment from the same base and
/// configuration.
pub proof fn lemma_frame_matches_moment(
    base: Raster,
    args: Config,
    hour: u8,
    minute: u8,
    single: Raster,
    before: Frames,
    after: Frames,
    frame: Raster,
)
    requires
        pixel_rows(single) == moment_pixels(pixel_rows(base), args, hour, minute),
        before.base_pixels() == pixel_rows(base),
        before.settings() == args,
        before.remaining().len() > 0,
        before.remaining()[0] == (hour, minute),
        yields(before, after, Some(frame)),
    ensures
        pixel_rows(frame) == pixel_rows(single),
{
}

/// Under an all-off unit only the "off" tile is pasted, and under an all-on
/// unit only the "on" tile: the other tile makes no difference. Each bit is
/// placed at the x of its own slot and the y of its own slot, which is the
/// same y for every slot when the y-axis is shared.
pub proof fn lemma_unit_tiles<const N: usize>(
    canvas: Pixels,
    unit: Seq<bool>,
    xs: Positions<N>,
    y: YAxis<Positions<N>>,
    on: Pixels,
    off: Pixels,
    other: Pixels,
)
    requires
        unit.len() == N,
    ensures
        (forall|i: int| 0 <= i < N ==> !#[trigger] unit[i]) ==> paint(
            canvas,
            placements(unit, xs@, y_values(y)),
            on,
            off,
        ) == paint(canvas, placements(unit, xs@, y_values(y)), other, off),
        (forall|i: int| 0 <= i < N ==> #[trigger] unit[i]) ==> paint(
            canvas,
            placements(unit, xs@, y_values(y)),
            on,
            off,
        ) == paint(canvas, placements(unit, xs@, y_values(y)), on, other),
        forall|i: int|
            0 <= i < N ==> #[trigger] placements(unit, xs@, y_values(y))[i] == (
                unit[i],
                xs@[i] as int,
                y.value_at(i) as int,
            ),
        y matches YAxis::Singular(v) ==> forall|i: int|
            0 <= i < N ==> (#[trigger] placements(unit, xs@, y_values(y))[i]).2 == v as int,
{
    let ps = placements(unit, xs@, y_values(y));
    if forall|i: int| 0 <= i < N ==> !#[trigger] unit[i] {
        lemma_paint_one_tile(canvas, ps, on, off, other, false);
    }
    if forall|i: int| 0 <= i < N ==> #[trigger] unit[i] {
        lemma_paint_one_tile(canvas, ps, on, off, other, true);
    }
}

/// When every placement has the same state, only that state's tile counts.
proof fn lemma_paint_one_tile(
    canvas: Pixels,
    ps: Seq<(bool, int, int)>,
    on: Pixels,
    off: Pixels,
    other: Pixels,
    state: bool,
)
    requires
        forall|i: int| 0 <= i < ps.len() ==> (#[trigger] ps[i]).0 == state,
    ensures
        !state ==> paint(canvas, ps, on, off) == paint(canvas, ps, other, off),
        state ==> paint(canvas, ps, on, off) == paint(canvas, ps, on, other),
    decreases ps.len(),
{
    if ps.len() > 0 {
        lemma_paint_one_tile(canvas, ps.drop_last(), on, off, other, state);
    }
}

} // verus!
