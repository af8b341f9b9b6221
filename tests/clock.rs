use binary_clock_wallpaper::color::Color;
use binary_clock_wallpaper::config::{from_use_12_flag, overwrite, Config};
use binary_clock_wallpaper::position::{Hour, Minute, PositionParseError, Positions, YAxis};
use binary_clock_wallpaper::raster::Raster;
use binary_clock_wallpaper::time_convention::TimeConvention;
use binary_clock_wallpaper::{
    draw_composite, draw_moment, draw_moments, draw_unit, format_time, moments, segment,
};
use image::RgbaImage;
use std::path::PathBuf;

const ON: [u8; 4] = [255, 37, 54, 255];
const ON_MINUTE: [u8; 4] = [10, 200, 30, 255];
const OFF: [u8; 4] = [128, 118, 117, 255];
const BLANK: [u8; 4] = [0, 0, 0, 0];

fn decode(unit: &[bool]) -> u32 {
    unit.iter().fold(0, |acc, &b| acc * 2 + b as u32)
}

fn blank(w: u32, h: u32) -> Raster {
    Raster { image: RgbaImage::new(w, h) }
}

fn px(r: &Raster, x: u32, y: u32) -> [u8; 4] {
    r.image.get_pixel(x, y).0
}

fn config(time: TimeConvention, minute_color: Option<Color>) -> Config {
    Config {
        config: None,
        output: PathBuf::from("img"),
        base: PathBuf::from("base.png"),
        hour_x: Positions([0, 2, 4, 6, 8]),
        hour_y: YAxis::Singular(0),
        time,
        minute_x: Positions([0, 2, 4, 6, 8, 10]),
        minute_y: YAxis::Variable(Positions([2, 2, 2, 2, 2, 3])),
        off_color: Color([128, 118, 117]),
        on_color: Color([255, 37, 54]),
        minute_color,
        size: 1,
    }
}

fn row(r: &Raster, xs: &[u32], ys: &[u32]) -> Vec<bool> {
    xs.iter()
        .zip(ys.iter())
        .map(|(&x, &y)| {
            let p = px(r, x, y);
            assert!(p != BLANK, "slot at ({x}, {y}) was not drawn");
            p != OFF
        })
        .collect()
}

#[test]
fn format_time_decodes_to_time_mod_width() {
    for time in 0..=255u8 {
        assert_eq!(decode(&format_time::<1>(time)), time as u32 % 2);
        assert_eq!(decode(&format_time::<4>(time)), time as u32 % 16);
        assert_eq!(decode(&format_time::<5>(time)), time as u32 % 32);
        assert_eq!(decode(&format_time::<6>(time)), time as u32 % 64);
    }
}

#[test]
fn format_time_exact_units() {
    assert_eq!(format_time::<6>(59), [true, true, true, false, true, true]);
    assert_eq!(format_time::<5>(23), [true, false, true, true, true]);
    assert_eq!(format_time::<4>(1), [false, false, false, true]);
    assert_eq!(format_time::<4>(0), [false; 4]);
    assert_eq!(format_time::<3>(5), [true, false, true]);
    assert_eq!(format_time::<10>(255), [false, false, true, true, true, true, true, true, true, true]);
}

#[test]
fn resize_keeps_prefix_in_order() {
    let p: Hour = Positions([10, 20, 30, 40, 50]);
    let r = p.resize::<4>();
    assert_eq!(r.0, [10, 20, 30, 40]);
    assert_eq!(p.resize::<5>().0, p.0);
    assert_eq!(p.resize::<0>().0, [0i64; 0]);
    assert_eq!(p.single(4).0, [50]);
    assert_eq!(p.single(0).0, [10]);
    assert_eq!(p.iter(), &[10, 20, 30, 40, 50]);
    assert_eq!(p.index(2), 30);
}

#[test]
fn yaxis_resize_and_single() {
    let v: YAxis<Hour> = YAxis::Variable(Positions([1, 2, 3, 4, 5]));
    match v.resize::<4>() {
        YAxis::Variable(p) => assert_eq!(p.0, [1, 2, 3, 4]),
        YAxis::Singular(_) => panic!("expected a variable axis"),
    }
    match v.single(4) {
        YAxis::Variable(p) => assert_eq!(p.0, [5]),
        YAxis::Singular(_) => panic!("expected a variable axis"),
    }
    let s: YAxis<Hour> = YAxis::Singular(9);
    assert!(matches!(s.resize::<4>(), YAxis::Singular(9)));
    assert!(matches!(s.single(3), YAxis::Singular(9)));
    assert_eq!(s.index(3), 9);
    assert_eq!(v.index(3), 4);
}

#[test]
fn moments_cover_the_day_in_order() {
    let m = moments();
    assert_eq!(m.len(), 1440);
    assert_eq!(m[0], (0, 0));
    assert_eq!(m[59], (0, 59));
    assert_eq!(m[60], (1, 0));
    assert_eq!(m[1439], (23, 59));
    for w in m.windows(2) {
        assert!(w[0] < w[1]);
    }
    assert!(m.iter().all(|&(h, mi)| h < 24 && mi < 60));
}

#[test]
fn positions_parse() {
    let p: Minute = "1, 2,3 ,4,5,-6".parse().unwrap();
    assert_eq!(p.0, [1, 2, 3, 4, 5, -6]);
    let h = Positions::<5>::from_text("+7,8,9,10,11").unwrap();
    assert_eq!(h.0, [7, 8, 9, 10, 11]);
}

#[test]
fn positions_parse_wrong_amount() {
    assert!(matches!(
        Positions::<5>::from_text("1,2"),
        Err(PositionParseError::AmountError(2))
    ));
    assert!(matches!(
        Positions::<5>::from_text("1,2,3,4,5,6"),
        Err(PositionParseError::AmountError(6))
    ));
}

#[test]
fn positions_parse_bad_integer() {
    assert!(matches!(
        Positions::<5>::from_text("1,x,3,4,5"),
        Err(PositionParseError::ParseIntError(_))
    ));
    assert!(matches!(
        Positions::<2>::from_text("1,"),
        Err(PositionParseError::ParseIntError(_))
    ));
    assert!(matches!(
        Positions::<1>::from_text("99999999999999999999"),
        Err(PositionParseError::ParseIntError(_))
    ));
}

#[test]
fn yaxis_parse() {
    let s: YAxis<Hour> = "42".parse().unwrap();
    assert!(matches!(s, YAxis::Singular(42)));
    let v: YAxis<Hour> = "1,2,3,4,5".parse().unwrap();
    match v {
        YAxis::Variable(p) => assert_eq!(p.0, [1, 2, 3, 4, 5]),
        YAxis::Singular(_) => panic!("expected a variable axis"),
    }
    assert!(matches!(
        YAxis::<Hour>::from_text("1,2"),
        Err(PositionParseError::AmountError(2))
    ));
    assert!(matches!(
        YAxis::<Hour>::from_text(" 4"),
        Err(PositionParseError::ParseIntError(_))
    ));
}

#[test]
fn color_parse() {
    let c = Color::from_hex_text("#ff2536").unwrap();
    assert_eq!(c.rgb(), [0xff, 0x25, 0x36]);
    assert_eq!(c.rgba(), [0xff, 0x25, 0x36, 255]);
    let c: Color = "807675".parse().unwrap();
    assert_eq!(c.0, [0x80, 0x76, 0x75]);
    assert_eq!(Color::from_hex_text("##AbCdEf").unwrap().0, [0xab, 0xcd, 0xef]);
    assert!(Color::from_hex_text("#ff25").is_err());
    assert!(Color::from_hex_text("gg2536").is_err());
}

#[test]
fn use_12_flag() {
    assert_eq!(from_use_12_flag(true), TimeConvention::Imperial);
    assert_eq!(from_use_12_flag(false), TimeConvention::International);
    assert_eq!(TimeConvention::from_use_12_flag(true), TimeConvention::Imperial);
}

#[test]
fn overwrite_replaces() {
    let mut a = 3u32;
    overwrite(&mut a, 7);
    assert_eq!(a, 7);
}

#[test]
fn segment_is_solid() {
    let s = segment(3, ON);
    assert_eq!(s.image.dimensions(), (3, 3));
    assert!(s.image.pixels().all(|p| p.0 == ON));
    assert_eq!(segment(0, ON).image.dimensions(), (0, 0));
}

#[test]
fn draw_unit_all_off_and_all_on() {
    let on = segment(1, ON);
    let off = segment(1, OFF);
    let xs: Positions<4> = Positions([1, 3, 5, 7]);
    let y: YAxis<Positions<4>> = YAxis::Singular(1);
    let mut c = blank(10, 3);
    draw_unit(&mut c, [false; 4], &on, &off, &xs, &y);
    for x in [1, 3, 5, 7] {
        assert_eq!(px(&c, x, 1), OFF);
    }
    assert_eq!(px(&c, 2, 1), BLANK);
    assert_eq!(px(&c, 1, 0), BLANK);
    let mut c = blank(10, 3);
    draw_unit(&mut c, [true; 4], &on, &off, &xs, &y);
    for x in [1, 3, 5, 7] {
        assert_eq!(px(&c, x, 1), ON);
    }
}

#[test]
fn draw_unit_matches_by_index() {
    let on = segment(1, ON);
    let off = segment(1, OFF);
    let xs: Positions<3> = Positions([4, 0, 2]);
    let y: YAxis<Positions<3>> = YAxis::Variable(Positions([0, 1, 2]));
    let mut c = blank(5, 3);
    draw_unit(&mut c, [true, false, true], &on, &off, &xs, &y);
    assert_eq!(px(&c, 4, 0), ON);
    assert_eq!(px(&c, 0, 1), OFF);
    assert_eq!(px(&c, 2, 2), ON);
    assert_eq!(px(&c, 0, 0), BLANK);
}

#[test]
fn international_23_59() {
    let args = config(TimeConvention::International, None);
    let f = draw_moment(&blank(12, 4), &args, 23, 59);
    assert_eq!(row(&f, &[0, 2, 4, 6, 8, 10], &[2, 2, 2, 2, 2, 3]), [true, true, true, false, true, true]);
    assert_eq!(row(&f, &[0, 2, 4, 6, 8], &[0; 5]), [true, false, true, true, true]);
}

#[test]
fn imperial_13_is_pm_one() {
    let args = config(TimeConvention::Imperial, None);
    let f = draw_moment(&blank(12, 4), &args, 13, 0);
    assert_eq!(row(&f, &[0, 2, 4, 6], &[0; 4]), [false, false, false, true]);
    assert_eq!(px(&f, 8, 0), ON);
    assert_eq!(row(&f, &[0, 2, 4, 6, 8, 10], &[2, 2, 2, 2, 2, 3]), [false; 6]);
}

#[test]
fn imperial_noon_is_not_pm() {
    let args = config(TimeConvention::Imperial, None);
    let f = draw_moment(&blank(12, 4), &args, 12, 30);
    assert_eq!(row(&f, &[0, 2, 4, 6], &[0; 4]), [false; 4]);
    assert_eq!(px(&f, 8, 0), OFF);
    assert_eq!(row(&f, &[0, 2, 4, 6, 8, 10], &[2, 2, 2, 2, 2, 3]), [false, true, true, true, true, false]);
}

#[test]
fn minute_color_is_used_for_minutes_only() {
    let args = config(TimeConvention::International, Some(Color([10, 200, 30])));
    let f = draw_moment(&blank(12, 4), &args, 1, 1);
    assert_eq!(px(&f, 10, 3), ON_MINUTE);
    assert_eq!(px(&f, 8, 0), ON);
}

#[test]
fn draw_composite_imperial_variable_y() {
    let on = segment(1, ON);
    let off = segment(1, OFF);
    let hour_x: Hour = Positions([0, 1, 2, 3, 4]);
    let hour_y: YAxis<Hour> = YAxis::Variable(Positions([0, 0, 0, 0, 1]));
    let minute_x: Minute = Positions([0, 1, 2, 3, 4, 5]);
    let minute_y: YAxis<Minute> = YAxis::Singular(2);
    let mut c = blank(6, 3);
    draw_composite(
        &mut c, &on, &on, &off, &hour_x, &hour_y, &minute_x, &minute_y,
        TimeConvention::Imperial, 23, 5,
    );
    // 23 % 12 = 11 = 1011, and 23 > 12
    assert_eq!(row(&c, &[0, 1, 2, 3], &[0; 4]), [true, false, true, true]);
    assert_eq!(px(&c, 4, 1), ON);
    assert_eq!(px(&c, 4, 0), BLANK);
    assert_eq!(row(&c, &[0, 1, 2, 3, 4, 5], &[2; 6]), [false, false, false, true, false, true]);
}

#[test]
fn frames_match_draw_moment() {
    let mut base = blank(12, 4);
    base.image.put_pixel(11, 0, image::Rgba([1, 2, 3, 4]));
    for time in [TimeConvention::International, TimeConvention::Imperial] {
        let args = config(time, Some(Color([10, 200, 30])));
        let mut frames = draw_moments(&base, &args, vec![(13, 42), (0, 0)]);
        let first = frames.next_frame().unwrap();
        assert_eq!(first.image, draw_moment(&base, &args, 13, 42).image);
        let second = frames.next_frame().unwrap();
        assert_eq!(second.image, draw_moment(&base, &args, 0, 0).image);
        assert!(frames.next_frame().is_none());
        assert!(frames.next_frame().is_none());
    }
}

#[test]
fn frames_over_the_whole_day() {
    let args = config(TimeConvention::International, None);
    let base = blank(12, 4);
    let mut frames = draw_moments(&base, &args, moments());
    let mut n = 0;
    while let Some(f) = frames.next_frame() {
        if n == 61 {
            assert_eq!(f.image, draw_moment(&base, &args, 1, 1).image);
        }
        n += 1;
    }
    assert_eq!(n, 1440);
}

#[test]
fn shared_yaxis_ignores_index_and_arity() {
    let s: YAxis<Hour> = YAxis::Singular(9);
    assert_eq!(s.index(100), 9);
    assert!(matches!(s.resize::<7>(), YAxis::Singular(9)));
    assert!(matches!(s.single(10), YAxis::Singular(9)));
}

#[test]
fn positions_parse_trims_unicode_white_space() {
    let p = Positions::<5>::from_text("\u{a0}1,\t2\u{3000}, 3\n,4 ,\u{2003}5").unwrap();
    assert_eq!(p.0, [1, 2, 3, 4, 5]);
}

#[test]
fn one_moment_sequence_matches_draw_moment() {
    let base = blank(12, 4);
    for time in [TimeConvention::International, TimeConvention::Imperial] {
        let args = config(time, None);
        for (hour, minute) in [(0u8, 0u8), (12, 30), (13, 7), (23, 59)] {
            let mut frames = draw_moments(&base, &args, vec![(hour, minute)]);
            let frame = frames.next_frame().unwrap();
            let single = draw_moment(&base, &args, hour, minute);
            assert_eq!(frame.image.dimensions(), single.image.dimensions());
            assert_eq!(frame.image, single.image);
            assert!(frames.next_frame().is_none());
        }
    }
}
