use progress_bar::{
    determinate_bar, fill_columns, format_elapsed, indeterminate_bar, modulus, segment_width,
    slide_offset, title_suffix, total_of, BarStyle, ProgressStyle, Session, SlideStyle,
};

fn style_with(text: &str) -> BarStyle {
    let mut s = BarStyle::default();
    s.text = text.to_string();
    s
}

#[test]
fn percent_suffix_two_decimals() {
    assert_eq!(title_suffix(ProgressStyle::Percent, 75, Some(150)), "50.00% ");
    assert_eq!(title_suffix(ProgressStyle::Percent, 1, Some(3)), "33.33% ");
    assert_eq!(title_suffix(ProgressStyle::Percent, 2, Some(3)), "66.67% ");
    assert_eq!(title_suffix(ProgressStyle::Percent, 10, Some(10)), "100.00% ");
}

#[test]
fn percent_suffix_zero_total() {
    assert_eq!(title_suffix(ProgressStyle::Percent, 0, Some(0)), "0.00% ");
}

#[test]
fn fraction_suffix_exact() {
    assert_eq!(title_suffix(ProgressStyle::Fraction, 3, Some(7)), "3/7 ");
    assert_eq!(title_suffix(ProgressStyle::Fraction, 0, Some(0)), "0/0 ");
    assert_eq!(title_suffix(ProgressStyle::Fraction, 1234, Some(98765)), "1234/98765 ");
}

#[test]
fn suffix_without_total() {
    assert_eq!(title_suffix(ProgressStyle::Percent, 5, None), "5");
    assert_eq!(title_suffix(ProgressStyle::Fraction, 12, None), "12");
    assert_eq!(title_suffix(ProgressStyle::Bare, 12, None), "");
    assert_eq!(title_suffix(ProgressStyle::Bare, 12, Some(20)), "");
}

#[test]
fn total_from_remaining() {
    assert_eq!(total_of(5, Some(5)), Some(10));
    assert_eq!(total_of(5, None), None);
    assert_eq!(total_of(usize::MAX, Some(1)), None);
}

#[test]
fn elapsed_boundaries() {
    assert_eq!(format_elapsed(0), "0ms");
    assert_eq!(format_elapsed(742), "742ms");
    assert_eq!(format_elapsed(999), "999ms");
    assert_eq!(format_elapsed(1000), "1.00s");
    assert_eq!(format_elapsed(1234), "1.23s");
    assert_eq!(format_elapsed(9999), "10.00s");
    assert_eq!(format_elapsed(10000), "10s");
    assert_eq!(format_elapsed(59999), "60s");
    assert_eq!(format_elapsed(60000), "1m 0s");
    assert_eq!(format_elapsed(3661000), "1h 1m 1s");
    assert_eq!(format_elapsed(86400000), "1.00d 0h 0m 0s");
    assert_eq!(format_elapsed(90061000), "1.04d 1h 1m 1s");
}

#[test]
fn fill_is_monotone() {
    let mut last = 0;
    for p in 0..=10 {
        let f = fill_columns(p, 10, 20);
        assert!(f >= last);
        assert!(f <= 20);
        last = f;
    }
    assert_eq!(fill_columns(5, 10, 20), 10);
    assert_eq!(fill_columns(1, 3, 10), 3);
    assert_eq!(fill_columns(0, 0, 10), 0);
}

#[test]
fn determinate_bar_fill_and_padding() {
    let style = BarStyle::default();
    assert_eq!(determinate_bar(&style, 5, 10, 14, 0), "\u{2588}".repeat(7) + &" ".repeat(7));
    assert_eq!(determinate_bar(&style, 0, 10, 4, 0), "    ");
    assert_eq!(determinate_bar(&style, 10, 10, 4, 0), "\u{2588}".repeat(4));
}

#[test]
fn determinate_bar_texture() {
    let style = style_with("ab");
    assert_eq!(determinate_bar(&style, 5, 5, 5, 0), "ababa");
    let empty = style_with("");
    assert_eq!(determinate_bar(&empty, 2, 2, 2, 0), "\u{2588}\u{2588}");
}

#[test]
fn wide_glyphs_use_fewer_glyphs() {
    let style = style_with("\u{65e5}");
    assert_eq!(determinate_bar(&style, 1, 1, 10, 0), "\u{65e5}".repeat(5));
}

#[test]
fn rotation_is_periodic() {
    let mut style = style_with("abc");
    style.rotation_speed = 1000;
    let base = determinate_bar(&style, 4, 4, 4, 500);
    assert_eq!(base, "bcab");
    assert_eq!(determinate_bar(&style, 4, 4, 4, 3500), base);
    assert_eq!(determinate_bar(&style, 4, 4, 4, 1500), "cabc");
    style.rotation_speed = -1000;
    assert_eq!(determinate_bar(&style, 4, 4, 4, 1000), "cabc");
    assert_eq!(determinate_bar(&style, 4, 4, 4, 4000), "cabc");
}

#[test]
fn modulus_is_euclidean() {
    assert_eq!(modulus(7, 3), 1);
    assert_eq!(modulus(-7, 3), 2);
    assert_eq!(modulus(-3, 3), 0);
    assert_eq!(modulus(0, 5), 0);
}

#[test]
fn segment_widths() {
    let style = BarStyle::default();
    assert_eq!(segment_width(&style, 12), 2);
    assert_eq!(segment_width(&style, 0), 0);
    assert_eq!(segment_width(&style, 3), 1);
    let mut wide = BarStyle::default();
    wide.slide_ratio = 5000;
    assert_eq!(segment_width(&wide, 9), 9);
}

#[test]
fn smooth_offset_stays_in_track() {
    let mut style = BarStyle::default();
    style.slide = SlideStyle::Smooth;
    for width in [1usize, 5, 12, 40, 97] {
        let seg = segment_width(&style, width);
        for ms in (0..20000u64).step_by(37) {
            let off = slide_offset(&style, width, ms);
            assert!(off + seg <= width);
        }
    }
    assert_eq!(slide_offset(&style, 40, 0), 0);
    // 785398 milliradians per second: half a turn after 4 ms.
    style.slide_speed = 785398;
    let seg = segment_width(&style, 40);
    assert_eq!(seg, 7);
    assert_eq!(slide_offset(&style, 40, 4), 33);
    assert_eq!(slide_offset(&style, 40, 8), 0);
}

#[test]
fn linear_offset_is_triangular() {
    let mut style = BarStyle::default();
    style.slide = SlideStyle::Linear;
    style.slide_ratio = 0;
    style.slide_speed = 785398;
    assert_eq!(slide_offset(&style, 101, 0), 0);
    assert_eq!(slide_offset(&style, 101, 1), 50);
    assert_eq!(slide_offset(&style, 101, 2), 100);
    assert_eq!(slide_offset(&style, 101, 4), 0);
}

#[test]
fn wrapping_offset_restarts() {
    let mut style = BarStyle::default();
    style.slide_ratio = 0;
    assert_eq!(slide_offset(&style, 100, 0), 0);
    assert_eq!(slide_offset(&style, 100, 1571), 50);
    assert_eq!(slide_offset(&style, 100, 3142), 0);
    for ms in (0..10000u64).step_by(13) {
        assert!(slide_offset(&style, 100, ms) < 100);
    }
}

#[test]
fn indeterminate_bar_at_start() {
    let style = BarStyle::default();
    assert_eq!(indeterminate_bar(&style, 12, 0), "\u{2588}\u{2588}".to_string() + &" ".repeat(10));
    assert_eq!(indeterminate_bar(&style, 0, 0), "");
}

#[test]
fn indeterminate_bar_wraps_at_right_end() {
    let mut style = style_with("#");
    style.slide_ratio = 250;
    // Wrapping: offset = frac(theta / (pi * 0.75)) * width; ms chosen so the
    // offset reaches 7 of 8 columns and the two-column segment wraps round.
    let ms = 2062;
    assert_eq!(slide_offset(&style, 8, ms), 7);
    assert_eq!(indeterminate_bar(&style, 8, ms), "#      #");
}

#[test]
fn end_to_end_fraction_line() {
    let mut s = Session::new().text_style(ProgressStyle::Fraction);
    let mut lines = Vec::new();
    for i in 0..10usize {
        s.pull(true);
        lines.push(s.render(Some(10 - (i + 1)), 20, 0));
    }
    let fifth = &lines[4];
    assert!(fifth.contains("5/10 "));
    assert_eq!(fifth, &("\r5/10  ".to_string() + &"\u{2588}".repeat(7) + &" ".repeat(7)));
}

#[test]
fn line_respects_max_width() {
    let s = Session::new().text_style(ProgressStyle::Fraction).max_width(5);
    let line = s.render(Some(4), 80, 0);
    assert_eq!(line, "\r0/4".to_string() + &" ".repeat(7));
    let mut t = Session::new().title("copy".to_string()).max_width(5);
    t.pull(true);
    let line = t.render(Some(1), 80, 0);
    assert_eq!(line, "\rcopy 50.00%  \u{2588}\u{2588}\u{2588}  ");
}

#[test]
fn line_fits_terminal() {
    let mut s = Session::new().title("work".to_string()).with_elapsed();
    s.pull(true);
    // The title line "work 1 | 12s " takes 13 columns.
    for term in [16usize, 20, 40, 80] {
        let line = s.render(None, term, 12345);
        assert!(line.starts_with("\rwork 1 | 12s "));
        assert_eq!(line.chars().count() - 1, term);
    }
    let narrow = s.render(None, 5, 12345);
    assert_eq!(narrow, "\rwork 1 | 12s ");
    let known = s.render(Some(3), 30, 12345).chars().count() - 1;
    assert_eq!(known, 30);
}

#[test]
fn title_width_counts_wide_characters() {
    let s = Session::new().title("\u{65e5}\u{672c}".to_string()).text_style(ProgressStyle::Bare);
    let line = s.render(Some(0), 20, 0);
    // "日本" takes 4 columns, then two spaces: 14 columns remain for the bar.
    assert_eq!(line, "\r\u{65e5}\u{672c}  ".to_string() + &" ".repeat(14));
}

#[test]
fn elapsed_shown_after_first_pull() {
    let mut s = Session::new().text_style(ProgressStyle::Bare).with_elapsed().max_width(0);
    assert_eq!(s.render(None, 40, 5000), "\r | 0ms ");
    s.pull(false);
    assert_eq!(s.render(None, 40, 5000), "\r | 5.00s ");
}

#[test]
fn bar_ends_are_drawn() {
    let mut style = BarStyle::default();
    style.left_end = "[".to_string();
    style.right_end = "]".to_string();
    let s = Session::new().text_style(ProgressStyle::Bare).bar_style(style);
    assert_eq!(s.render(Some(0), 6, 0), "\r [   ]");
}

#[test]
fn end_clears_once() {
    let mut s = Session::new();
    for _ in 0..10 {
        s.pull(true);
    }
    assert_eq!(s.end(4), Some("\r    \r".to_string()));
    assert_eq!(s.end(4), None);
}

#[test]
fn end_clears_after_exhaustion() {
    let mut s = Session::new();
    s.pull(true);
    s.pull(false);
    assert_eq!(s.end(3), Some("\r   \r".to_string()));
}

#[test]
fn no_clear_on_end_keeps_line() {
    let mut s = Session::new().no_clear_on_end();
    s.pull(true);
    assert_eq!(s.end(40), None);
    assert_eq!(s.end(40), None);
}

#[test]
fn pull_counts_items() {
    let mut s = Session::new();
    assert!(!s.started);
    s.pull(true);
    s.pull(true);
    s.pull(false);
    assert_eq!(s.progress, 2);
    assert!(s.started);
}

#[test]
fn defaults() {
    assert_eq!(ProgressStyle::default(), ProgressStyle::Percent);
    assert_eq!(SlideStyle::default(), SlideStyle::Wrapping);
    let b = BarStyle::default();
    assert_eq!(b.text, "\u{2588}");
    assert_eq!(b.slide_speed, 1000);
    assert_eq!(b.rotation_speed, 0);
    assert_eq!(b.slide_ratio, 167);
}
