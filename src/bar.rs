//! The bar body: determinate fill and the sliding segment of an indeterminate bar.
use vstd::prelude::*;
use crate::arith::{floor_div, modulus, round_div, round_div_exec, lemma_round_div_fraction_bound, lemma_round_div_monotone, lemma_round_div_shift};
use crate::style::{BarStyle, SlideStyle, default_glyphs};
use crate::text::{char_width, char_width_of, push_spaces, push_str, spaces, string_of};

verus! {

/// The glyph sequence that paints the bar: the style's text, or a full block when that is empty.
pub open spec fn glyphs(style: BarStyle) -> Seq<char> {
    if style.text@.len() == 0 {
        default_glyphs()
    } else {
        style.text@
    }
}

/// Columns a glyph takes: its display width, 1 where it has none; never less than 1.
pub open spec fn glyph_columns(c: char) -> nat {
    match char_width_of(c) {
        Some(w) => if w == 0 { 1 } else { w as nat },
        None => 1,
    }
}

/// Total columns of a glyph sequence.
pub open spec fn columns_of(g: Seq<char>) -> nat
    decreases g.len(),
{
    if g.len() == 0 {
        0
    } else {
        columns_of(g.drop_last()) + glyph_columns(g.last())
    }
}

/// How many glyphs fill `n` columns, at the sequence's average glyph width.
pub open spec fn span_glyphs(n: nat, g: Seq<char>) -> nat {
    round_div((g.len() * n) as int, columns_of(g) as int) as nat
}

/// `n` glyphs walked cyclically from position `start` of `g`.
pub open spec fn paint(g: Seq<char>, n: nat, start: int) -> Seq<char> {
    Seq::new(n, |i: int| g[(i + start) % (g.len() as int)])
}

/// Glyph steps the texture has turned after `ms` milliseconds at `speed`
/// thousandths of a step per second.
pub open spec fn rotation(ms: nat, speed: int) -> int {
    round_div(ms * speed, 1_000_000)
}

/// Columns filled for `progress` out of `total` on a bar `width` columns wide.
pub open spec fn fill_columns_of(progress: nat, total: nat, width: nat) -> nat {
    round_div((progress * width) as int, if total == 0 { 1 } else { total as int }) as nat
}

/// The body of a bar whose total is known.
pub open spec fn determinate_body(style: BarStyle, progress: nat, total: nat, width: nat, ms: nat) -> Seq<char> {
    let g = glyphs(style);
    let f = fill_columns_of(progress, total, width);
    paint(g, span_glyphs(f, g), rotation(ms, style.rotation_speed as int)) + spaces((width - f) as nat)
}

proof fn lemma_columns_bounds(g: Seq<char>)
    ensures
        g.len() <= columns_of(g),
    decreases g.len(),
{
    if g.len() > 0 {
        lemma_columns_bounds(g.drop_last());
    }
}

/// The glyph sequence of a style, as a vector.
fn glyph_vec(style: &BarStyle) -> (r: Vec<char>)
    ensures
        r@ == glyphs(*style),
        r@.len() > 0,
{
    let mut v: Vec<char> = Vec::new();
    push_str(&mut v, style.text.as_str());
    if v.len() == 0 {
        v.push('\u{2588}');
        assert(v@ =~= default_glyphs());
    }
    v
}

/// Total columns of `g`.
fn columns(g: &Vec<char>) -> (r: u128)
    ensures
        r == columns_of(g@),
        g@.len() <= r <= 3 * g@.len(),
{
    let mut sum: u128 = 0;
    let mut i: usize = 0;
    while i < g.len()
        invariant
            i <= g@.len(),
            sum == columns_of(g@.subrange(0, i as int)),
            sum <= 3 * i,
            i <= 0xffff_ffff_ffff_ffff,
        decreases g@.len() - i,
    {
        let w: u128 = match char_width(g[i]) {
            Some(w) => if w == 0 { 1 } else { w as u128 },
            None => 1,
        };
        assert(g@.subrange(0, i + 1).drop_last() =~= g@.subrange(0, i as int));
        sum = sum + w;
        i = i + 1;
    }
    assert(g@.subrange(0, i as int) =~= g@);
    proof {
        lemma_columns_bounds(g@);
    }
    sum
}

/// Glyph count for `n` columns, never more than `n`.
fn span(n: usize, g: &Vec<char>, cols: u128) -> (r: usize)
    requires
        cols == columns_of(g@),
        cols <= 3 * g@.len(),
        g@.len() > 0,
    ensures
        r == span_glyphs(n as nat, g@),
        r <= n,
{
    let len = g.len();
    proof {
        lemma_columns_bounds(g@);
        lemma_round_div_fraction_bound(g@.len() as int, n as int, cols as int);
        assert(len * n <= 0xffff_ffff_ffff_ffff * 0xffff_ffff_ffff_ffff) by (nonlinear_arith)
            requires
                len <= 0xffff_ffff_ffff_ffff,
                n <= 0xffff_ffff_ffff_ffff,
        ;
    }
    round_div_exec((len as u128) * (n as u128), cols) as usize
}

/// Appends `n` glyphs of `g` walked cyclically from position `start`.
fn push_glyphs(out: &mut Vec<char>, g: &Vec<char>, n: usize, start: i128)
    requires
        g@.len() > 0,
        0 <= start < g@.len(),
    ensures
        final(out)@ == old(out)@ + paint(g@, n as nat, start as int),
{
    let len = g.len();
    let mut idx: usize = start as usize;
    let mut i: usize = 0;
    proof {
        vstd::arithmetic::div_mod::lemma_small_mod(start as nat, len as nat);
    }
    while i < n
        invariant
            len == g@.len(),
            len > 0,
            i <= n,
            idx < len,
            idx as int == (i + start) % (len as int),
            out@ == old(out)@ + paint(g@, i as nat, start as int),
        decreases n - i,
    {
        out.push(g[idx]);
        proof {
            let x = i + start;
            let l = len as int;
            vstd::arithmetic::div_mod::lemma_fundamental_div_mod(x, l);
            assert(x + 1 == (x / l) * l + idx + 1) by (nonlinear_arith)
                requires
                    x == l * (x / l) + x % l,
                    idx == x % l,
            ;
            assert((x / l) * l + l == (x / l + 1) * l) by (nonlinear_arith);
            if idx + 1 == len {
                vstd::arithmetic::div_mod::lemma_fundamental_div_mod_converse(x + 1, len as int, x / (len as int) + 1, 0);
            } else {
                vstd::arithmetic::div_mod::lemma_fundamental_div_mod_converse(x + 1, len as int, x / (len as int), idx + 1);
            }
        }
        idx = if idx + 1 == len { 0 } else { idx + 1 };
        i = i + 1;
        assert(out@ =~= old(out)@ + paint(g@, i as nat, start as int));
    }
}

/// Painting depends on the starting position only modulo the sequence length.
pub proof fn lemma_paint_mod(g: Seq<char>, n: nat, start: int)
    requires
        g.len() > 0,
    ensures
        paint(g, n, start) == paint(g, n, start % (g.len() as int)),
{
    assert forall|i: int| 0 <= i < n implies #[trigger] ((i + start) % (g.len() as int)) == (i + start % (g.len() as int)) % (g.len() as int) by {
        vstd::arithmetic::div_mod::lemma_add_mod_noop_right(i, start, g.len() as int);
    }
    assert(paint(g, n, start) =~= paint(g, n, start % (g.len() as int)));
}

/// The glyph position at which painting starts after `ms` milliseconds, shifted by `shift`.
fn rotation_start(style: &BarStyle, len: usize, ms: u64, shift: usize) -> (r: i128)
    requires
        len > 0,
    ensures
        0 <= r < len,
        r as int == (rotation(ms as nat, style.rotation_speed as int) + shift) % (len as int),
{
    proof {
        assert(-0x8000_0000 * 0x1_0000_0000_0000_0000 <= ms * style.rotation_speed <= 0x8000_0000 * 0x1_0000_0000_0000_0000) by (nonlinear_arith)
            requires
                0 <= ms < 0x1_0000_0000_0000_0000,
                -0x8000_0000 <= style.rotation_speed < 0x8000_0000,
        ;
    }
    let a: i128 = (ms as i128) * (style.rotation_speed as i128);
    let rot = floor_div(a + 500_000, 1_000_000);
    modulus(rot + shift as i128, len as i128)
}

/// Columns filled for `progress` out of `total` on a bar `width` columns wide.
pub fn fill_columns(progress: usize, total: usize, width: usize) -> (r: usize)
    requires
        progress <= total,
    ensures
        r == fill_columns_of(progress as nat, total as nat, width as nat),
        r <= width,
{
    let d: u128 = if total == 0 { 1 } else { total as u128 };
    proof {
        lemma_round_div_fraction_bound(progress as int, width as int, d as int);
        assert(progress * width <= 0xffff_ffff_ffff_ffff * 0xffff_ffff_ffff_ffff) by (nonlinear_arith)
            requires
                progress <= 0xffff_ffff_ffff_ffff,
                width <= 0xffff_ffff_ffff_ffff,
        ;
    }
    round_div_exec((progress as u128) * (width as u128), d) as usize
}

/// The body of a bar whose total is known: the filled columns painted with
/// the rotating texture, then spaces up to `width` columns.
pub fn determinate_bar(style: &BarStyle, progress: usize, total: usize, width: usize, ms: u64) -> (r: String)
    requires
        progress <= total,
    ensures
        r@ == determinate_body(*style, progress as nat, total as nat, width as nat, ms as nat),
{
    let mut out: Vec<char> = Vec::new();
    push_determinate(&mut out, style, progress, total, width, ms);
    assert(out@ =~= determinate_body(*style, progress as nat, total as nat, width as nat, ms as nat));
    string_of(&out)
}

pub(crate) fn push_determinate(out: &mut Vec<char>, style: &BarStyle, progress: usize, total: usize, width: usize, ms: u64)
    requires
        progress <= total,
    ensures
        final(out)@ == old(out)@ + determinate_body(*style, progress as nat, total as nat, width as nat, ms as nat),
{
    let g = glyph_vec(style);
    let cols = columns(&g);
    let f = fill_columns(progress, total, width);
    let n = span(f, &g, cols);
    let start = rotation_start(style, g.len(), ms, 0);
    proof {
        lemma_paint_mod(g@, n as nat, rotation(ms as nat, style.rotation_speed as int));
    }
    push_glyphs(out, &g, n, start);
    push_spaces(out, width - f);
}

/// Half a turn in microradians (pi, rounded to an even number).
pub const HALF_TURN: u128 = 3_141_592;

/// A quarter turn in microradians.
pub const QUARTER_TURN: u128 = 1_570_796;

/// A full turn in microradians.
pub const FULL_TURN: u128 = 6_283_184;

/// The segment's share of the bar in thousandths, at most 1000.
pub open spec fn ratio_of(style: BarStyle) -> nat {
    if style.slide_ratio > 1000 {
        1000
    } else {
        style.slide_ratio as nat
    }
}

/// Width of the sliding segment: the ratio's share of the bar, at least one
/// column and at most the bar.
pub open spec fn segment_columns(width: nat, ratio: nat) -> nat {
    if width == 0 {
        0
    } else {
        let s = round_div((width * ratio) as int, 1000);
        if s < 1 {
            1
        } else if s > width {
            width
        } else {
            s as nat
        }
    }
}

/// Rational approximation of `1000 * cos(z)` for `z` in `[0, QUARTER_TURN]` microradians.
pub open spec fn cos_quarter(z: int) -> int {
    let h = HALF_TURN as int;
    1000 * (h * h - 4 * z * z) / (h * h + z * z)
}

/// Cosine easing in thousandths: `1000 * (1 - cos(theta)) / 2` for an angle in microradians.
pub open spec fn smooth_ease(theta: int) -> int {
    let y = theta % (FULL_TURN as int);
    let z = if y > HALF_TURN { FULL_TURN - y } else { y };
    let c = if z <= QUARTER_TURN {
        cos_quarter(z)
    } else {
        -cos_quarter(HALF_TURN - z)
    };
    (1000 - c) / 2
}

/// Triangle wave in thousandths, rising from 0 to 1000 over a quarter turn
/// and falling back over the next.
pub open spec fn linear_ease(theta: int) -> int {
    let r = theta % (HALF_TURN as int);
    let d = if r <= HALF_TURN - r { r } else { HALF_TURN - r };
    2000 * d / (HALF_TURN as int)
}

/// Column at which the segment starts after `ms` milliseconds on a bar `width` columns wide.
pub open spec fn slide_offset_of(style: BarStyle, width: nat, ms: nat) -> nat {
    let seg = segment_columns(width, ratio_of(style));
    let theta = ms * style.slide_speed;
    match style.slide {
        SlideStyle::Smooth => (smooth_ease(theta) * (width - seg) / 1000) as nat,
        SlideStyle::Linear => (linear_ease(theta) * (width - seg) / 1000) as nat,
        SlideStyle::Wrapping => {
            let d = HALF_TURN * (1000 - ratio_of(style));
            if d == 0 {
                0
            } else {
                ((theta * 1000) % (d as int) * width / (d as int)) as nat
            }
        },
    }
}

/// The body of a bar whose total is unknown: the segment at its offset; the
/// part that runs past the right end is drawn again from the left end.
pub open spec fn indeterminate_body(style: BarStyle, width: nat, ms: nat) -> Seq<char> {
    let g = glyphs(style);
    let seg = segment_columns(width, ratio_of(style));
    let off = slide_offset_of(style, width, ms);
    let vis = if seg <= width - off { seg } else { (width - off) as nat };
    let wrapped = (seg - vis) as nat;
    let rot = rotation(ms, style.rotation_speed as int);
    paint(g, span_glyphs(wrapped, g), rot) + spaces((off - wrapped) as nat) + paint(
        g,
        span_glyphs(vis, g),
        rot + off,
    ) + spaces((width - vis - off) as nat)
}

proof fn lemma_cos_quarter_bounds(z: int)
    requires
        0 <= z <= QUARTER_TURN,
    ensures
        0 <= cos_quarter(z) <= 1000,
{
    let h = HALF_TURN as int;
    let num = h * h - 4 * z * z;
    let den = h * h + z * z;
    assert(0 <= num <= den) by (nonlinear_arith)
        requires
            0 <= z <= 1_570_796,
            h == 3_141_592,
            num == h * h - 4 * z * z,
            den == h * h + z * z,
    ;
    assert(0 <= 1000 * num <= 1000 * den);
    vstd::arithmetic::div_mod::lemma_div_is_ordered(0, 1000 * num, den);
    vstd::arithmetic::div_mod::lemma_div_is_ordered(1000 * num, 1000 * den, den);
    vstd::arithmetic::div_mod::lemma_div_multiples_vanish(1000, den);
    vstd::arithmetic::div_mod::lemma_div_basics(den);
}

fn cos_quarter_exec(z: u128) -> (r: u128)
    requires
        z <= QUARTER_TURN,
    ensures
        r as int == cos_quarter(z as int),
        r <= 1000,
{
    proof {
        lemma_cos_quarter_bounds(z as int);
        assert(4 * z * z <= HALF_TURN * HALF_TURN) by (nonlinear_arith)
            requires
                z <= 1_570_796,
        ;
        assert(z * z <= HALF_TURN * HALF_TURN) by (nonlinear_arith)
            requires
                z <= 1_570_796,
        ;
    }
    let num: u128 = HALF_TURN * HALF_TURN - 4 * z * z;
    let den: u128 = HALF_TURN * HALF_TURN + z * z;
    1000 * num / den
}

fn smooth_ease_exec(theta: i128) -> (r: u128)
    ensures
        r as int == smooth_ease(theta as int),
        r <= 1000,
{
    let y = modulus(theta, FULL_TURN as i128) as u128;
    let z: u128 = if y > HALF_TURN { FULL_TURN - y } else { y };
    if z <= QUARTER_TURN {
        let c = cos_quarter_exec(z);
        (1000 - c) / 2
    } else {
        let c = cos_quarter_exec(HALF_TURN - z);
        (1000 + c) / 2
    }
}

fn linear_ease_exec(theta: i128) -> (r: u128)
    ensures
        r as int == linear_ease(theta as int),
        r <= 1000,
{
    let r = modulus(theta, HALF_TURN as i128) as u128;
    let d: u128 = if r <= HALF_TURN - r { r } else { HALF_TURN - r };
    proof {
        vstd::arithmetic::div_mod::lemma_div_is_ordered(2000 * d as int, 2000 * QUARTER_TURN as int, HALF_TURN as int);
        vstd::arithmetic::div_mod::lemma_div_multiples_vanish(1000, HALF_TURN as int);
        assert(2000 * QUARTER_TURN == 1000 * HALF_TURN);
    }
    2000 * d / HALF_TURN
}

/// Width of the sliding segment of a bar `width` columns wide.
pub fn segment_width(style: &BarStyle, width: usize) -> (r: usize)
    ensures
        r == segment_columns(width as nat, ratio_of(*style)),
        r <= width,
        width > 0 ==> r >= 1,
{
    if width == 0 {
        return 0;
    }
    let ratio: u128 = if style.slide_ratio > 1000 { 1000 } else { style.slide_ratio as u128 };
    proof {
        assert(width * ratio <= 0xffff_ffff_ffff_ffff * 1000) by (nonlinear_arith)
            requires
                width <= 0xffff_ffff_ffff_ffff,
                ratio <= 1000,
        ;
        lemma_round_div_fraction_bound(ratio as int, width as int, 1000);
    }
    let s = round_div_exec((width as u128) * ratio, 1000);
    if s < 1 {
        1
    } else if s > width as u128 {
        width
    } else {
        s as usize
    }
}

fn eased_offset(ease: u128, travel: usize) -> (r: usize)
    requires
        ease <= 1000,
    ensures
        r as int == ease * travel / 1000,
        r <= travel,
{
    proof {
        assert(ease * travel <= 1000 * travel) by (nonlinear_arith)
            requires
                ease <= 1000,
        ;
        vstd::arithmetic::div_mod::lemma_div_is_ordered(ease * travel as int, 1000 * travel as int, 1000);
        vstd::arithmetic::div_mod::lemma_div_multiples_vanish(travel as int, 1000);
        vstd::arithmetic::div_mod::lemma_div_is_ordered(0, ease * travel as int, 1000);
    }
    (ease * (travel as u128) / 1000) as usize
}

fn wrapping_offset(theta: i128, ratio: u128, width: usize) -> (r: usize)
    requires
        ratio <= 1000,
        -0x8000_0000 * 0x1_0000_0000_0000_0000 <= theta <= 0x8000_0000 * 0x1_0000_0000_0000_0000,
    ensures
        HALF_TURN * (1000 - ratio) == 0 ==> r == 0,
        HALF_TURN * (1000 - ratio) != 0 ==> r as int == (theta * 1000) % (HALF_TURN * (1000 - ratio)) * width
            / (HALF_TURN * (1000 - ratio)),
        width == 0 ==> r == 0,
        width > 0 ==> r < width,
{
    let d: u128 = HALF_TURN * (1000 - ratio);
    if d == 0 {
        return 0;
    }
    let p = modulus(theta * 1000, d as i128) as u128;
    let ghost di = d as int;
    let ghost wi = width as int;
    let ghost pi = p as int;
    proof {
        assert(d <= 3_141_592_000);
        assert(pi * wi <= di * wi) by (nonlinear_arith)
            requires
                0 <= pi < di,
                wi >= 0,
        ;
        assert(di * wi <= 3_141_592_000 * 0xffff_ffff_ffff_ffff) by (nonlinear_arith)
            requires
                0 < di <= 3_141_592_000,
                0 <= wi <= 0xffff_ffff_ffff_ffff,
        ;
        vstd::arithmetic::div_mod::lemma_div_is_ordered(0, pi * wi, di);
        if wi > 0 {
            let q = pi * wi / di;
            vstd::arithmetic::div_mod::lemma_fundamental_div_mod(pi * wi, di);
            vstd::arithmetic::div_mod::lemma_mod_bound(pi * wi, di);
            assert(q < wi) by (nonlinear_arith)
                requires
                    pi * wi == di * q + (pi * wi) % di,
                    0 <= (pi * wi) % di,
                    pi < di,
                    wi > 0,
                    di > 0,
            ;
        } else {
            assert(pi * wi == 0) by (nonlinear_arith)
                requires
                    wi == 0,
            ;
            vstd::arithmetic::div_mod::lemma_div_basics(di);
        }
    }
    (p * (width as u128) / d) as usize
}

/// Column at which the sliding segment starts after `ms` milliseconds.
pub fn slide_offset(style: &BarStyle, width: usize, ms: u64) -> (r: usize)
    ensures
        r == slide_offset_of(*style, width as nat, ms as nat),
        width == 0 ==> r == 0,
        width > 0 ==> r < width,
        style.slide != SlideStyle::Wrapping ==> r + segment_columns(width as nat, ratio_of(*style)) <= width,
{
    let seg = segment_width(style, width);
    proof {
        assert(-0x8000_0000 * 0x1_0000_0000_0000_0000 <= ms * style.slide_speed <= 0x8000_0000 * 0x1_0000_0000_0000_0000) by (nonlinear_arith)
            requires
                0 <= ms < 0x1_0000_0000_0000_0000,
                -0x8000_0000 <= style.slide_speed < 0x8000_0000,
        ;
    }
    let theta: i128 = (ms as i128) * (style.slide_speed as i128);
    assert(theta as int == (ms as nat) * style.slide_speed);
    let travel: usize = width - seg;
    match style.slide {
        SlideStyle::Smooth => {
            let ease = smooth_ease_exec(theta);
            let r = eased_offset(ease, travel);
            assert(r == slide_offset_of(*style, width as nat, ms as nat));
            r
        },
        SlideStyle::Linear => {
            let ease = linear_ease_exec(theta);
            let r = eased_offset(ease, travel);
            assert(r == slide_offset_of(*style, width as nat, ms as nat));
            r
        },
        SlideStyle::Wrapping => {
            let ratio: u128 = if style.slide_ratio > 1000 { 1000 } else { style.slide_ratio as u128 };
            wrapping_offset(theta, ratio, width)
        },
    }
}

pub(crate) fn push_indeterminate(out: &mut Vec<char>, style: &BarStyle, width: usize, ms: u64)
    ensures
        final(out)@ == old(out)@ + indeterminate_body(*style, width as nat, ms as nat),
{
    let g = glyph_vec(style);
    let cols = columns(&g);
    let seg = segment_width(style, width);
    let off = slide_offset(style, width, ms);
    let vis: usize = if seg <= width - off { seg } else { width - off };
    let wrapped: usize = seg - vis;
    let ghost rot = rotation(ms as nat, style.rotation_speed as int);
    let n1 = span(wrapped, &g, cols);
    let s1 = rotation_start(style, g.len(), ms, 0);
    let n2 = span(vis, &g, cols);
    let s2 = rotation_start(style, g.len(), ms, off);
    proof {
        lemma_paint_mod(g@, n1 as nat, rot);
        lemma_paint_mod(g@, n2 as nat, rot + off);
    }
    push_glyphs(out, &g, n1, s1);
    push_spaces(out, off - wrapped);
    push_glyphs(out, &g, n2, s2);
    push_spaces(out, width - vis - off);
}

/// The body of a bar whose total is unknown, `width` columns wide, after
/// `ms` milliseconds: the sliding segment, wrapped round at the right end.
pub fn indeterminate_bar(style: &BarStyle, width: usize, ms: u64) -> (r: String)
    ensures
        r@ == indeterminate_body(*style, width as nat, ms as nat),
{
    let mut out: Vec<char> = Vec::new();
    push_indeterminate(&mut out, style, width, ms);
    assert(out@ =~= indeterminate_body(*style, width as nat, ms as nat));
    string_of(&out)
}

/// For a fixed total and bar width, the filled columns and the glyphs that
/// paint them never decrease as progress grows.
pub proof fn lemma_fill_monotone(g: Seq<char>, p1: nat, p2: nat, total: nat, width: nat)
    requires
        p1 <= p2,
    ensures
        fill_columns_of(p1, total, width) <= fill_columns_of(p2, total, width),
        span_glyphs(fill_columns_of(p1, total, width), g) <= span_glyphs(fill_columns_of(p2, total, width), g),
{
    let d: int = if total == 0 { 1 } else { total as int };
    assert(p1 * width <= p2 * width) by (nonlinear_arith)
        requires
            p1 <= p2,
    ;
    lemma_round_div_monotone((p1 * width) as int, (p2 * width) as int, d);
    vstd::arithmetic::div_mod::lemma_div_is_ordered(0, (p1 * width) as int + d / 2, d);
    let f1 = fill_columns_of(p1, total, width);
    let f2 = fill_columns_of(p2, total, width);
    assert(g.len() * f1 <= g.len() * f2) by (nonlinear_arith)
        requires
            f1 <= f2,
    ;
    lemma_columns_bounds(g);
    if g.len() == 0 {
        assert(g.len() * f1 == 0 && g.len() * f2 == 0);
    }
    if columns_of(g) > 0 {
        lemma_round_div_monotone((g.len() * f1) as int, (g.len() * f2) as int, columns_of(g) as int);
        vstd::arithmetic::div_mod::lemma_div_is_ordered(0, (g.len() * f1) as int + columns_of(g) / 2, columns_of(g) as int);
    }
}

/// The texture turns with period `len / speed`: when `delta` milliseconds
/// turn it by exactly its glyph count, a determinate body rendered `delta`
/// milliseconds later is the same text.
pub proof fn lemma_rotation_period(style: BarStyle, progress: nat, total: nat, width: nat, ms: nat, delta: nat)
    requires
        delta * style.rotation_speed == glyphs(style).len() * 1_000_000,
    ensures
        determinate_body(style, progress, total, width, ms + delta) == determinate_body(style, progress, total, width, ms),
{
    let g = glyphs(style);
    let len = g.len() as int;
    let sp = style.rotation_speed as int;
    assert((ms + delta) * sp == ms * sp + len * 1_000_000) by (nonlinear_arith)
        requires
            delta * sp == len * 1_000_000,
    ;
    lemma_round_div_shift(ms * sp, 1_000_000, len);
    let r = rotation(ms, sp);
    assert(rotation(ms + delta, sp) == r + len);
    let n = span_glyphs(fill_columns_of(progress, total, width), g);
    assert forall|i: int| 0 <= i < n implies #[trigger] ((i + (r + len)) % len) == (i + r) % len by {
        vstd::arithmetic::div_mod::lemma_mod_add_multiples_vanish(i + r, len);
        assert(i + (r + len) == len + (i + r));
    }
    assert(paint(g, n, r + len) =~= paint(g, n, r));
}

/// The segment of a smoothly or linearly sliding bar always lies inside the
/// track: its offset is between 0 and the bar width less the segment width.
pub proof fn lemma_eased_offset_in_track(style: BarStyle, width: nat, ms: nat)
    requires
        style.slide == SlideStyle::Smooth || style.slide == SlideStyle::Linear,
    ensures
        slide_offset_of(style, width, ms) + segment_columns(width, ratio_of(style)) <= width,
{
    let seg = segment_columns(width, ratio_of(style));
    let theta = ms * style.slide_speed;
    let travel = width - seg;
    let ease = if style.slide == SlideStyle::Smooth { smooth_ease(theta) } else { linear_ease(theta) };
    if style.slide == SlideStyle::Smooth {
        lemma_smooth_ease_bounds(theta);
    } else {
        lemma_linear_ease_bounds(theta);
    }
    assert(0 <= ease * travel <= 1000 * travel) by (nonlinear_arith)
        requires
            0 <= ease <= 1000,
            travel >= 0,
    ;
    vstd::arithmetic::div_mod::lemma_div_is_ordered(ease * travel, 1000 * travel, 1000);
    vstd::arithmetic::div_mod::lemma_div_multiples_vanish(travel, 1000);
    vstd::arithmetic::div_mod::lemma_div_is_ordered(0, ease * travel, 1000);
}

proof fn lemma_smooth_ease_bounds(theta: int)
    ensures
        0 <= smooth_ease(theta) <= 1000,
{
    let y = theta % (FULL_TURN as int);
    vstd::arithmetic::div_mod::lemma_mod_bound(theta, FULL_TURN as int);
    let z = if y > HALF_TURN { FULL_TURN - y } else { y };
    if z <= QUARTER_TURN {
        lemma_cos_quarter_bounds(z);
    } else {
        lemma_cos_quarter_bounds(HALF_TURN - z);
    }
}

proof fn lemma_linear_ease_bounds(theta: int)
    ensures
        0 <= linear_ease(theta) <= 1000,
{
    let r = theta % (HALF_TURN as int);
    vstd::arithmetic::div_mod::lemma_mod_bound(theta, HALF_TURN as int);
    let d = if r <= HALF_TURN - r { r } else { HALF_TURN - r };
    vstd::arithmetic::div_mod::lemma_div_is_ordered(2000 * d, 2000 * QUARTER_TURN as int, HALF_TURN as int);
    vstd::arithmetic::div_mod::lemma_div_is_ordered(0, 2000 * d, HALF_TURN as int);
    vstd::arithmetic::div_mod::lemma_div_multiples_vanish(1000, HALF_TURN as int);
    assert(2000 * QUARTER_TURN == 1000 * HALF_TURN);
}

} // verus!
