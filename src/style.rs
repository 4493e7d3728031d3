//! Display options: the numeric suffix, the sliding law and the bar's look.
use vstd::prelude::*;
use vstd::string::StringExecFns;

verus! {

/// Which numeric suffix follows the title.
#[derive(Debug, Clone, Copy, PartialEq, Eq, Structural, PartialOrd, Ord, Hash)]
pub enum ProgressStyle {
    Bare,
    Percent,
    Fraction,
}

impl Default for ProgressStyle {
    fn default() -> (r: Self)
        ensures
            r == ProgressStyle::Percent,
    {
        ProgressStyle::Percent
    }
}

/// How the segment of an indeterminate bar moves over time.
#[derive(Debug, Clone, Copy, PartialEq, Eq, Structural, PartialOrd, Ord, Hash)]
pub enum SlideStyle {
    Wrapping,
    Linear,
    Smooth,
}

impl Default for SlideStyle {
    fn default() -> (r: Self)
        ensures
            r == SlideStyle::Wrapping,
    {
        SlideStyle::Wrapping
    }
}

/// The look of the bar.
///
/// Rates are integers in thousandths: `slide_speed` in milliradians per
/// second, `rotation_speed` in thousandths of a glyph step per second, and
/// `slide_ratio` in thousandths of the bar (values above 1000 count as 1000).
/// Negative speeds reverse the motion.
#[derive(Debug, Clone)]
pub struct BarStyle {
    pub text: String,
    pub slide: SlideStyle,
    pub slide_speed: i32,
    pub rotation_speed: i32,
    pub slide_ratio: u32,
    pub left_end: String,
    pub right_end: String,
}

/// The glyph painted when a style's glyph text is empty: a full block.
pub open spec fn default_glyphs() -> Seq<char> {
    seq!['\u{2588}']
}

impl Default for BarStyle {
    fn default() -> (r: Self)
        ensures
            r.text@ == default_glyphs(),
            r.slide == SlideStyle::Wrapping,
            r.slide_speed == 1000,
            r.rotation_speed == 0,
            r.slide_ratio == 167,
            r.left_end@.len() == 0,
            r.right_end@.len() == 0,
    {
        proof {
            reveal_strlit("\u{2588}");
        }
        BarStyle {
            text: String::from_str("\u{2588}"),
            slide: SlideStyle::Wrapping,
            slide_speed: 1000,
            rotation_speed: 0,
            slide_ratio: 167,
            left_end: String::new(),
            right_end: String::new(),
        }
    }
}

} // verus!
