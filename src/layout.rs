//! The title line (title, numeric suffix, elapsed time) and the width left for the bar.
use vstd::prelude::*;
use crate::arith::{round_div, round_div_exec, lemma_round_div_fraction_bound, lemma_round_div_monotone};
use crate::elapsed::hundredths_text;
use crate::style::ProgressStyle;
use crate::text::{dec, push_dec, push_dec2, string_of};

verus! {

/// The total item count, when the producer reports an upper bound on what
/// remains and the sum fits in a `usize`.
pub open spec fn known_total(progress: nat, remaining: Option<usize>) -> Option<nat> {
    match remaining {
        Some(r) => if progress + r <= usize::MAX {
            Some((progress + r) as nat)
        } else {
            None
        },
        None => None,
    }
}

/// Percentage in hundredths of a percent, rounded; a total of 0 counts as 1.
pub open spec fn percent_hundredths(progress: nat, total: nat) -> nat {
    round_div((progress * 10000) as int, if total == 0 { 1 } else { total as int }) as nat
}

/// The numeric suffix after the title.
pub open spec fn suffix_text(style: ProgressStyle, progress: nat, total: Option<nat>) -> Seq<char> {
    match (style, total) {
        (ProgressStyle::Bare, _) => seq![],
        (ProgressStyle::Percent, Some(t)) => hundredths_text(percent_hundredths(progress, t)) + seq!['%', ' '],
        (ProgressStyle::Fraction, Some(t)) => dec(progress) + seq!['/'] + dec(t) + seq![' '],
        (_, None) => dec(progress),
    }
}

/// The title line: title, a space if the title is not empty, suffix, time, and a space.
pub open spec fn title_line_text(title: Seq<char>, suffix: Seq<char>, time: Seq<char>) -> Seq<char> {
    title + (if title.len() > 0 { seq![' '] } else { seq![] }) + suffix + time + seq![' ']
}

/// Columns left for the bar on a terminal `term` columns wide after `used`
/// columns of text, at most `max_width`.
pub open spec fn bar_width_of(term: nat, used: nat, max_width: nat) -> nat {
    let room: nat = if used <= term { (term - used) as nat } else { 0 };
    if room <= max_width { room } else { max_width }
}

/// The total for `progress` items with an upper bound of `remaining` more.
pub fn total_of(progress: usize, remaining: Option<usize>) -> (r: Option<usize>)
    ensures
        r matches Some(t) ==> known_total(progress as nat, remaining) == Some(t as nat),
        r is None ==> known_total(progress as nat, remaining) is None,
{
    match remaining {
        Some(rem) => progress.checked_add(rem),
        None => None,
    }
}

/// Appends the numeric suffix for `progress` items out of `total`.
pub fn push_suffix(out: &mut Vec<char>, style: ProgressStyle, progress: usize, total: Option<usize>)
    ensures
        final(out)@ == old(out)@ + suffix_text(style, progress as nat, match total {
            Some(t) => Some(t as nat),
            None => None,
        }),
{
    let ghost o = out@;
    let ghost tn: Option<nat> = match total {
        Some(t) => Some(t as nat),
        None => None,
    };
    match (style, total) {
        (ProgressStyle::Bare, _) => {},
        (ProgressStyle::Percent, Some(t)) => {
            let d: u128 = if t == 0 { 1 } else { t as u128 };
            let h = round_div_exec((progress as u128) * 10000, d);
            proof {
                lemma_round_div_monotone((progress * 10000) as int, (0xffff_ffff_ffff_ffff * 10000) as int, d as int);
                vstd::arithmetic::div_mod::lemma_div_is_ordered_by_denominator(0xffff_ffff_ffff_ffff * 10000 + d / 2, 1, d as int);
            }
            push_dec(out, h / 100);
            out.push('.');
            push_dec2(out, h % 100);
            out.push('%');
            out.push(' ');
        },
        (ProgressStyle::Fraction, Some(t)) => {
            push_dec(out, progress as u128);
            out.push('/');
            push_dec(out, t as u128);
            out.push(' ');
        },
        (_, None) => {
            push_dec(out, progress as u128);
        },
    }
    assert(out@ =~= o + suffix_text(style, progress as nat, tn));
}

/// The numeric suffix after the title: nothing for `Bare`; with a known
/// total, the percentage to two decimals followed by `"% "`, or
/// `"{progress}/{total} "`; with an unknown total, the bare count.
pub fn title_suffix(style: ProgressStyle, progress: usize, total: Option<usize>) -> (r: String)
    ensures
        r@ == suffix_text(style, progress as nat, match total {
            Some(t) => Some(t as nat),
            None => None,
        }),
{
    let mut out: Vec<char> = Vec::new();
    push_suffix(&mut out, style, progress, total);
    assert(out@ =~= suffix_text(style, progress as nat, match total {
        Some(t) => Some(t as nat),
        None => None,
    }));
    string_of(&out)
}

/// Columns left for the bar: the terminal width less the text around it
/// (never below 0), at most `max_width`.
pub fn bar_width(term_width: usize, used: u128, max_width: usize) -> (r: usize)
    ensures
        r == bar_width_of(term_width as nat, used as nat, max_width as nat),
        r <= max_width,
{
    let room: usize = if used <= term_width as u128 { (term_width as u128 - used) as usize } else { 0 };
    if room <= max_width { room } else { max_width }
}

/// The bar never takes more than `max_width` columns, and where the text
/// around it fits on the terminal, text and bar together fit as well.
pub proof fn lemma_bar_fits(term: nat, used: nat, max_width: nat)
    ensures
        bar_width_of(term, used, max_width) <= max_width,
        used <= term ==> used + bar_width_of(term, used, max_width) <= term,
        used > term ==> bar_width_of(term, used, max_width) == 0,
{
}

/// While progress has not passed the total, the percentage lies between
/// 0.00 and 100.00, and it reaches 100.00 exactly when all items are done.
pub proof fn lemma_percent_in_range(progress: nat, total: nat)
    requires
        progress <= total,
    ensures
        percent_hundredths(progress, total) <= 10000,
        total > 0 && progress == total ==> percent_hundredths(progress, total) == 10000,
{
    let d: int = if total == 0 { 1 } else { total as int };
    lemma_round_div_fraction_bound(progress as int, 10000, d);
    assert(progress * 10000 == 10000 * progress);
    if total > 0 && progress == total {
        vstd::arithmetic::div_mod::lemma_fundamental_div_mod_converse(
            (progress * 10000) as int + d / 2,
            d,
            10000,
            d / 2,
        );
    }
}

} // verus!
