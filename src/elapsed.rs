//! The elapsed-time suffix.
use vstd::prelude::*;
use crate::arith::round_div;
use crate::text::{dec, dec2, push_dec, push_dec2};
use crate::text::string_of;

verus! {

/// `h` hundredths written with two decimals (`"12.05"`).
pub open spec fn hundredths_text(h: nat) -> Seq<char> {
    dec(h / 100) + seq!['.'] + dec2(h % 100)
}

/// Elapsed time of `ms` milliseconds in the coarsest readable unit:
/// milliseconds below one second, seconds with two decimals below ten,
/// whole seconds below a minute, then minutes, hours and days.
pub open spec fn elapsed_text(ms: nat) -> Seq<char> {
    let s = ms / 1000;
    if ms < 1000 {
        dec(ms) + seq!['m', 's']
    } else if ms < 10000 {
        hundredths_text(round_div(ms as int, 10) as nat) + seq!['s']
    } else if ms < 60000 {
        dec(round_div(ms as int, 1000) as nat) + seq!['s']
    } else if s < 3600 {
        dec(s / 60) + seq!['m', ' '] + dec(s % 60) + seq!['s']
    } else if s < 86400 {
        dec(s / 3600) + seq!['h', ' '] + dec((s / 60) % 60) + seq!['m', ' '] + dec(s % 60) + seq![
            's',
        ]
    } else {
        hundredths_text(ms / 864000) + seq!['d', ' '] + dec((s / 3600) % 24) + seq!['h', ' '] + dec(
            (s / 60) % 60,
        ) + seq!['m', ' '] + dec(s % 60) + seq!['s']
    }
}

fn push_hundredths(out: &mut Vec<char>, h: u128)
    ensures
        final(out)@ == old(out)@ + hundredths_text(h as nat),
{
    push_dec(out, h / 100);
    out.push('.');
    push_dec2(out, h % 100);
    assert(final(out)@ =~= old(out)@ + hundredths_text(h as nat));
}

/// Appends the elapsed-time text of `ms` milliseconds.
pub fn push_elapsed(out: &mut Vec<char>, ms: u64)
    ensures
        final(out)@ == old(out)@ + elapsed_text(ms as nat),
{
    let m: u128 = ms as u128;
    let s: u128 = m / 1000;
    let ghost o = out@;
    if m < 1000 {
        push_dec(out, m);
        out.push('m');
        out.push('s');
    } else if m < 10000 {
        push_hundredths(out, (m + 5) / 10);
        out.push('s');
    } else if m < 60000 {
        push_dec(out, (m + 500) / 1000);
        out.push('s');
    } else if s < 3600 {
        push_dec(out, s / 60);
        out.push('m');
        out.push(' ');
        push_dec(out, s % 60);
        out.push('s');
    } else if s < 86400 {
        push_dec(out, s / 3600);
        out.push('h');
        out.push(' ');
        push_dec(out, (s / 60) % 60);
        out.push('m');
        out.push(' ');
        push_dec(out, s % 60);
        out.push('s');
    } else {
        push_hundredths(out, m / 864000);
        out.push('d');
        out.push(' ');
        push_dec(out, (s / 3600) % 24);
        out.push('h');
        out.push(' ');
        push_dec(out, (s / 60) % 60);
        out.push('m');
        out.push(' ');
        push_dec(out, s % 60);
        out.push('s');
    }
    assert(out@ =~= o + elapsed_text(ms as nat));
}

/// The elapsed-time text of `ms` milliseconds (`"742ms"`, `"1.00s"`, `"1h 1m 1s"`).
pub fn format_elapsed(ms: u64) -> (r: String)
    ensures
        r@ == elapsed_text(ms as nat),
{
    let mut out: Vec<char> = Vec::new();
    push_elapsed(&mut out, ms);
    assert(out@ =~= elapsed_text(ms as nat));
    string_of(&out)
}

} // verus!
