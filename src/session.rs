//! One progress session: its configuration, its counters, and the line it renders.
use vstd::prelude::*;
use crate::bar::{determinate_body, indeterminate_body, push_determinate, push_indeterminate};
use crate::elapsed::{elapsed_text, push_elapsed};
use crate::layout::{bar_width, bar_width_of, known_total, push_suffix, suffix_text, title_line_text, total_of};
use crate::style::{BarStyle, ProgressStyle};
use crate::text::{push_spaces, push_str, spaces, str_width_of, string_of, text_width};

verus! {

/// The state of one progress session.
#[derive(Debug, Clone)]
pub struct Session {
    /// Label shown before the numbers; may be empty.
    pub title: String,
    /// Which numeric suffix follows the title.
    pub text_style: ProgressStyle,
    /// The look of the bar.
    pub bar_style: BarStyle,
    /// Items produced so far.
    pub progress: usize,
    /// Most columns the bar may take.
    pub max_width: usize,
    /// Whether an item has been pulled yet; the clock runs from the first pull.
    pub started: bool,
    /// Whether the elapsed time follows the numbers.
    pub print_elapsed: bool,
    /// Whether the line is blanked when the session ends.
    pub clear_on_end: bool,
    /// Whether the session has ended.
    pub ended: bool,
}

/// The elapsed-time part of the title line.
pub open spec fn time_text(s: Session, ms: nat) -> Seq<char> {
    if s.print_elapsed {
        seq![' ', '|', ' '] + elapsed_text(if s.started { ms } else { 0 })
    } else {
        seq![]
    }
}

/// The title line of a session for a producer with `remaining` items at most left.
pub open spec fn session_title_line(s: Session, remaining: Option<usize>, ms: nat) -> Seq<char> {
    title_line_text(
        s.title@,
        suffix_text(s.text_style, s.progress as nat, known_total(s.progress as nat, remaining)),
        time_text(s, ms),
    )
}

/// Columns of text around the bar: title line and both bar ends.
pub open spec fn used_columns(s: Session, remaining: Option<usize>, ms: nat) -> nat {
    str_width_of(session_title_line(s, remaining, ms)) + str_width_of(s.bar_style.left_end@)
        + str_width_of(s.bar_style.right_end@)
}

/// Columns the bar takes on a terminal `term` columns wide.
pub open spec fn session_bar_width(s: Session, remaining: Option<usize>, term: nat, ms: nat) -> nat {
    bar_width_of(term, used_columns(s, remaining, ms), s.max_width as nat)
}

/// The line a session renders: a carriage return, the title line, and the
/// bar between its ends; the bar is a fill when the total is known and a
/// sliding segment when it is not.
pub open spec fn line_text(s: Session, remaining: Option<usize>, term: nat, ms: nat) -> Seq<char> {
    let e = if s.started { ms } else { 0 };
    let w = session_bar_width(s, remaining, term, ms);
    let body = match known_total(s.progress as nat, remaining) {
        Some(t) => determinate_body(s.bar_style, s.progress as nat, t, w, e),
        None => indeterminate_body(s.bar_style, w, e),
    };
    seq!['\r'] + session_title_line(s, remaining, ms) + s.bar_style.left_end@ + body
        + s.bar_style.right_end@
}

/// The text that blanks a line `width` columns wide and returns to its start.
pub open spec fn clear_text(width: nat) -> Seq<char> {
    seq!['\r'] + spaces(width) + seq!['\r']
}

/// What ending a session does: it is marked ended, and the line is blanked
/// only if clearing is on and it had not ended before.
pub open spec fn end_outcome(s: Session, width: nat) -> (Session, Option<Seq<char>>) {
    (
        Session { ended: true, ..s },
        if s.clear_on_end && !s.ended {
            Some(clear_text(width))
        } else {
            None
        },
    )
}

impl Session {
    /// A fresh session: no title, percentage suffix, default bar, no bound on
    /// the bar's width, no elapsed time, line cleared at the end.
    pub fn new() -> (r: Session)
        ensures
            r.title@.len() == 0,
            r.text_style == ProgressStyle::Percent,
            r.bar_style.text@ == crate::style::default_glyphs(),
            r.bar_style.slide == crate::style::SlideStyle::Wrapping,
            r.bar_style.slide_speed == 1000,
            r.bar_style.rotation_speed == 0,
            r.bar_style.slide_ratio == 167,
            r.bar_style.left_end@.len() == 0,
            r.bar_style.right_end@.len() == 0,
            r.progress == 0,
            r.max_width == usize::MAX,
            !r.started,
            !r.print_elapsed,
            r.clear_on_end,
            !r.ended,
    {
        Session {
            title: String::new(),
            text_style: ProgressStyle::default(),
            bar_style: BarStyle::default(),
            progress: 0,
            max_width: usize::MAX,
            started: false,
            print_elapsed: false,
            clear_on_end: true,
            ended: false,
        }
    }

    /// Records one pull from the producer: the clock starts, and the count
    /// grows by one if an item came (it stays at `usize::MAX` once there).
    pub fn pull(&mut self, produced: bool)
        ensures
            final(self).started,
            final(self).progress == if produced && old(self).progress < usize::MAX {
                old(self).progress + 1
            } else {
                old(self).progress as int
            },
            final(self).title == old(self).title,
            final(self).text_style == old(self).text_style,
            final(self).bar_style == old(self).bar_style,
            final(self).max_width == old(self).max_width,
            final(self).print_elapsed == old(self).print_elapsed,
            final(self).clear_on_end == old(self).clear_on_end,
            final(self).ended == old(self).ended,
    {
        self.started = true;
        if produced && self.progress < usize::MAX {
            self.progress = self.progress + 1;
        }
    }

    /// Ends the session. Returns the text that blanks the line, if clearing
    /// is on and the session had not ended yet; a second call returns `None`.
    pub fn end(&mut self, term_width: usize) -> (r: Option<String>)
        ensures
            (*final(self), match r {
                Some(t) => Some(t@),
                None => None,
            }) == end_outcome(*old(self), term_width as nat),
    {
        let was_ended = self.ended;
        self.ended = true;
        if self.clear_on_end && !was_ended {
            let mut out: Vec<char> = Vec::new();
            out.push('\r');
            push_spaces(&mut out, term_width);
            out.push('\r');
            assert(out@ =~= clear_text(term_width as nat));
            Some(string_of(&out))
        } else {
            None
        }
    }

    /// Renders the session's line for a producer with at most `remaining`
    /// items left (`None`: unknown), a terminal `term_width` columns wide,
    /// `elapsed_ms` milliseconds after the first pull.
    pub fn render(&self, remaining: Option<usize>, term_width: usize, elapsed_ms: u64) -> (r: String)
        ensures
            r@ == line_text(*self, remaining, term_width as nat, elapsed_ms as nat),
    {
        let e: u64 = if self.started { elapsed_ms } else { 0 };
        let total = total_of(self.progress, remaining);
        let ghost tn: Option<nat> = match total {
            Some(t) => Some(t as nat),
            None => None,
        };
        let mut tl: Vec<char> = Vec::new();
        push_str(&mut tl, self.title.as_str());
        if self.title.unicode_len() > 0 {
            tl.push(' ');
        }
        push_suffix(&mut tl, self.text_style, self.progress, total);
        if self.print_elapsed {
            tl.push(' ');
            tl.push('|');
            tl.push(' ');
            push_elapsed(&mut tl, e);
        }
        tl.push(' ');
        assert(tl@ =~= session_title_line(*self, remaining, elapsed_ms as nat));
        let title_line = string_of(&tl);
        let used: u128 = text_width(title_line.as_str()) as u128 + text_width(
            self.bar_style.left_end.as_str(),
        ) as u128 + text_width(self.bar_style.right_end.as_str()) as u128;
        let w = bar_width(term_width, used, self.max_width);
        let mut out: Vec<char> = Vec::new();
        out.push('\r');
        push_str(&mut out, title_line.as_str());
        push_str(&mut out, self.bar_style.left_end.as_str());
        match total {
            Some(t) => push_determinate(&mut out, &self.bar_style, self.progress, t, w, e),
            None => push_indeterminate(&mut out, &self.bar_style, w, e),
        }
        push_str(&mut out, self.bar_style.right_end.as_str());
        assert(out@ =~= line_text(*self, remaining, term_width as nat, elapsed_ms as nat));
        string_of(&out)
    }

    /// Sets the title.
    pub fn title(self, title: String) -> (r: Session)
        ensures
            r == (Session { title, ..self }),
    {
        Session { title, ..self }
    }

    /// Bounds the bar's width.
    pub fn max_width(self, max_width: usize) -> (r: Session)
        ensures
            r == (Session { max_width, ..self }),
    {
        Session { max_width, ..self }
    }

    /// Sets the numeric suffix.
    pub fn text_style(self, style: ProgressStyle) -> (r: Session)
        ensures
            r == (Session { text_style: style, ..self }),
    {
        Session { text_style: style, ..self }
    }

    /// Sets the bar's look.
    pub fn bar_style(self, style: BarStyle) -> (r: Session)
        ensures
            r == (Session { bar_style: style, ..self }),
    {
        Session { bar_style: style, ..self }
    }

    /// Leaves the line in place when the session ends.
    pub fn no_clear_on_end(self) -> (r: Session)
        ensures
            r == (Session { clear_on_end: false, ..self }),
    {
        Session { clear_on_end: false, ..self }
    }

    /// Shows the elapsed time after the numbers.
    pub fn with_elapsed(self) -> (r: Session)
        ensures
            r == (Session { print_elapsed: true, ..self }),
    {
        Session { print_elapsed: true, ..self }
    }
}

/// Ending clears the line exactly once when clearing is on, however the
/// session got there (through any number of pulls): the first end blanks the
/// line, and any later end does nothing.
pub proof fn lemma_end_clears_once(s: Session, width: nat, width2: nat)
    requires
        !s.ended,
    ensures
        (end_outcome(s, width).1 is Some) == s.clear_on_end,
        s.clear_on_end ==> end_outcome(s, width).1 == Some(clear_text(width)),
        end_outcome(end_outcome(s, width).0, width2).1 is None,
        end_outcome(end_outcome(s, width).0, width2).0 == end_outcome(s, width).0,
{
}

/// The line never claims more columns than the terminal leaves and
/// `max_width` allows: the bar is at most `max_width` wide, and where the
/// text around it fits on the terminal, text and bar together fit too.
pub proof fn lemma_line_fits(s: Session, remaining: Option<usize>, term: nat, ms: nat)
    ensures
        session_bar_width(s, remaining, term, ms) <= s.max_width,
        used_columns(s, remaining, ms) <= term ==> used_columns(s, remaining, ms)
            + session_bar_width(s, remaining, term, ms) <= term,
{
    crate::layout::lemma_bar_fits(term, used_columns(s, remaining, ms), s.max_width as nat);
}

} // verus!
