//! Colour is an accent, never load-bearing. Every scene must read correctly
//! with all of it stripped out.

use vstd::prelude::*;
use crate::scene::model::Style;
use crate::text::{chars_of, push_all, string_of};

verus! {

/// What a run of characters means, for the purpose of styling it.
#[derive(Debug, Clone, Copy, PartialEq, Eq, Structural)]
pub enum Paint {
    Scene(Style),
    Frame,
    Temperature,
    Place,
    Condition,
    Detail,
    Notice,
    Plain,
}

/// The ANSI escape that starts a run of this paint (empty for none).
pub open spec fn ansi_code(p: Paint, night: bool) -> Seq<char> {
    match p {
        Paint::Scene(Style::Sun) => "\x1b[93m"@,
        Paint::Scene(Style::Moon) => "\x1b[97m"@,
        Paint::Scene(Style::Star) => "\x1b[90m"@,
        Paint::Scene(Style::Cloud) => if night {
            "\x1b[90m"@
        } else {
            "\x1b[37m"@
        },
        Paint::Scene(Style::Rain) => "\x1b[94m"@,
        Paint::Scene(Style::Snow) => "\x1b[96m"@,
        Paint::Scene(Style::Bolt) => "\x1b[93m"@,
        Paint::Scene(Style::Fog) => "\x1b[90m"@,
        Paint::Scene(Style::Ground) => "\x1b[90m"@,
        Paint::Scene(Style::Wind) => "\x1b[36m"@,
        Paint::Frame => "\x1b[90m"@,
        Paint::Detail => "\x1b[90m"@,
        Paint::Temperature => "\x1b[1m"@,
        Paint::Condition => "\x1b[2m"@,
        Paint::Notice => "\x1b[33m"@,
        Paint::Place => ""@,
        Paint::Plain => ""@,
    }
}

impl Paint {
    pub fn ansi(self, night: bool) -> (s: &'static str)
        ensures
            s@ == ansi_code(self, night),
    {
        match self {
            Paint::Scene(Style::Sun) => "\x1b[93m",
            Paint::Scene(Style::Moon) => "\x1b[97m",
            Paint::Scene(Style::Star) => "\x1b[90m",
            Paint::Scene(Style::Cloud) => {
                if night {
                    "\x1b[90m"
                } else {
                    "\x1b[37m"
                }
            },
            Paint::Scene(Style::Rain) => "\x1b[94m",
            Paint::Scene(Style::Snow) => "\x1b[96m",
            Paint::Scene(Style::Bolt) => "\x1b[93m",
            Paint::Scene(Style::Fog) => "\x1b[90m",
            Paint::Scene(Style::Ground) => "\x1b[90m",
            Paint::Scene(Style::Wind) => "\x1b[36m",
            Paint::Frame => "\x1b[90m",
            Paint::Detail => "\x1b[90m",
            Paint::Temperature => "\x1b[1m",
            Paint::Condition => "\x1b[2m",
            Paint::Notice => "\x1b[33m",
            Paint::Place => "",
            Paint::Plain => "",
        }
    }
}

pub open spec fn reset_code() -> Seq<char> {
    "\x1b[0m"@
}

/// The abstract content of a span.
pub struct SpanView {
    pub text: Seq<char>,
    pub paint: Paint,
}

/// A run of same-styled characters.
#[derive(Debug, Clone, PartialEq)]
pub struct Span {
    pub text: String,
    pub paint: Paint,
}

impl View for Span {
    type V = SpanView;

    open spec fn view(&self) -> SpanView {
        SpanView { text: self.text@, paint: self.paint }
    }
}

impl Span {
    pub fn new(text: &str, paint: Paint) -> (s: Self)
        ensures
            s@ == (SpanView { text: text@, paint }),
    {
        Span { text: String::from_str(text), paint }
    }

    pub fn plain(text: &str) -> (s: Self)
        ensures
            s@ == (SpanView { text: text@, paint: Paint::Plain }),
    {
        Span::new(text, Paint::Plain)
    }
}

pub type Line = Vec<Span>;

/// The abstract content of a line.
pub open spec fn line_view(l: Seq<Span>) -> Seq<SpanView> {
    l.map_values(|s: Span| s@)
}

/// The abstract content of some lines.
pub open spec fn lines_of(ls: Seq<Line>) -> Seq<Seq<SpanView>> {
    ls.map_values(|l: Line| line_view(l@))
}

/// A span as it goes to stdout: its text, wrapped in its escape and a reset
/// when colour is on and the paint has one.
pub open spec fn span_out(s: SpanView, color: bool, night: bool) -> Seq<char> {
    let code = if color {
        ansi_code(s.paint, night)
    } else {
        Seq::empty()
    };
    if code.len() == 0 {
        s.text
    } else {
        code + s.text + reset_code()
    }
}

pub open spec fn line_out(l: Seq<SpanView>, color: bool, night: bool) -> Seq<char>
    decreases l.len(),
{
    if l.len() == 0 {
        Seq::empty()
    } else {
        line_out(l.drop_last(), color, night) + span_out(l.last(), color, night)
    }
}

/// Drops trailing spaces.
pub open spec fn trim_spaces(s: Seq<char>) -> Seq<char>
    decreases s.len(),
{
    if s.len() > 0 && s.last() == ' ' {
        trim_spaces(s.drop_last())
    } else {
        s
    }
}

/// What `to_string` writes for some lines: each one's spans, with trailing
/// blanks trimmed, then a newline.
pub open spec fn lines_out(ls: Seq<Seq<SpanView>>, color: bool, night: bool) -> Seq<char>
    decreases ls.len(),
{
    if ls.len() == 0 {
        Seq::empty()
    } else {
        trim_spaces(lines_out(ls.drop_last(), color, night) + line_out(ls.last(), color, night)).push(
            '\n',
        )
    }
}

fn trim_trailing(out: &mut Vec<char>)
    ensures
        final(out)@ == trim_spaces(old(out)@),
{
    while out.len() > 0 && out[out.len() - 1] == ' '
        invariant
            trim_spaces(out@) == trim_spaces(old(out)@),
        decreases out.len(),
    {
        let ghost before = out@;
        out.pop();
        assert(out@ == before.drop_last());
    }
}

/// Flatten styled lines into the string that goes to stdout.
pub fn to_string(lines: &[Line], color: bool, night: bool) -> (s: String)
    ensures
        s@ == lines_out(lines_of(lines@), color, night),
{
    let mut out: Vec<char> = Vec::new();
    let mut i: usize = 0;
    while i < lines.len()
        invariant
            i <= lines.len(),
            out@ == lines_out(lines_of(lines@).take(i as int), color, night),
        decreases lines.len() - i,
    {
        let line = &lines[i];
        let ghost start = out@;
        let mut j: usize = 0;
        while j < line.len()
            invariant
                j <= line@.len(),
                line == lines@[i as int],
                out@ == start + line_out(line_view(line@).take(j as int), color, night),
            decreases line.len() - j,
        {
            let span = &line[j];
            proof {
                reveal_strlit("");
            }
            let code = if color {
                span.paint.ansi(night)
            } else {
                ""
            };
            let code_chars = chars_of(code);
            let text = chars_of(span.text.as_str());
            if code_chars.len() == 0 {
                out.extend_from_slice(text.as_slice());
            } else {
                out.extend_from_slice(code_chars.as_slice());
                out.extend_from_slice(text.as_slice());
                let reset = chars_of("\x1b[0m");
                out.extend_from_slice(reset.as_slice());
            }
            assert(line_view(line@).take(j as int + 1).drop_last() == line_view(line@).take(j as int));
            assert(line_view(line@)[j as int] == span@);
            assert(out@ =~= start + line_out(line_view(line@).take(j as int + 1), color, night));
            j += 1;
        }
        assert(line_view(line@).take(line@.len() as int) == line_view(line@));
        trim_trailing(&mut out);
        out.push('\n');
        assert(lines_of(lines@).take(i as int + 1).drop_last() == lines_of(lines@).take(i as int));
        assert(lines_of(lines@)[i as int] == line_view(line@));
        i += 1;
    }
    assert(lines_of(lines@).take(lines.len() as int) == lines_of(lines@));
    string_of(out.as_slice())
}


/// Colour is on only when it was asked for, allowed, and going to a
/// terminal: not with `--no-color`, not with `NO_COLOR` set, not on a
/// `dumb` terminal, and only when stdout is a terminal.
pub fn should_colorize(no_color_flag: bool, no_color_env: bool, dumb_term: bool, stdout_tty: bool) -> (b: bool)
    ensures
        b == (!no_color_flag && !no_color_env && !dumb_term && stdout_tty),
{
    if no_color_flag || no_color_env {
        return false;
    }
    if dumb_term {
        return false;
    }
    stdout_tty
}


/// The text of a line, its spans one after another.
pub open spec fn line_text(l: Seq<SpanView>) -> Seq<char>
    decreases l.len(),
{
    if l.len() == 0 {
        Seq::empty()
    } else {
        line_text(l.drop_last()) + l.last().text
    }
}

/// Colour is an accent, never load-bearing: without colour a line goes out
/// as exactly its text, by day and by night.
pub proof fn monochrome_is_just_the_text(l: Seq<SpanView>, night: bool)
    ensures
        line_out(l, false, night) == line_text(l),
    decreases l.len(),
{
    if l.len() > 0 {
        monochrome_is_just_the_text(l.drop_last(), night);
    }
}

} // verus!
