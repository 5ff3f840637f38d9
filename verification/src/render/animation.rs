//! The decisions of the frame loop, not the loop itself.
//!
//! Each frame is the *same* seeded scene sampled at a later time, so animation
//! adds motion without adding a second source of truth. Taking over the
//! terminal, sleeping and reading keys belong to the caller, which asks these
//! functions what to draw and whether to stop.

use vstd::prelude::*;
use crate::render::ascii::{Layout, inner_of, panel, panel_spec};
use crate::render::color::{lines_of, lines_out, to_string};
use crate::scene::generator::{RenderOptions, generate, generate_spec, max_cells, options_ok};
use crate::text::{chars_of, push_char};
use crate::weather::model::{WeatherData, timestamps_ok};

verus! {

/// Milliseconds between frames: roughly eight frames a second.
pub const FRAME_MS: u64 = 130;

/// The options of frame `frame`: the same width, seed and glyphs as the still
/// image, a later moment.
pub open spec fn frame_options_spec(layout: Layout, seed: u64, frame: u64) -> RenderOptions {
    RenderOptions { width: inner_of(layout) as usize, height: None, seed, frame, ascii: layout.plain }
}

pub fn frame_options(layout: &Layout, seed: u64, frame: u64) -> (o: RenderOptions)
    ensures
        o == frame_options_spec(*layout, seed, frame),
{
    RenderOptions { width: layout.inner_width(), height: None, seed, frame, ascii: layout.plain }
}

/// The frame after `frame`; the count wraps to 0 after the last `u64`.
pub fn next_frame(frame: u64) -> (n: u64)
    ensures
        n == if frame < u64::MAX { frame + 1 } else { 0 },
{
    if frame < u64::MAX {
        frame + 1
    } else {
        0
    }
}

/// A key press, as far as the loop cares.
#[derive(Debug, Clone, Copy, PartialEq, Eq)]
pub enum Key {
    Char(char),
    Esc,
    Other,
}

/// Whether a key press ends the animation: any key does (`q`, Esc and
/// Ctrl+C among them), Enter, Tab and the arrows as much as letters.
pub open spec fn ends_animation_spec(key: Key, ctrl: bool) -> bool {
    true
}

pub fn ends_animation(key: Key, ctrl: bool) -> (stop: bool)
    ensures
        stop == ends_animation_spec(key, ctrl),
        stop,
{
    match key {
        Key::Char(_) | Key::Esc | Key::Other => true,
    }
}

/// Text with every line break turned into a carriage return and a line
/// break, as a terminal in raw mode needs.
pub open spec fn crlf(s: Seq<char>) -> Seq<char>
    decreases s.len(),
{
    if s.len() == 0 {
        Seq::empty()
    } else if s.last() == '\n' {
        crlf(s.drop_last()) + seq!['\r', '\n']
    } else {
        crlf(s.drop_last()).push(s.last())
    }
}

fn to_crlf(s: &str) -> (r: String)
    ensures
        r@ == crlf(s@),
{
    let cs = chars_of(s);
    let mut r = String::new();
    let mut i: usize = 0;
    while i < cs.len()
        invariant
            i <= cs@.len(),
            cs@ == s@,
            r@ == crlf(cs@.take(i as int)),
        decreases cs.len() - i,
    {
        let ghost before = r@;
        assert(cs@.take(i as int + 1).drop_last() =~= cs@.take(i as int));
        assert(cs@.take(i as int + 1).last() == cs@[i as int]);
        if cs[i] == '\n' {
            push_char(&mut r, '\r');
            push_char(&mut r, '\n');
            assert(r@ =~= before + seq!['\r', '\n']);
        } else {
            push_char(&mut r, cs[i]);
        }
        i += 1;
    }
    assert(cs@.take(cs@.len() as int) =~= s@);
    r
}

/// What frame `frame` puts on the screen: the panel of the scene at that
/// frame, written out with carriage returns.
pub open spec fn frame_text_spec(
    weather: WeatherData,
    layout: Layout,
    colored: bool,
    night: bool,
    seed: u64,
    frame: u64,
) -> Seq<char> {
    let scene = generate_spec(weather, frame_options_spec(layout, seed, frame));
    crlf(lines_out(panel_spec(weather, scene, layout), colored, night))
}

pub fn frame_text(
    weather: &WeatherData,
    layout: &Layout,
    colored: bool,
    night: bool,
    seed: u64,
    frame: u64,
) -> (s: String)
    requires
        inner_of(*layout) <= max_cells(),
        timestamps_ok(*weather),
    ensures
        s@ == frame_text_spec(*weather, *layout, colored, night, seed, frame),
{
    let opts = frame_options(layout, seed, frame);
    assert(options_ok(opts));
    let scene = generate(weather, &opts);
    let lines = panel(weather, &scene, layout);
    let body = to_string(lines.as_slice(), colored, night);
    to_crlf(body.as_str())
}

} // verus!
