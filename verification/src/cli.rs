//! The command line as plain values, and the decisions that wire the
//! pipeline together: provider -> cache -> scene -> renderer -> stdout.
//! Parsing the arguments, talking to the network and the filesystem, and
//! writing to the terminal are left to the binary.

use vstd::prelude::*;
use crate::config::{Config, entries_spec, width_of};
use crate::error::{AppError, headline_text, hint_lines, detail_text, strings_of};
use crate::render::ascii::{
    Layout, append_lines, blank, blank_line, compact_line, compact_text, forecast_dates_fit,
    forecast_lines, forecast_spec, framed, framed_spec, inner_of, notice, notice_text, one_span,
    one_span_line, panel, panel_spec,
};
use crate::render::color::{Line, Paint, SpanView, line_view, lines_of, lines_out, to_string};
use crate::render::terminal::{resolve_width, resolve_width_spec};
use crate::scene::generator::{RenderOptions, default_seed, default_seed_spec, generate, generate_spec, max_cells};
use crate::text::{pad_right, push_padded_right, chars_of};
use crate::weather::model::{WeatherData, timestamps_ok};

verus! {

/// What was asked for on the command line.
#[derive(Debug, Clone)]
pub struct Cli {
    /// Place to look up. Defaults to the configured location.
    pub location: Option<String>,
    pub command: Option<Command>,
    /// One-line summary instead of a scene
    pub compact: bool,
    /// No frame, no styling, ASCII art only
    pub plain: bool,
    /// Disable ANSI colour
    pub no_color: bool,
    /// Print normalized weather data as JSON
    pub json: bool,
    /// Render at this many columns instead of detecting
    pub width: Option<usize>,
    /// Seed the procedural scene for reproducible output
    pub seed: Option<u64>,
    /// Ignore cached weather and fetch fresh data
    pub no_cache: bool,
    /// Show the next few days instead of current conditions
    pub forecast: bool,
    /// Animate the scene until a key is pressed
    pub animate: bool,
    /// Include technical detail in error messages
    pub debug: bool,
}

#[derive(Debug, Clone)]
pub enum Command {
    /// Show or change configuration
    Config { action: Option<ConfigAction> },
}

#[derive(Debug, Clone)]
pub enum ConfigAction {
    /// Change a setting, e.g. `config set location Chennai`
    SetValue { key: String, value: String },
    /// Print the path of the config file
    Path,
}

/// The place to look up: the one on the command line, else the configured one.
pub fn query_for(location: &Option<String>, configured: &Option<String>) -> (q: Result<String, AppError>)
    ensures
        match q {
            Ok(s) => match location {
                Some(l) => s@ == l@,
                None => configured matches Some(c) && s@ == c@,
            },
            Err(e) => location is None && configured is None && e is NoLocation,
        },
{
    match location {
        Some(l) => Ok(l.clone()),
        None => match configured {
            Some(c) => Ok(c.clone()),
            None => Err(AppError::NoLocation),
        },
    }
}

/// The layout to draw with: `--width`, else the configured width, else the
/// terminal's (`detected`), resolved as `resolve_width` does; plain with `--plain`.
pub fn layout_for(cli: &Cli, config: &Config, detected: Option<usize>) -> (l: Layout)
    ensures
        l.plain == cli.plain,
        l.width == resolve_width_spec(
            match cli.width {
                Some(w) => Some(w),
                None => match width_of(config.render.width@) {
                    Some(n) => Some(n as usize),
                    None => None,
                },
            },
            detected,
        ),
{
    let explicit = match cli.width {
        Some(w) => Some(w),
        None => config.width(),
    };
    Layout::new(resolve_width(explicit, detected), cli.plain)
}

/// Colour only when not plain, enabled in the settings, and allowed (see
/// `should_colorize`).
pub fn colored(cli: &Cli, config: &Config, allowed: bool) -> (b: bool)
    ensures
        b == (!cli.plain && config.render.color && allowed),
{
    !cli.plain && config.render.color && allowed
}

/// The scene's seed: `--seed`, else the one derived from the reading.
pub fn seed_for(cli: &Cli, weather: &WeatherData) -> (s: u64)
    ensures
        s == match cli.seed {
            Some(n) => n,
            None => default_seed_spec(*weather),
        },
{
    match cli.seed {
        Some(n) => n,
        None => default_seed(weather),
    }
}

/// Whether to hand over to the animation: asked for, on a terminal, not
/// plain, and not overridden by `--compact` or `--forecast`.
pub fn animates(cli: &Cli, tty: bool) -> (b: bool)
    ensures
        b == (!cli.compact && !cli.forecast && cli.animate && tty && !cli.plain),
{
    !cli.compact && !cli.forecast && cli.animate && tty && !cli.plain
}

/// What a weather run prints.
#[derive(Debug, Clone, Copy, PartialEq, Eq)]
pub enum Output {
    /// The normalized reading as JSON, and nothing else on stdout.
    Json,
    /// The animation, until a key is pressed.
    Animation,
    /// Styled lines: the compact line, the forecast or the panel.
    Lines,
}

/// `--json` wins over everything; then the animation when it applies (see
/// `animates`); otherwise lines.
pub fn output_for(cli: &Cli, tty: bool) -> (o: Output)
    ensures
        o == if cli.json {
            Output::Json
        } else if !cli.compact && !cli.forecast && cli.animate && tty && !cli.plain {
            Output::Animation
        } else {
            Output::Lines
        },
{
    if cli.json {
        Output::Json
    } else if animates(cli, tty) {
        Output::Animation
    } else {
        Output::Lines
    }
}

/// The stale-data banner and a blank row, when there is a notice.
pub open spec fn notice_lines_spec(n: Option<Seq<char>>, l: Layout) -> Seq<Seq<SpanView>> {
    match n {
        Some(t) => seq![one_span(notice_text(t, l.plain), Paint::Notice), blank_line()],
        None => Seq::empty(),
    }
}

pub fn notice_lines(text: &Option<String>, layout: &Layout) -> (out: Vec<Line>)
    ensures
        lines_of(out@) == notice_lines_spec(
            match text {
                Some(t) => Some(t@),
                None => None,
            },
            *layout,
        ),
{
    let mut out: Vec<Line> = Vec::new();
    match text {
        Some(t) => {
            out.push(notice(t.as_str(), layout));
            out.push(blank());
        },
        None => {},
    }
    assert(lines_of(out@) =~= notice_lines_spec(
        match text {
            Some(t) => Some(t@),
            None => None,
        },
        *layout,
    ));
    out
}

/// The still image's options: the layout's inner width, the natural
/// height, frame zero.
pub open spec fn still_options(cli: Cli, l: Layout, seed: u64) -> RenderOptions {
    RenderOptions { width: inner_of(l) as usize, height: None, seed, frame: 0, ascii: cli.plain }
}

/// What is drawn for a reading: the compact line, the framed forecast, or
/// the framed panel of the still scene.
pub open spec fn body_spec(cli: Cli, w: WeatherData, l: Layout, seed: u64) -> Seq<Seq<SpanView>> {
    if cli.compact {
        seq![one_span(compact_text(w, l), Paint::Plain)]
    } else if cli.forecast {
        framed_spec(forecast_spec(w, l), l)
    } else {
        panel_spec(w, generate_spec(w, still_options(cli, l, seed)), l)
    }
}

/// The inputs `body_lines` can draw: forecast dates whose weekday fits, and
/// for a scene a drawable width and timestamps that can be cut by day.
pub open spec fn drawable(cli: Cli, w: WeatherData, l: Layout) -> bool {
    &&& (!cli.compact && cli.forecast ==> forecast_dates_fit(w))
    &&& (!cli.compact && !cli.forecast ==> inner_of(l) <= max_cells() && timestamps_ok(w))
}

pub fn body_lines(cli: &Cli, weather: &WeatherData, layout: &Layout, seed: u64) -> (out: Vec<Line>)
    requires
        drawable(*cli, *weather, *layout),
    ensures
        lines_of(out@) == body_spec(*cli, *weather, *layout, seed),
{
    if cli.compact {
        let mut out: Vec<Line> = Vec::new();
        out.push(compact_line(weather, layout));
        assert(lines_of(out@) =~= body_spec(*cli, *weather, *layout, seed));
        out
    } else if cli.forecast {
        framed(forecast_lines(weather, layout), layout)
    } else {
        let opts = RenderOptions {
            width: layout.inner_width(),
            height: None,
            seed,
            frame: 0,
            ascii: cli.plain,
        };
        let scene = generate(weather, &opts);
        panel(weather, &scene, layout)
    }
}

/// The error report: a marked headline, the hints indented under a blank
/// row, and with `--debug` the technical detail.
pub open spec fn report_lines(e: AppError, debug: bool, plain: bool) -> Seq<Seq<SpanView>> {
    let mark = if plain {
        "x"@
    } else {
        "✗"@
    };
    let head = seq![one_span(mark + " "@ + headline_text(e), Paint::Notice)];
    let hints = hint_lines(e);
    let with_hints = if hints.len() > 0 {
        head + seq![blank_line()] + hints.map_values(
            |h: Seq<char>| one_span("  "@ + h, Paint::Detail),
        )
    } else {
        head
    };
    match detail_text(e) {
        Some(d) => if debug {
            with_hints + seq![blank_line(), one_span("  detail: "@ + d, Paint::Detail)]
        } else {
            with_hints
        },
        None => with_hints,
    }
}

/// Render an error the way a person wants to read it. `plain` says that the
/// output will not be coloured, which also drops the non-ASCII mark.
pub fn report(err: &AppError, debug: bool, plain: bool) -> (s: String)
    ensures
        s@ == lines_out(report_lines(*err, debug, plain), false, false),
{
    let mut head = if plain {
        String::from_str("x")
    } else {
        String::from_str("✗")
    };
    head.append(" ");
    head.append(err.headline().as_str());
    let ghost mark = if plain { "x"@ } else { "✗"@ };
    assert(head@ =~= mark + " "@ + headline_text(*err));
    let mut lines: Vec<Line> = Vec::new();
    lines.push(one_span_line(head, Paint::Notice));
    let ghost l0 = lines_of(lines@);
    assert(l0 =~= seq![one_span(mark + " "@ + headline_text(*err), Paint::Notice)]);
    let hints = err.hint();
    if hints.len() > 0 {
        lines.push(blank());
        assert(lines_of(lines@) =~= l0 + seq![blank_line()]);
        let ghost start = lines_of(lines@);
        let mut i: usize = 0;
        while i < hints.len()
            invariant
                i <= hints@.len(),
                lines_of(lines@) == start + strings_of(hints@).take(i as int).map_values(
                    |h: Seq<char>| one_span("  "@ + h, Paint::Detail),
                ),
            decreases hints.len() - i,
        {
            let mut t = String::from_str("  ");
            t.append(hints[i].as_str());
            let line = one_span_line(t, Paint::Detail);
            let ghost before = lines@;
            lines.push(line);
            assert(lines_of(lines@) =~= lines_of(before).push(line_view(line@)));
            assert(strings_of(hints@).take(i as int + 1) =~= strings_of(hints@).take(i as int).push(
                hints@[i as int]@,
            ));
            assert(strings_of(hints@).take(i as int + 1).map_values(
                |h: Seq<char>| one_span("  "@ + h, Paint::Detail),
            ) =~= strings_of(hints@).take(i as int).map_values(
                |h: Seq<char>| one_span("  "@ + h, Paint::Detail),
            ).push(one_span("  "@ + hints@[i as int]@, Paint::Detail)));
            i += 1;
        }
        assert(strings_of(hints@).take(hints@.len() as int) =~= strings_of(hints@));
    }
    let ghost with_hints = lines_of(lines@);
    if debug {
        match err.detail() {
            Some(d) => {
                lines.push(blank());
                let mut t = String::from_str("  detail: ");
                t.append(d);
                lines.push(one_span_line(t, Paint::Detail));
                assert(lines_of(lines@) =~= with_hints + seq![blank_line(), one_span("  detail: "@ + d@, Paint::Detail)]);
            },
            None => {},
        }
    }
    assert(lines_of(lines@) =~= report_lines(*err, debug, plain));
    to_string(lines.as_slice(), false, false)
}

/// Technical detail stays behind `--debug`: with it the report gains the
/// detail and nothing else; without it the report is the headline and the
/// hints alone.
pub proof fn detail_only_with_debug(e: AppError, plain: bool)
    ensures
        report_lines(e, true, plain) == report_lines(e, false, plain) + match detail_text(e) {
            Some(d) => seq![blank_line(), one_span("  detail: "@ + d, Paint::Detail)],
            None => Seq::empty(),
        },
        report_lines(e, false, plain).len() == 1 + if hint_lines(e).len() > 0 {
            hint_lines(e).len() + 1
        } else {
            0
        },
{
    match detail_text(e) {
        Some(_) => {},
        None => {
            assert(report_lines(e, false, plain) + Seq::<Seq<SpanView>>::empty() =~= report_lines(e, false, plain));
        },
    }
}

/// `config` without arguments: the file's path, each setting as
/// `  key          value`, and how to change one.
pub open spec fn listing_spec(c: Config, path: Seq<char>) -> Seq<char> {
    path + "\n\n"@ + listing_rows(entries_spec(c@)) + "\nChange a setting:\n  asciiweather config set location Chennai\n"@
}

pub open spec fn listing_rows(es: Seq<(Seq<char>, Seq<char>)>) -> Seq<char>
    decreases es.len(),
{
    if es.len() == 0 {
        Seq::empty()
    } else {
        listing_rows(es.drop_last()) + "  "@ + pad_right(es.last().0, 12) + " "@ + es.last().1 + "\n"@
    }
}

pub fn config_listing(config: &Config, path: &str) -> (s: String)
    ensures
        s@ == listing_spec(*config, path@),
{
    let entries = config.entries();
    let ghost es = entries@.map_values(|p: (&'static str, String)| (p.0@, p.1@));
    let mut s = String::from_str(path);
    s.append("\n\n");
    let ghost start = s@;
    let mut i: usize = 0;
    while i < entries.len()
        invariant
            i <= entries@.len(),
            es == entries@.map_values(|p: (&'static str, String)| (p.0@, p.1@)),
            s@ == start + listing_rows(es.take(i as int)),
        decreases entries.len() - i,
    {
        let ghost before = s@;
        s.append("  ");
        push_padded_right(&mut s, chars_of(entries[i].0).as_slice(), 12);
        s.append(" ");
        s.append(entries[i].1.as_str());
        s.append("\n");
        assert(es.take(i as int + 1).drop_last() =~= es.take(i as int));
        assert(es.take(i as int + 1).last() == es[i as int]);
        assert(s@ =~= start + listing_rows(es.take(i as int + 1)));
        i += 1;
    }
    assert(es.take(entries@.len() as int) =~= es);
    s.append("\nChange a setting:\n  asciiweather config set location Chennai\n");
    s
}

/// `config set`'s confirmation: `key = value` and the file it went to.
pub fn set_confirmation(key: &str, value: &str, path: &str) -> (s: String)
    ensures
        s@ == key@ + " = "@ + value@ + "\n"@ + path@ + "\n"@,
{
    let mut s = String::from_str(key);
    s.append(" = ");
    s.append(value);
    s.append("\n");
    s.append(path);
    s.append("\n");
    s
}

} // verus!
