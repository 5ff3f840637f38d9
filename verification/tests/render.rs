//! The renderer: compositing, framing, captions, colour, width.

use asciiweather::cli::report;
use asciiweather::error::AppError;
use asciiweather::render::ascii::{compact_line, forecast_lines, framed, icon, notice, panel, weekday, Layout};
use asciiweather::render::color::{self, Paint, Span};
use asciiweather::render::terminal::{resolve_width, AUTO_MAX_WIDTH};
use asciiweather::scene::model::Style;
use asciiweather::scene::{generate, RenderOptions};
use asciiweather::weather::{DailyForecast, Intensity, Location, Units, WeatherCondition, WeatherData};

fn sample(condition: WeatherCondition) -> WeatherData {
    WeatherData {
        location: Location {
            name: "Chennai".into(),
            country: "India".into(),
            latitude: 130_000_000,
            longitude: 800_000_000,
        },
        observed_at: "2026-08-20T14:15".into(),
        temperature: 27_300,
        feels_like: 32_700,
        humidity: 87,
        wind_speed: 14_000,
        wind_direction: 225,
        cloud_cover: 92,
        precipitation: 1_400,
        precipitation_probability: Some(72),
        condition,
        intensity: Intensity::Moderate,
        sunrise: Some("2026-08-20T05:56".into()),
        sunset: Some("2026-08-20T18:22".into()),
        units: Units::Metric,
        forecast: vec![],
    }
}

fn rendered(width: usize, plain: bool) -> String {
    let weather = sample(WeatherCondition::Rain);
    let layout = Layout::new(width, plain);
    let scene = generate(
        &weather,
        &RenderOptions {
            width: layout.inner_width(),
            height: None,
            seed: 42,
            frame: 0,
            ascii: plain,
        },
    );
    color::to_string(&panel(&weather, &scene, &layout), false, false)
}

#[test]
fn never_overflows_the_requested_width() {
    for width in [20usize, 24, 32, 40, 52, 80, 120] {
        for plain in [false, true] {
            let out = rendered(width, plain);
            for line in out.lines() {
                assert!(
                    line.chars().count() <= width,
                    "width {width} plain {plain}: {} cols in {line:?}",
                    line.chars().count()
                );
            }
        }
    }
}

#[test]
fn framed_output_is_closed_on_all_sides() {
    let out = rendered(52, false);
    let lines: Vec<&str> = out.lines().collect();
    assert!(lines[0].starts_with('╭') && lines[0].ends_with('╮'));
    assert!(lines.last().unwrap().starts_with('╰'));
    assert!(
        lines[1..lines.len() - 1]
            .iter()
            .all(|l| l.starts_with('│') && l.ends_with('│'))
    );
}

#[test]
fn plain_output_has_no_frame_and_no_ansi() {
    let out = rendered(52, true);
    assert!(!out.contains('│') && !out.contains('╭'));
    assert!(!out.contains('\x1b'));
}

#[test]
fn caption_carries_the_facts() {
    let out = rendered(52, true);
    assert!(out.contains("27°C"));
    assert!(out.contains("Chennai, India"));
    assert!(out.contains("Rain"));
    assert!(out.contains("Feels like 33°C"));
    assert!(out.contains("Humidity 87%"));
    assert!(out.contains("Wind 14 km/h SW"));
}

#[test]
fn compact_is_exactly_one_line() {
    let weather = sample(WeatherCondition::Rain);
    let layout = Layout::new(80, false);
    let out = color::to_string(&[compact_line(&weather, &layout)], false, false);
    assert_eq!(out.lines().count(), 1);
    assert!(out.contains("27°C") && out.contains("Chennai") && out.contains("14 km/h"));
}

#[test]
fn plain_compact_stays_ascii_apart_from_the_degree_sign() {
    let weather = sample(WeatherCondition::Thunderstorm);
    let layout = Layout::new(80, true);
    let out = color::to_string(&[compact_line(&weather, &layout)], false, false);
    assert!(out.chars().all(|c| c.is_ascii() || c == '°'), "{out}");
}

#[test]
fn weekdays_are_computed_without_a_date_library() {
    assert_eq!(weekday("2026-08-20"), Some("Thu"));
    assert_eq!(weekday("2000-02-29"), Some("Tue"));
    assert_eq!(weekday("1999-12-31"), Some("Fri"));
    assert_eq!(weekday("nonsense"), None);
}

#[test]
fn weekdays_reject_impossible_months_and_accept_a_plus_sign() {
    assert_eq!(weekday("2026-13-01"), None);
    assert_eq!(weekday("2026-00-01"), None);
    assert_eq!(weekday("2026-08"), None);
    assert_eq!(weekday("+2026-08-20"), Some("Thu"));
    assert_eq!(weekday("0000-01-01"), Some("Sun"));
}

#[test]
fn without_color_the_text_is_untouched() {
    let lines = vec![vec![
        Span::new("27°C", Paint::Temperature),
        Span::new(" Rain", Paint::Condition),
    ]];
    assert_eq!(color::to_string(&lines, false, false), "27°C Rain\n");
}

#[test]
fn with_color_every_run_is_reset() {
    let lines = vec![vec![Span::new("x", Paint::Scene(Style::Rain))]];
    assert_eq!(color::to_string(&lines, true, false), "\x1b[94mx\x1b[0m\n");
}

#[test]
fn trailing_padding_is_trimmed() {
    let lines = vec![vec![Span::plain("hi     ")]];
    assert_eq!(color::to_string(&lines, false, false), "hi\n");
}

#[test]
fn clouds_dim_at_night() {
    assert_ne!(
        Paint::Scene(Style::Cloud).ansi(true),
        Paint::Scene(Style::Cloud).ansi(false)
    );
}

#[test]
fn colour_needs_a_terminal_and_no_veto() {
    assert!(color::should_colorize(false, false, false, true));
    assert!(!color::should_colorize(true, false, false, true));
    assert!(!color::should_colorize(false, true, false, true));
    assert!(!color::should_colorize(false, false, true, true));
    assert!(!color::should_colorize(false, false, false, false));
}

#[test]
fn explicit_width_wins_and_is_clamped() {
    assert_eq!(resolve_width(Some(50), None), 50);
    assert_eq!(resolve_width(Some(100), None), 100);
    assert_eq!(resolve_width(Some(3), None), 20);
    assert_eq!(resolve_width(Some(9999), None), 200);
}

#[test]
fn piped_output_falls_back_to_a_card() {
    // Not a terminal: nothing detected, so the fallback path is taken.
    assert_eq!(resolve_width(None, None), AUTO_MAX_WIDTH);
}

#[test]
fn detected_terminals_are_capped_to_a_card() {
    assert_eq!(resolve_width(None, Some(200)), 52);
    assert_eq!(resolve_width(None, Some(40)), 40);
    assert_eq!(resolve_width(None, Some(10)), 20);
}

#[test]
fn errors_read_like_advice_not_stack_traces() {
    let text = report(&AppError::UnknownLocation("Chennnai".into()), false, true);
    assert!(text.contains("Could not find \"Chennnai\"."));
    assert!(text.contains("asciiweather Chennai"));
    assert!(!text.contains("reqwest") && !text.contains("ureq"));

    let hidden = report(&AppError::Service("HTTP 429".into()), false, true);
    assert!(!hidden.contains("429"));
    assert!(report(&AppError::Service("HTTP 429".into()), true, true).contains("429"));
}

#[test]
fn reports_have_a_mark_the_hints_and_the_detail() {
    let text = report(&AppError::Network("dns failure".into()), true, true);
    assert_eq!(
        text,
        "x No network connection.\n\n  No cached weather for this location yet.\n\n  detail: dns failure\n"
    );
    assert!(report(&AppError::NoLocation, false, false).starts_with("✗ No default location configured."));
}

#[test]
fn exact_frame_edges() {
    let layout = Layout::new(10, false);
    let out = color::to_string(&framed(vec![vec![Span::plain("abcdefghij")]], &layout), false, false);
    let lines: Vec<&str> = out.lines().collect();
    assert_eq!(lines[0], "╭────────╮");
    assert_eq!(lines[1], "│        │");
    assert_eq!(lines[2], "│  abcd  │");
    assert_eq!(lines[4], "╰────────╯");
    assert!(lines.iter().all(|l| l.chars().count() == 10));
}

#[test]
fn compact_line_reads_in_order() {
    let weather = sample(WeatherCondition::Rain);
    let out = color::to_string(&[compact_line(&weather, &Layout::new(80, true))], false, false);
    assert_eq!(out, "27°C  |  Chennai  |  Rain  |  87%  |  14 km/h\n");
    let out = color::to_string(&[compact_line(&weather, &Layout::new(80, false))], false, false);
    assert_eq!(out, "☁│ 27°C  ·  Chennai  ·  Rain  ·  87%  ·  14 km/h\n");
}

#[test]
fn negative_temperatures_round_like_the_format_does() {
    let mut weather = sample(WeatherCondition::Snow);
    weather.temperature = -2_800;
    weather.wind_speed = 2_500;
    let out = color::to_string(&[compact_line(&weather, &Layout::new(80, true))], false, false);
    assert!(out.starts_with("-3°C"), "{out}");
    assert!(out.contains("2 km/h"), "{out}");
    weather.temperature = -400;
    let out = color::to_string(&[compact_line(&weather, &Layout::new(80, true))], false, false);
    assert!(out.starts_with("-0°C"), "{out}");
}

#[test]
fn icons_have_an_ascii_form() {
    assert_eq!(icon(WeatherCondition::Rain, false), "☁│");
    assert_eq!(icon(WeatherCondition::HeavyRain, true), "~|");
    assert_eq!(icon(WeatherCondition::Clear, true), "* ");
}

#[test]
fn notices_are_marked() {
    let out = color::to_string(&[notice("Stale.", &Layout::new(52, true))], false, false);
    assert_eq!(out, "! Stale.\n");
    let out = color::to_string(&[notice("Stale.", &Layout::new(52, false))], false, false);
    assert_eq!(out, "⚠ Stale.\n");
}

#[test]
fn the_forecast_is_a_centered_column() {
    let mut weather = sample(WeatherCondition::Rain);
    weather.forecast = vec![
        DailyForecast {
            date: "2026-08-20".into(),
            condition: WeatherCondition::Drizzle,
            temp_max: 35_000,
            temp_min: 26_000,
            precipitation_probability: Some(73),
        },
        DailyForecast {
            date: "2026-08-21".into(),
            condition: WeatherCondition::Rain,
            temp_max: 37_400,
            temp_min: 27_000,
            precipitation_probability: None,
        },
    ];
    let layout = Layout::new(52, false);
    let out = color::to_string(&framed(forecast_lines(&weather, &layout), &layout), false, false);
    let lines: Vec<&str> = out.lines().collect();
    assert!(lines[2].contains("CHENNAI, INDIA  ·  °C"), "{out}");
    assert!(lines[4].contains("Today ☁'   35° / 26°   73%"), "{out}");
    assert!(lines[5].contains("Fri   ☁│   37° / 27°"), "{out}");
    assert!(lines.iter().all(|l| l.chars().count() == 52), "{out}");
}

#[test]
fn details_give_way_to_abbreviations_when_cramped() {
    let weather = sample(WeatherCondition::Rain);
    let layout = Layout::new(20, false);
    let scene = generate(
        &weather,
        &RenderOptions { width: layout.inner_width(), height: None, seed: 1, frame: 0, ascii: false },
    );
    let out = color::to_string(&panel(&weather, &scene, &layout), false, false);
    assert!(out.contains("Feels 33°C"), "{out}");
    assert!(out.contains("Hum 87%"), "{out}");
    assert!(out.contains("Wind 14 km/h"), "{out}");
    assert!(!out.contains("SW"), "{out}");
}

#[test]
fn plain_panels_cut_long_labels_to_the_width() {
    let mut weather = sample(WeatherCondition::Clear);
    weather.location.name = "Llanfairpwllgwyngyllgogerychwyrndrobwll".into();
    let layout = Layout::new(20, true);
    let scene = generate(
        &weather,
        &RenderOptions {
            width: layout.inner_width(),
            height: None,
            seed: 7,
            frame: 0,
            ascii: true,
        },
    );
    let out = color::to_string(&panel(&weather, &scene, &layout), false, false);
    assert!(out.lines().count() > 0);
    for line in out.lines() {
        assert!(line.chars().count() <= 20, "{line:?}");
    }
    assert!(out.contains("Llanfairpwll"));
}
