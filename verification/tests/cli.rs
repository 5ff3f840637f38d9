//! The decisions between the command line and the pipeline.

use asciiweather::cli::{animates, body_lines, output_for, Output, colored, config_listing, layout_for, query_for, seed_for, set_confirmation, Cli};
use asciiweather::config::Config;
use asciiweather::error::AppError;
use asciiweather::render::animation::{ends_animation, frame_text, next_frame, Key};
use asciiweather::render::ascii::Layout;
use asciiweather::render::color;
use asciiweather::scene::default_seed;
use asciiweather::weather::{Intensity, Location, Units, WeatherCondition, WeatherData};

fn cli() -> Cli {
    Cli {
        location: None,
        command: None,
        compact: false,
        plain: false,
        no_color: false,
        json: false,
        width: None,
        seed: None,
        no_cache: false,
        forecast: false,
        animate: false,
        debug: false,
    }
}

fn sample() -> WeatherData {
    WeatherData {
        location: Location { name: "Chennai".into(), country: "India".into(), latitude: 0, longitude: 0 },
        observed_at: "2026-08-20T14:15".into(),
        temperature: 27_300,
        feels_like: 32_700,
        humidity: 87,
        wind_speed: 14_000,
        wind_direction: 225,
        cloud_cover: 92,
        precipitation: 1_400,
        precipitation_probability: Some(72),
        condition: WeatherCondition::Rain,
        intensity: Intensity::Moderate,
        sunrise: Some("2026-08-20T05:56".into()),
        sunset: Some("2026-08-20T18:22".into()),
        units: Units::Metric,
        forecast: vec![],
    }
}

#[test]
fn the_command_line_location_beats_the_configured_one() {
    assert_eq!(query_for(&Some("Oslo".into()), &Some("Chennai".into())), Ok("Oslo".to_string()));
    assert_eq!(query_for(&None, &Some("Chennai".into())), Ok("Chennai".to_string()));
    assert_eq!(query_for(&None, &None), Err(AppError::NoLocation));
}

#[test]
fn width_comes_from_the_flag_then_the_config_then_the_terminal() {
    let mut config = Config::default();
    let mut c = cli();
    assert_eq!(layout_for(&c, &config, Some(120)).width, 52);
    config.set("width", "60").unwrap();
    assert_eq!(layout_for(&c, &config, Some(120)).width, 60);
    c.width = Some(500);
    c.plain = true;
    let layout = layout_for(&c, &config, Some(120));
    assert_eq!(layout.width, 200);
    assert!(layout.plain);
}

#[test]
fn colour_and_animation_need_their_conditions() {
    let config = Config::default();
    let mut c = cli();
    assert!(colored(&c, &config, true));
    assert!(!colored(&c, &config, false));
    c.animate = true;
    assert!(animates(&c, true));
    assert!(!animates(&c, false));
    c.compact = true;
    assert!(!animates(&c, true));
    c.compact = false;
    c.plain = true;
    assert!(!colored(&c, &config, true));
    assert!(!animates(&c, true));
}

#[test]
fn the_seed_is_the_flag_or_the_readings_own() {
    let w = sample();
    let mut c = cli();
    assert_eq!(seed_for(&c, &w), default_seed(&w));
    c.seed = Some(42);
    assert_eq!(seed_for(&c, &w), 42);
}

#[test]
fn compact_mode_is_one_line_and_forecast_mode_is_framed() {
    let w = sample();
    let layout = Layout::new(52, false);
    let mut c = cli();
    c.compact = true;
    assert_eq!(body_lines(&c, &w, &layout, 1).len(), 1);
    c.compact = false;
    c.forecast = true;
    let out = color::to_string(&body_lines(&c, &w, &layout, 1), false, false);
    assert!(out.starts_with('╭') && out.contains("CHENNAI, INDIA  ·  °C"), "{out}");
    c.forecast = false;
    let out = color::to_string(&body_lines(&c, &w, &layout, 1), false, false);
    assert!(out.contains("Feels like 33°C"), "{out}");
}

#[test]
fn the_settings_listing_and_confirmation() {
    let text = config_listing(&Config::default(), "/x/config.toml");
    assert_eq!(
        text,
        "/x/config.toml\n\n  location     —\n  units        metric\n  color        true\n  width        auto\n  ttl_minutes  10\n\nChange a setting:\n  asciiweather config set location Chennai\n"
    );
    assert_eq!(set_confirmation("units", "imperial", "/x"), "units = imperial\n/x\n");
}

#[test]
fn any_key_ends_the_animation() {
    assert!(ends_animation(Key::Char('q'), false));
    assert!(ends_animation(Key::Char('x'), false));
    assert!(ends_animation(Key::Char('c'), true));
    assert!(ends_animation(Key::Esc, false));
    assert!(ends_animation(Key::Other, false));
    assert!(ends_animation(Key::Other, true));
    assert_eq!(next_frame(0), 1);
    assert_eq!(next_frame(1_000_000_000), 1_000_000_001);
    assert_eq!(next_frame(1_073_741_823), 1_073_741_824);
    assert_eq!(next_frame(u64::MAX), 0);
}

#[test]
fn animation_frames_are_the_panel_with_carriage_returns() {
    let w = sample();
    let layout = Layout::new(52, false);
    let text = frame_text(&w, &layout, false, false, 42, 0);
    assert!(text.contains("\r\n"));
    assert!(!text.replace("\r\n", "").contains('\n'));
    assert!(text.starts_with('╭'));
}

#[test]
fn json_wins_then_the_animation_then_lines() {
    let mut c = cli();
    c.json = true;
    c.animate = true;
    assert!(output_for(&c, true) == Output::Json);
    c.json = false;
    assert!(output_for(&c, true) == Output::Animation);
    assert!(output_for(&c, false) == Output::Lines);
    c.plain = true;
    assert!(output_for(&c, true) == Output::Lines);
    c.plain = false;
    c.compact = true;
    assert!(output_for(&c, true) == Output::Lines);
}
